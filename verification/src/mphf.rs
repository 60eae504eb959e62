use vstd::prelude::*;
use vstd::set_lib::*;
use ph::fmph::keyset::SliceSourceWithRefs;
use ph::fmph::BuildConf;

verus! {

/// `ph::fmph::Function`, the fingerprinting-based minimal perfect hash
/// function, as a value that Verus carries and does not look into.
#[verifier::external_type_specification]
#[verifier::external_body]
#[verifier::reject_recursive_types(S)]
pub struct ExFunction<S>(ph::fmph::Function<S>);

/// `ph::Seedable`, the family of seeded hashers that the function hashes its
/// keys with, as a value that Verus does not look into.
#[verifier::external_type_specification]
#[verifier::external_body]
#[verifier::reject_recursive_types(B)]
pub struct ExSeedable<B: std::hash::BuildHasher + Clone>(ph::Seedable<B>);

/// `std::hash::BuildHasherDefault`, which the family of hashers is made of,
/// as a value that Verus does not look into.
#[verifier::external_type_specification]
#[verifier::external_body]
#[verifier::reject_recursive_types(H)]
pub struct ExBuildHasherDefault<H>(std::hash::BuildHasherDefault<H>);

/// The minimal perfect hash function that the maps are built on. Its `get` is
/// defined for every key, also for one that the function was not built over,
/// and its construction reports failure instead of panicking: the maps that
/// check their keys depend on the first, the builders on the second.
pub type Mphf = ph::fmph::Function<ph::BuildDefaultSeededHasher>;

/// What a built function answers, key by key: the keys it has a slot for, each
/// with its slot. A key outside the domain gets no answer.
pub uninterp spec fn mphf_slots(f: Mphf) -> Map<Seq<char>, u64>;

/// The number of keys that the function was built over.
pub uninterp spec fn mphf_len(f: Mphf) -> nat;

/// The texts of a sequence of keys.
pub open spec fn texts(keys: Seq<String>) -> Seq<Seq<char>> {
    keys.map_values(|k: String| k@)
}

/// Whether a function can be built over keys with these texts. The
/// construction works on the hashes of the keys alone, with hashers that are
/// seeded by the level and by nothing else, so whether it succeeds is settled
/// by the keys.
pub uninterp spec fn mphf_builds(keys: Seq<Seq<char>>) -> bool;

/// The index that `f` stands for `key`: the slot that the function answers,
/// and the first slot for a key that it has no answer for. Such a key is
/// never one of the build, and it is let collide with the key of the first
/// slot as any other foreign key collides with the key of some slot.
pub open spec fn index_of(f: Mphf, key: Seq<char>) -> usize {
    if mphf_slots(f).dom().contains(key) {
        mphf_slots(f)[key] as usize
    } else {
        0
    }
}

/// The slot of `key`: its index, wherever `f` was built over any key at all.
/// Only a function built over no keys has no slot to give.
pub open spec fn slot_of(f: Mphf, key: Seq<char>) -> Option<usize> {
    if index_of(f, key) < mphf_len(f) {
        Some(index_of(f, key))
    } else {
        None
    }
}

/// Every key of `placed` sits in the slot that `f` gives it.
pub open spec fn placed_by(f: Mphf, placed: Seq<Seq<char>>) -> bool {
    forall|i: int| 0 <= i < placed.len() ==> slot_of(f, #[trigger] placed[i]) == Some(i as usize)
}

/// `key` is the key that `placed` holds in the slot that `f` gives it.
pub open spec fn sits_in(f: Mphf, placed: Seq<Seq<char>>, key: Seq<char>) -> bool {
    slot_of(f, key) matches Some(idx) && idx < placed.len() && placed[idx as int] == key
}

/// Every slot that `f` gives, to whatever key, is below the number of keys
/// that it was built over.
pub open spec fn in_range(f: Mphf) -> bool {
    forall|key: Seq<char>|
        mphf_slots(f).dom().contains(key) ==> (#[trigger] mphf_slots(f)[key]) < mphf_len(f)
}

/// `f` is perfect on `keys`: it was built over as many keys, gives each of
/// them a slot below their number, and no slot twice.
pub open spec fn perfect_on(f: Mphf, keys: Seq<Seq<char>>) -> bool {
    &&& mphf_len(f) == keys.len()
    &&& keys.len() <= usize::MAX
    &&& in_range(f)
    &&& forall|i: int| 0 <= i < keys.len() ==> mphf_slots(f).dom().contains(#[trigger] keys[i])
    &&& forall|i: int, j: int|
        0 <= i < j < keys.len() ==> mphf_slots(f)[#[trigger] keys[i]] != mphf_slots(
            f,
        )[#[trigger] keys[j]]
}

/// `ph::fmph::Function::try_with_conf_stats` over the slice of keys, with the
/// default configuration: a fingerprinting-based minimal perfect hash
/// function, or nothing where the construction gives up (as it does on keys
/// that occur twice). Whether one comes back is settled by the keys. A
/// function that comes back maps the keys it was built over one to one into
/// the numbers below their count, and answers no key with a number that is
/// not below it.
#[verifier::external_body]
pub(crate) fn mphf_build(keys: &Vec<String>) -> (r: Option<Mphf>)
    ensures
        r is Some <==> mphf_builds(texts(keys@)),
        r matches Some(f) ==> perfect_on(f, texts(keys@)),
{
    Mphf::try_with_conf_stats(
        SliceSourceWithRefs::<_, u8>::new(keys.as_slice()),
        BuildConf::default(),
        &mut (),
    )
}

/// `ph::fmph::Function::get`: the slot of `key`. For a key that the function
/// was not built over the outside function gives nothing or some slot; in
/// every case a slot that comes back is below the number of keys.
#[verifier::external_body]
pub(crate) fn mphf_get(f: &Mphf, key: &String) -> (r: Option<u64>)
    ensures
        r == (if mphf_slots(*f).dom().contains(key@) {
            Some(mphf_slots(*f)[key@])
        } else {
            None
        }),
        r matches Some(slot) ==> slot < mphf_len(*f),
{
    f.get(key)
}

/// The index of `key`, where `f` was built over at most `usize::MAX` keys:
/// below the number of keys wherever there is a key.
pub(crate) fn key_index(f: &Mphf, key: &String) -> (r: usize)
    requires
        in_range(*f),
        mphf_len(*f) <= usize::MAX,
    ensures
        r == index_of(*f, key@),
        mphf_len(*f) > 0 ==> r < mphf_len(*f),
{
    match mphf_get(f, key) {
        Some(slot) => slot as usize,
        None => 0,
    }
}

/// The slot of `key` in a function that was built over `slots` keys.
pub(crate) fn slot_index(f: &Mphf, key: &String, slots: usize) -> (r: Option<usize>)
    requires
        in_range(*f),
        mphf_len(*f) == slots,
    ensures
        r == slot_of(*f, key@),
        r matches Some(slot) ==> slot < slots,
{
    let index = key_index(f, key);
    if index < slots {
        Some(index)
    } else {
        None
    }
}

/// A function is perfect only on keys that differ from one another: over
/// keys of which one occurs twice nothing is built.
pub proof fn lemma_perfect_keys_differ(f: Mphf, keys: Seq<Seq<char>>)
    requires
        perfect_on(f, keys),
    ensures
        keys.no_duplicates(),
{
    assert forall|i: int, j: int| 0 <= i < keys.len() && 0 <= j < keys.len() && i != j implies keys[i]
        != keys[j] by {
        if i < j {
            assert(mphf_slots(f)[keys[i]] != mphf_slots(f)[keys[j]]);
        } else {
            assert(mphf_slots(f)[keys[j]] != mphf_slots(f)[keys[i]]);
        }
    }
}

/// The slots that a perfect function gives to its keys, in the order of the
/// keys.
pub open spec fn image(f: Mphf, keys: Seq<Seq<char>>) -> Seq<int> {
    Seq::new(keys.len(), |i: int| mphf_slots(f)[keys[i]] as int)
}

/// Some key of `keys` is given `slot`.
pub open spec fn reaches(f: Mphf, keys: Seq<Seq<char>>, slot: int) -> bool {
    exists|i: int| 0 <= i < keys.len() && #[trigger] image(f, keys)[i] == slot
}

/// Bijection: the slots that a perfect function gives to its keys are exactly
/// the numbers below the number of keys, each of them once. So every slot is
/// reached, and by one key only.
pub proof fn lemma_perfect_is_bijection(f: Mphf, keys: Seq<Seq<char>>)
    requires
        perfect_on(f, keys),
    ensures
        image(f, keys).no_duplicates(),
        image(f, keys).to_set() == set_int_range(0, keys.len() as int),
        forall|slot: int| 0 <= slot < keys.len() ==> #[trigger] reaches(f, keys, slot),
{
    let n = keys.len() as int;
    let img = image(f, keys);
    assert forall|i: int, j: int| 0 <= i < img.len() && 0 <= j < img.len() && i != j implies img[i]
        != img[j] by {
        if i < j {
            assert(mphf_slots(f)[keys[i]] != mphf_slots(f)[keys[j]]);
        } else {
            assert(mphf_slots(f)[keys[j]] != mphf_slots(f)[keys[i]]);
        }
    }
    assert(img.no_duplicates());
    img.unique_seq_to_set();
    lemma_int_range(0, n);
    let range = set_int_range(0, n);
    assert forall|s: int| img.to_set().contains(s) implies range.contains(s) by {
        let i = choose|i: int| 0 <= i < img.len() && img[i] == s;
        assert(mphf_slots(f).dom().contains(keys[i]));
    }
    assert(img.to_set().subset_of(range));
    lemma_len_subset(img.to_set(), range);
    lemma_subset_equality(img.to_set(), range);
    assert forall|slot: int| 0 <= slot < n implies #[trigger] reaches(f, keys, slot) by {
        assert(range.contains(slot));
        assert(img.to_set().contains(slot));
        let i = choose|i: int| 0 <= i < img.len() && img[i] == slot;
        assert(image(f, keys)[i] == slot);
    }
}

} // verus!
