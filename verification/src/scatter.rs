use vstd::prelude::*;
use crate::mphf::{
    image, lemma_perfect_is_bijection, mphf_slots, perfect_on, placed_by, reaches, sits_in,
    slot_index, slot_of, texts, Mphf,
};

verus! {

/// `len` empty slots.
pub(crate) fn empty_slots<V>(len: usize) -> (r: Vec<Option<V>>)
    ensures
        r@ == Seq::new(len as nat, |i: int| None::<V>),
{
    let mut slots: Vec<Option<V>> = Vec::with_capacity(len);
    let mut i: usize = 0;
    while i < len
        invariant
            i <= len,
            slots.len() == i,
            forall|j: int| 0 <= j < i ==> slots[j] is None,
        decreases len - i,
    {
        slots.push(None);
        i += 1;
    }
    assert(slots@ =~= Seq::new(len as nat, |i: int| None::<V>));
    slots
}

/// Moves every key into the slot that `f` gives it. As `f` is perfect on the
/// keys, every slot gets exactly one of them.
pub(crate) fn scatter_keys(f: &Mphf, keys: Vec<String>) -> (r: Vec<String>)
    requires
        perfect_on(*f, texts(keys@)),
    ensures
        r.len() == keys.len(),
        placed_by(*f, texts(r@)),
        forall|j: int| 0 <= j < keys.len() ==> sits_in(*f, texts(r@), #[trigger] keys[j]@),
{
    let n = keys.len();
    let ghost all = keys@;
    let ghost names = texts(keys@);
    let mut sorted: Vec<String> = Vec::with_capacity(n);
    let mut i: usize = 0;
    while i < n
        invariant
            i <= n,
            sorted.len() == i,
        decreases n - i,
    {
        sorted.push(String::new());
        i += 1;
    }
    let mut rest = keys;
    while rest.len() > 0
        invariant
            n == all.len(),
            names == texts(all),
            perfect_on(*f, names),
            rest.len() <= n,
            rest@ == all.subrange(0, rest.len() as int),
            sorted.len() == n,
            forall|p: int|
                rest.len() <= p < n ==> sorted[mphf_slots(*f)[#[trigger] names[p]] as int]@
                    == names[p],
        decreases rest.len(),
    {
        let ghost last = rest.len() - 1;
        match rest.pop() {
            Some(key) => {
                assert(key == all[last]);
                assert(names[last] == key@);
                match slot_index(f, &key, n) {
                    Some(slot) => {
                        sorted.set(slot, key);
                        assert forall|p: int| rest.len() <= p < n implies sorted[mphf_slots(
                            *f,
                        )[#[trigger] names[p]] as int]@ == names[p] by {
                            if p > last {
                                assert(mphf_slots(*f)[names[last]] != mphf_slots(*f)[names[p]]);
                            }
                        }
                    },
                    None => {
                        assert(false);
                    },
                }
            },
            None => {},
        }
    }
    proof {
        lemma_perfect_is_bijection(*f, names);
        let placed = texts(sorted@);
        assert forall|i: int| 0 <= i < placed.len() implies slot_of(*f, #[trigger] placed[i])
            == Some(i as usize) by {
            assert(reaches(*f, names, i));
            let p = choose|p: int| 0 <= p < names.len() && #[trigger] image(*f, names)[p] == i;
            assert(sorted[mphf_slots(*f)[names[p]] as int]@ == names[p]);
            assert(placed[i] == sorted[i]@);
        }
        assert forall|j: int| 0 <= j < all.len() implies sits_in(
            *f,
            placed,
            #[trigger] all[j]@,
        ) by {
            assert(names[j] == all[j]@);
            let s = mphf_slots(*f)[names[j]] as int;
            assert(placed[s] == sorted[s]@);
        }
    }
    sorted
}

/// Moves every value into the slot that `f` gives to the key at the same
/// position. As `f` is perfect on the keys, every slot gets exactly one value.
pub(crate) fn scatter_values<V>(f: &Mphf, keys: &Vec<String>, values: Vec<V>) -> (r: Vec<
    Option<V>,
>)
    requires
        perfect_on(*f, texts(keys@)),
        keys.len() == values.len(),
    ensures
        r.len() == keys.len(),
        forall|i: int| 0 <= i < r.len() ==> (#[trigger] r[i]) is Some,
        forall|j: int|
            0 <= j < keys.len() ==> mphf_slots(*f)[#[trigger] keys[j]@] < r.len() && r[mphf_slots(
                *f,
            )[keys[j]@] as int] == Some(values[j]),
{
    let n = keys.len();
    let ghost all = values@;
    let ghost names = texts(keys@);
    let mut sorted: Vec<Option<V>> = empty_slots(n);
    let mut rest = values;
    while rest.len() > 0
        invariant
            n == all.len(),
            n == keys.len(),
            names == texts(keys@),
            perfect_on(*f, names),
            rest.len() <= n,
            rest@ == all.subrange(0, rest.len() as int),
            sorted.len() == n,
            forall|p: int|
                rest.len() <= p < n ==> sorted[mphf_slots(*f)[#[trigger] names[p]] as int]
                    == Some(all[p]),
        decreases rest.len(),
    {
        let ghost last = rest.len() - 1;
        let at = rest.len() - 1;
        match rest.pop() {
            Some(value) => {
                assert(value == all[last]);
                assert(names[last] == keys[last]@);
                match slot_index(f, &keys[at], n) {
                    Some(slot) => {
                        sorted.set(slot, Some(value));
                        assert forall|p: int| rest.len() <= p < n implies sorted[mphf_slots(
                            *f,
                        )[#[trigger] names[p]] as int] == Some(all[p]) by {
                            if p > last {
                                assert(mphf_slots(*f)[names[last]] != mphf_slots(*f)[names[p]]);
                            }
                        }
                    },
                    None => {
                        assert(false);
                    },
                }
            },
            None => {},
        }
    }
    proof {
        lemma_perfect_is_bijection(*f, names);
        assert forall|i: int| 0 <= i < sorted.len() implies (#[trigger] sorted[i]) is Some by {
            assert(reaches(*f, names, i));
            let p = choose|p: int| 0 <= p < names.len() && #[trigger] image(*f, names)[p] == i;
            assert(sorted[mphf_slots(*f)[names[p]] as int] == Some(all[p]));
        }
        assert forall|j: int| 0 <= j < keys.len() implies mphf_slots(*f)[#[trigger] keys[j]@]
            < sorted.len() && sorted[mphf_slots(*f)[keys[j]@] as int] == Some(all[j]) by {
            assert(names[j] == keys[j]@);
        }
    }
    sorted
}

} // verus!
