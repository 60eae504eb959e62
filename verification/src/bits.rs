use vstd::prelude::*;
use bitvec::order::Lsb0;
use bitvec::vec::BitVec;

verus! {

/// A bit vector of fixed length, kept in a `bitvec::vec::BitVec`.
///
/// Verus does not look inside: what it holds is `bits_of`, and every access
/// goes through the four functions below, whose contracts are taken on trust.
#[verifier::external_body]
pub struct Bits {
    inner: BitVec<usize, Lsb0>,
}

/// The bits held, first to last.
pub uninterp spec fn bits_of(b: Bits) -> Seq<bool>;

impl View for Bits {
    type V = Seq<bool>;

    open spec fn view(&self) -> Seq<bool> {
        bits_of(*self)
    }
}

/// The largest number of bits that one vector can hold.
pub open spec fn bit_limit() -> nat {
    (usize::MAX / 8) as nat
}

/// `BitVec::repeat`: a vector of `len` copies of `bit`. The outside function
/// panics where `len` is beyond the longest span that it can encode, which is
/// the largest `usize` shifted right by three.
#[verifier::external_body]
pub(crate) fn bits_repeat(bit: bool, len: usize) -> (r: Bits)
    requires
        len <= bit_limit(),
    ensures
        bits_of(r).len() == len,
        forall|i: int| 0 <= i < len ==> bits_of(r)[i] == bit,
{
    Bits { inner: BitVec::repeat(bit, len) }
}

/// `BitVec::len`: the number of bits held.
#[verifier::external_body]
pub(crate) fn bits_len(b: &Bits) -> (r: usize)
    ensures
        r == bits_of(*b).len(),
{
    b.inner.len()
}

/// Indexing a `BitVec`: the bit at `index`. Out of bounds the outside
/// function panics.
#[verifier::external_body]
pub(crate) fn bits_get(b: &Bits, index: usize) -> (r: bool)
    requires
        index < bits_of(*b).len(),
    ensures
        r == bits_of(*b)[index as int],
{
    b.inner[index]
}

/// `BitSlice::set`: writes `value` at `index` and leaves the other bits as
/// they are. Out of bounds the outside function panics.
#[verifier::external_body]
pub(crate) fn bits_set(b: &mut Bits, index: usize, value: bool)
    requires
        index < bits_of(*old(b)).len(),
    ensures
        bits_of(*final(b)) == bits_of(*old(b)).update(index as int, value),
{
    b.inner.set(index, value)
}

impl Bits {
    /// `len` copies of `bit`, or `None` where `len` is beyond `bit_limit()`.
    pub fn repeat(bit: bool, len: usize) -> (r: Option<Bits>)
        ensures
            len > bit_limit() <==> r is None,
            r matches Some(b) ==> b@ == Seq::new(len as nat, |i: int| bit),
    {
        if len <= usize::MAX / 8 {
            let b = bits_repeat(bit, len);
            assert(b@ =~= Seq::new(len as nat, |i: int| bit));
            Some(b)
        } else {
            None
        }
    }

    /// The number of bits.
    pub fn len(&self) -> (r: usize)
        ensures
            r == self@.len(),
    {
        bits_len(self)
    }

    /// The bit at `index`, or `None` past the end.
    pub fn get(&self, index: usize) -> (r: Option<bool>)
        ensures
            r == (if index < self@.len() {
                Some(self@[index as int])
            } else {
                None
            }),
    {
        if index < bits_len(self) {
            Some(bits_get(self, index))
        } else {
            None
        }
    }

    /// Writes `value` at `index`. Past the end nothing is written and the
    /// result is `false`.
    pub fn set(&mut self, index: usize, value: bool) -> (r: bool)
        ensures
            r == (index < old(self)@.len()),
            r ==> final(self)@ == old(self)@.update(index as int, value),
            !r ==> final(self)@ == old(self)@,
    {
        if index < bits_len(self) {
            bits_set(self, index, value);
            true
        } else {
            false
        }
    }
}

/// The number of `true` entries of `s`.
pub open spec fn count_true(s: Seq<bool>) -> nat
    decreases s.len(),
{
    if s.len() == 0 {
        0
    } else {
        count_true(s.drop_last()) + (if s.last() { 1nat } else { 0nat })
    }
}

/// No sequence has more `true` entries than entries.
pub proof fn lemma_count_true_bound(s: Seq<bool>)
    ensures
        count_true(s) <= s.len(),
    decreases s.len(),
{
    if s.len() > 0 {
        lemma_count_true_bound(s.drop_last());
    }
}

/// A sequence of `true` alone counts its own length.
pub proof fn lemma_count_true_full(s: Seq<bool>)
    requires
        forall|i: int| 0 <= i < s.len() ==> s[i],
    ensures
        count_true(s) == s.len(),
    decreases s.len(),
{
    if s.len() > 0 {
        lemma_count_true_full(s.drop_last());
    }
}

/// Writing one entry moves the count by the difference of the old entry and
/// the new one.
pub proof fn lemma_count_true_update(s: Seq<bool>, index: int, value: bool)
    requires
        0 <= index < s.len(),
    ensures
        count_true(s.update(index, value)) + (if s[index] { 1int } else { 0int })
            == count_true(s) + (if value { 1int } else { 0int }),
    decreases s.len(),
{
    let t = s.update(index, value);
    if index == s.len() - 1 {
        assert(t.drop_last() =~= s.drop_last());
    } else {
        assert(t.drop_last() =~= s.drop_last().update(index, value));
        lemma_count_true_update(s.drop_last(), index, value);
    }
}

} // verus!
