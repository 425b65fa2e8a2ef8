//! The signer bitmask: one bit per entry of the round's stake table.
//!
//! The bits live in a `bitvec::vec::BitVec`. Verus does not look inside that
//! type, so this module gives its contents a name, [`bits_of`], and states
//! over that name what each of the `bitvec` calls made here does. Everything
//! else in the module is proved from those statements.

use bitvec::order::Lsb0;
use bitvec::vec::BitVec;
use vstd::prelude::*;

verus! {

/// A fixed-length vector of bits, kept in a `BitVec<usize, Lsb0>`.
#[verifier::external_body]
pub struct SignerBitmask {
    bits: BitVec<usize, Lsb0>,
}

/// The bits that a bitmask holds, first bit first.
pub uninterp spec fn bits_of(mask: SignerBitmask) -> Seq<bool>;

/// The largest number of bits a bitmask can be created with.
pub open spec fn max_bits() -> nat {
    (usize::MAX / 8) as nat
}

/// The number of `true` entries of `bits`.
pub open spec fn count_set(bits: Seq<bool>) -> nat
    decreases bits.len(),
{
    if bits.len() == 0 {
        0
    } else {
        count_set(bits.drop_last()) + if bits.last() { 1nat } else { 0nat }
    }
}

/// Setting a bit adds one to the count where the bit was clear, and nothing
/// where it was set already.
pub proof fn lemma_count_after_set(bits: Seq<bool>, index: int)
    requires
        0 <= index < bits.len(),
    ensures
        count_set(bits.update(index, true)) == count_set(bits) + if bits[index] {
            0nat
        } else {
            1nat
        },
    decreases bits.len(),
{
    let after = bits.update(index, true);
    if index == bits.len() - 1 {
        assert(after.drop_last() =~= bits.drop_last());
    } else {
        assert(after.drop_last() =~= bits.drop_last().update(index, true));
        lemma_count_after_set(bits.drop_last(), index);
    }
}

/// A mask of cleared bits has no bit set.
pub proof fn lemma_count_of_clear(len: nat)
    ensures
        count_set(Seq::new(len, |i: int| false)) == 0,
    decreases len,
{
    if len > 0 {
        assert(Seq::new(len, |i: int| false).drop_last() =~= Seq::new(
            (len - 1) as nat,
            |i: int| false,
        ));
        lemma_count_of_clear((len - 1) as nat);
    }
}

impl View for SignerBitmask {
    type V = Seq<bool>;

    open spec fn view(&self) -> Seq<bool> {
        bits_of(*self)
    }
}

impl SignerBitmask {
    /// `BitVec::repeat(false, len)`: a bit-vector of `len` bits, all of them
    /// zero. The call panics on a length above `usize::MAX >> 3`.
    #[verifier::external_body]
    fn zeroed(len: usize) -> (mask: SignerBitmask)
        requires
            len <= max_bits(),
        ensures
            bits_of(mask) == Seq::new(len as nat, |i: int| false),
    {
        SignerBitmask { bits: BitVec::repeat(false, len) }
    }

    /// `BitVec::len`: the number of bits held.
    #[verifier::external_body]
    fn bit_len(&self) -> (len: usize)
        ensures
            len == bits_of(*self).len(),
    {
        self.bits.len()
    }

    /// Indexing a `BitVec` by a `usize`: the bit at `index`. The call panics
    /// on an index at or beyond the length.
    #[verifier::external_body]
    fn bit_at(&self, index: usize) -> (bit: bool)
        requires
            index < bits_of(*self).len(),
        ensures
            bit == bits_of(*self)[index as int],
    {
        self.bits[index]
    }

    /// `BitSlice::set(index, true)`: writes a one at `index` and leaves every
    /// other bit as it was. The call panics on an index at or beyond the
    /// length.
    #[verifier::external_body]
    fn set_bit(&mut self, index: usize)
        requires
            index < bits_of(*old(self)).len(),
        ensures
            bits_of(*final(self)) == bits_of(*old(self)).update(index as int, true),
    {
        self.bits.set(index, true);
    }

    /// A bitmask of `len` cleared bits, or `None` when `len` is more than a
    /// bitmask can hold.
    pub fn new(len: usize) -> (mask: Option<SignerBitmask>)
        ensures
            mask is Some <==> len <= max_bits(),
            mask matches Some(m) ==> m@ == Seq::new(len as nat, |i: int| false),
    {
        if len <= usize::MAX / 8 {
            Some(SignerBitmask::zeroed(len))
        } else {
            None
        }
    }

    /// The number of bits, set or not.
    pub fn len(&self) -> (len: usize)
        ensures
            len == self@.len(),
    {
        self.bit_len()
    }

    /// Whether the bit at `index` is set. An index beyond the mask is not set.
    pub fn is_set(&self, index: usize) -> (set: bool)
        ensures
            set <==> (index < self@.len() && self@[index as int]),
    {
        index < self.bit_len() && self.bit_at(index)
    }

    /// The number of bits that are set.
    pub fn count_ones(&self) -> (count: usize)
        ensures
            count == count_set(self@),
    {
        let len = self.bit_len();
        let mut count: usize = 0;
        let mut i: usize = 0;
        while i < len
            invariant
                len == self@.len(),
                i <= len,
                count == count_set(self@.take(i as int)),
                count <= i,
            decreases len - i,
        {
            assert(self@.take(i + 1).drop_last() =~= self@.take(i as int));
            if self.bit_at(i) {
                count += 1;
            }
            i += 1;
        }
        assert(self@.take(len as int) =~= self@);
        count
    }

    /// The bits as a vector of booleans, first bit first.
    pub fn to_vec(&self) -> (bits: Vec<bool>)
        ensures
            bits@ == self@,
    {
        let len = self.bit_len();
        let mut bits: Vec<bool> = Vec::new();
        let mut i: usize = 0;
        while i < len
            invariant
                len == self@.len(),
                i <= len,
                bits@ == self@.take(i as int),
            decreases len - i,
        {
            bits.push(self.bit_at(i));
            assert(self@.take(i + 1) =~= self@.take(i as int).push(self@[i as int]));
            i += 1;
        }
        assert(self@.take(len as int) =~= self@);
        bits
    }

    /// Sets the bit at `index` and says whether it could: an index beyond the
    /// mask changes nothing. Setting a bit that is already set changes
    /// nothing either.
    pub fn mark(&mut self, index: usize) -> (marked: bool)
        ensures
            marked <==> index < old(self)@.len(),
            marked ==> final(self)@ == old(self)@.update(index as int, true),
            !marked ==> final(self)@ == old(self)@,
    {
        if index < self.bit_len() {
            self.set_bit(index);
            true
        } else {
            false
        }
    }
}

} // verus!
