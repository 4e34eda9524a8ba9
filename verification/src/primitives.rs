//! Fixed-width hashes and integers.

use vstd::prelude::*;

verus! {

/// A 256-bit hash, its bytes in the order in which they are written out.
#[derive(Clone, Copy, Debug)]
pub struct H256(pub [u8; 32]);

impl View for H256 {
    type V = Seq<u8>;

    open spec fn view(&self) -> Seq<u8> {
        self.0@
    }
}

/// Two hashes with the same bytes are the same hash.
pub broadcast proof fn lemma_same_bytes_same_hash(a: H256, b: H256)
    requires
        #[trigger] a@ == #[trigger] b@,
    ensures
        a == b,
{
    assert forall|i: int| 0 <= i < 32 implies a.0[i] == b.0[i] by {
        assert(a@[i] == b@[i]);
    }
    assert(a.0 =~= b.0);
}

impl H256 {
    /// The hash whose bytes are all zero.
    pub fn zero() -> (hash: H256)
        ensures
            hash == zero_hash(),
    {
        H256([0u8; 32])
    }

    /// The hash with the given bytes.
    pub fn from_slice(bytes: &[u8]) -> (hash: H256)
        requires
            bytes@.len() == 32,
        ensures
            hash@ == bytes@,
    {
        let mut copy: [u8; 32] = [0u8; 32];
        let mut i: usize = 0;
        while i < 32
            invariant
                i <= 32,
                bytes@.len() == 32,
                forall|j: int| 0 <= j < i ==> copy@[j] == bytes@[j],
            decreases 32 - i,
        {
            copy[i] = bytes[i];
            i += 1;
        }
        let hash = H256(copy);
        assert(hash@ =~= bytes@);
        hash
    }
}

/// The hash whose bytes are all zero.
pub open spec fn zero_hash() -> H256 {
    H256(vstd::array::spec_array_fill_for_copy_type::<u8, 32>(0u8))
}

impl PartialEq for H256 {
    fn eq(&self, other: &H256) -> (same: bool) {
        let mut i: usize = 0;
        while i < 32
            invariant
                i <= 32,
                forall|j: int| 0 <= j < i ==> self.0[j] == other.0[j],
            decreases 32 - i,
        {
            if self.0[i] != other.0[i] {
                return false;
            }
            i += 1;
        }
        assert(self.0 =~= other.0);
        true
    }
}

impl vstd::std_specs::cmp::PartialEqSpecImpl for H256 {
    open spec fn obeys_eq_spec() -> bool {
        true
    }

    open spec fn eq_spec(&self, other: &H256) -> bool {
        *self == *other
    }
}

impl Eq for H256 {
}

/// A 256-bit unsigned integer as four 64-bit limbs, the least significant first.
#[derive(Clone, Copy, Debug)]
pub struct U256(pub [u64; 4]);

impl View for U256 {
    type V = nat;

    /// The number that the limbs stand for.
    open spec fn view(&self) -> nat {
        (self.0@[0] + 0x1_0000_0000_0000_0000 * (self.0@[1] + 0x1_0000_0000_0000_0000 * (self.0@[2]
            + 0x1_0000_0000_0000_0000 * self.0@[3]))) as nat
    }
}

/// The number zero.
pub open spec fn zero_number() -> U256 {
    U256(vstd::array::spec_array_fill_for_copy_type::<u64, 4>(0u64))
}

impl U256 {
    /// The number zero.
    pub fn zero() -> (number: U256)
        ensures
            number == zero_number(),
            number@ == 0,
    {
        U256([0u64; 4])
    }

    /// The number is zero.
    pub fn is_zero(&self) -> (is_zero: bool)
        ensures
            is_zero == (self@ == 0),
    {
        self.0[0] == 0 && self.0[1] == 0 && self.0[2] == 0 && self.0[3] == 0
    }

    /// The number is less than the other.
    pub fn is_less(&self, other: &U256) -> (is_less: bool)
        ensures
            is_less == (self@ < other@),
    {
        if self.0[3] != other.0[3] {
            self.0[3] < other.0[3]
        } else if self.0[2] != other.0[2] {
            self.0[2] < other.0[2]
        } else if self.0[1] != other.0[1] {
            self.0[1] < other.0[1]
        } else {
            self.0[0] < other.0[0]
        }
    }

    /// The number `count`.
    pub fn from_usize(count: usize) -> (number: U256)
        ensures
            number@ == count,
    {
        U256([count as u64, 0, 0, 0])
    }
}

} // verus!
