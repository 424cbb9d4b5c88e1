//! Fixed-width identifiers of pools, tokens and badges.

use vstd::prelude::*;

verus! {

/// Number of bytes in an [`Address`].
pub const ADDRESS_LENGTH: usize = 30;

/// A fixed-width identifier. Two addresses are the same when their bytes are.
#[derive(Clone, Copy, Debug)]
pub struct Address {
    bytes: [u8; ADDRESS_LENGTH],
}

impl View for Address {
    type V = Seq<u8>;

    closed spec fn view(&self) -> Seq<u8> {
        self.bytes@
    }
}

/// The unsigned 64-bit number whose big-endian digits are the first eight bytes of `bytes`.
pub open spec fn leading_u64(bytes: Seq<u8>) -> int
    recommends
        bytes.len() >= 8,
{
    bytes[0] * 0x1_00_0000_0000_0000 + bytes[1] * 0x1_0000_0000_0000 + bytes[2]
        * 0x1_00_0000_0000 + bytes[3] * 0x1_0000_0000 + bytes[4] * 0x1_00_0000 + bytes[5]
        * 0x1_0000 + bytes[6] * 0x1_00 + bytes[7]
}

impl Address {
    /// Makes the address with the given bytes.
    pub fn new(bytes: [u8; ADDRESS_LENGTH]) -> (address: Address)
        ensures
            address@ == bytes@,
    {
        Address { bytes }
    }

    /// The bytes of the address.
    pub fn to_bytes(&self) -> (bytes: [u8; ADDRESS_LENGTH])
        ensures
            bytes@ == self@,
    {
        self.bytes
    }

    /// Every address has exactly [`ADDRESS_LENGTH`] bytes.
    pub proof fn lemma_len(&self)
        ensures
            self@.len() == ADDRESS_LENGTH,
    {
    }

    /// Addresses with the same bytes are the same address.
    pub proof fn lemma_same_bytes(&self, other: &Address)
        ensures
            self@ == other@ <==> *self == *other,
    {
        if self@ == other@ {
            assert forall|i: int| 0 <= i < ADDRESS_LENGTH implies self.bytes[i] == other.bytes[i] by {
                assert(self.bytes[i] == self@[i]);
                assert(other.bytes[i] == other@[i]);
            }
            assert(self.bytes =~= other.bytes);
        }
    }
}

impl PartialEq for Address {
    /// Compares the two addresses byte by byte.
    fn eq(&self, other: &Address) -> (same: bool) {
        let mut i: usize = 0;
        while i < ADDRESS_LENGTH
            invariant
                i <= ADDRESS_LENGTH,
                forall|j: int| 0 <= j < i ==> self@[j] == other@[j],
            decreases ADDRESS_LENGTH - i,
        {
            if self.bytes[i] != other.bytes[i] {
                assert(self@[i as int] != other@[i as int]);
                return false;
            }
            i += 1;
        }
        proof {
            assert(self@ =~= other@);
            self.lemma_same_bytes(other);
        }
        true
    }
}

impl Eq for Address {

}

impl vstd::std_specs::cmp::PartialEqSpecImpl for Address {
    open spec fn obeys_eq_spec() -> bool {
        true
    }

    open spec fn eq_spec(&self, other: &Address) -> bool {
        *self == *other
    }
}

/// Reads the first eight bytes of an address as a big-endian number.
pub fn component_address_to_u64(address: &Address) -> (number: u64)
    ensures
        number == leading_u64(address@),
{
    let b0: u64 = address.bytes[0] as u64;
    let b1: u64 = address.bytes[1] as u64;
    let b2: u64 = address.bytes[2] as u64;
    let b3: u64 = address.bytes[3] as u64;
    let b4: u64 = address.bytes[4] as u64;
    let b5: u64 = address.bytes[5] as u64;
    let b6: u64 = address.bytes[6] as u64;
    let b7: u64 = address.bytes[7] as u64;
    assert((b0 << 56) | (b1 << 48) | (b2 << 40) | (b3 << 32) | (b4 << 24) | (b5 << 16) | (b6 << 8)
        | b7 == b0 * 0x1_00_0000_0000_0000 + b1 * 0x1_0000_0000_0000 + b2 * 0x1_00_0000_0000 + b3
        * 0x1_0000_0000 + b4 * 0x1_00_0000 + b5 * 0x1_0000 + b6 * 0x1_00 + b7) by (bit_vector)
        requires
            b0 < 256,
            b1 < 256,
            b2 < 256,
            b3 < 256,
            b4 < 256,
            b5 < 256,
            b6 < 256,
            b7 < 256,
    ;
    (b0 << 56) | (b1 << 48) | (b2 << 40) | (b3 << 32) | (b4 << 24) | (b5 << 16) | (b6 << 8) | b7
}

} // verus!
