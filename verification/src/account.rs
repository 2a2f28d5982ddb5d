//! Participant identities.

use vstd::prelude::*;

verus! {

/// The identity of a participant: an opaque handle of 32 bytes.
///
/// The lottery never looks inside an identity; it only tells two of them
/// apart.
#[derive(Clone, Copy, Debug, PartialEq, Eq, Hash)]
pub struct AccountId {
    bytes: [u8; 32],
}

impl AccountId {
    /// The 32 bytes of this identity.
    pub closed spec fn bytes(self) -> Seq<u8> {
        self.bytes@
    }

    /// The identity made of `bytes`.
    pub fn new(bytes: [u8; 32]) -> (id: AccountId)
        ensures
            id.bytes() == bytes@,
    {
        AccountId { bytes }
    }

    /// The bytes this identity was made of.
    pub fn to_bytes(&self) -> (bytes: [u8; 32])
        ensures
            bytes@ == self.bytes(),
    {
        self.bytes
    }

    /// Two identities with the same bytes are the same identity.
    pub broadcast proof fn lemma_bytes_injective(a: AccountId, b: AccountId)
        requires
            #[trigger] a.bytes() == #[trigger] b.bytes(),
        ensures
            a == b,
    {
        assert(a.bytes@ =~= b.bytes@);
        assert(a.bytes =~= b.bytes);
    }

    /// Whether `self` and `other` are the same identity.
    pub fn same(&self, other: &AccountId) -> (r: bool)
        ensures
            r == (*self == *other),
    {
        let mut i: usize = 0;
        while i < 32
            invariant
                i <= 32,
                forall|j: int| 0 <= j < i ==> self.bytes@[j] == other.bytes@[j],
            decreases 32 - i,
        {
            if self.bytes[i] != other.bytes[i] {
                return false;
            }
            i += 1;
        }
        proof {
            assert(self.bytes@ =~= other.bytes@);
            Self::lemma_bytes_injective(*self, *other);
        }
        true
    }
}

} // verus!
