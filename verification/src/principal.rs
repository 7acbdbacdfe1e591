//! Identities of users and canisters, held as the raw bytes of a principal.
use vstd::prelude::*;

verus! {

/// A principal, given by its byte representation (at most 29 bytes for a
/// principal of the Internet Computer; nothing here depends on that bound).
pub struct PrincipalId {
    bytes: Vec<u8>,
}

impl View for PrincipalId {
    type V = Seq<u8>;

    closed spec fn view(&self) -> Seq<u8> {
        self.bytes@
    }
}

impl PrincipalId {
    /// The principal whose byte representation is `bytes`.
    pub fn from_bytes(bytes: Vec<u8>) -> (p: PrincipalId)
        ensures
            p@ == bytes@,
    {
        PrincipalId { bytes }
    }

    /// The byte representation of this principal.
    pub fn as_bytes(&self) -> (b: &Vec<u8>)
        ensures
            b@ == self@,
    {
        &self.bytes
    }

    /// Whether two principals are the same identity.
    pub fn same(&self, other: &PrincipalId) -> (r: bool)
        ensures
            r == (self@ == other@),
    {
        let n = self.bytes.len();
        if n != other.bytes.len() {
            return false;
        }
        let mut i: usize = 0;
        while i < n
            invariant
                n == self.bytes@.len(),
                n == other.bytes@.len(),
                i <= n,
                forall|j: int| 0 <= j < i ==> self.bytes@[j] == other.bytes@[j],
            decreases n - i,
        {
            if self.bytes[i] != other.bytes[i] {
                return false;
            }
            i = i + 1;
        }
        assert(self.bytes@ =~= other.bytes@);
        true
    }

}

impl Clone for PrincipalId {
    fn clone(&self) -> (p: Self)
        ensures
            p@ == self@,
    {
        let bytes = self.bytes.clone();
        assert(bytes@ =~= self.bytes@);
        PrincipalId { bytes }
    }
}

} // verus!
