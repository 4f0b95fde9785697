use vstd::prelude::*;

verus! {

/// The identity of an account: 32 bytes, compared byte by byte.
#[derive(Debug, Clone, Copy)]
pub struct Identity {
    pub bytes: [u8; 32],
}

/// Calls `Pubkey::default()` of `anchor_lang` and takes the key's bytes with
/// `Pubkey::to_bytes`. Trusted: the default key is made of 32 zero bytes.
#[verifier::external_body]
fn default_pubkey_bytes() -> (bytes: [u8; 32])
    ensures
        forall|i: int| 0 <= i < 32 ==> bytes@[i] == 0u8,
{
    anchor_lang::prelude::Pubkey::default().to_bytes()
}

/// An array that holds the same value in every slot.
fn repeated<T: Copy, const N: usize>(value: T) -> (slots: [T; N])
    ensures
        forall|i: int| 0 <= i < N ==> #[trigger] slots@[i] == value,
{
    [value; N]
}

impl Identity {
    /// Whether every byte is zero. An unused slot of a record holds such an
    /// identity.
    pub open spec fn is_zero(self) -> bool {
        forall|i: int| 0 <= i < 32 ==> self.bytes@[i] == 0u8
    }

    pub fn new(bytes: [u8; 32]) -> (id: Identity)
        ensures
            id.bytes == bytes,
    {
        Identity { bytes }
    }

    /// An array of all-zero identities: what the unused slots of a record
    /// hold.
    pub fn zeros<const N: usize>() -> (slots: [Identity; N])
        ensures
            forall|i: int| 0 <= i < N ==> (#[trigger] slots@[i]).is_zero(),
    {
        repeated(Identity::default())
    }

    pub fn to_bytes(&self) -> (bytes: [u8; 32])
        ensures
            bytes == self.bytes,
    {
        self.bytes
    }
}

impl Default for Identity {
    /// The all-zero identity, which is the default public key.
    fn default() -> (id: Identity)
        ensures
            id.is_zero(),
    {
        Identity { bytes: default_pubkey_bytes() }
    }
}

impl PartialEq for Identity {
    fn eq(&self, other: &Identity) -> (same: bool) {
        let mut i: usize = 0;
        while i < 32
            invariant
                i <= 32,
                forall|k: int| 0 <= k < i ==> self.bytes@[k] == other.bytes@[k],
            decreases 32 - i,
        {
            if self.bytes[i] != other.bytes[i] {
                return false;
            }
            i += 1;
        }
        assert(self.bytes@ =~= other.bytes@);
        assert(self.bytes == other.bytes);
        true
    }
}

impl Eq for Identity {

}

impl vstd::std_specs::cmp::PartialEqSpecImpl for Identity {
    open spec fn obeys_eq_spec() -> bool {
        true
    }

    open spec fn eq_spec(&self, other: &Identity) -> bool {
        *self == *other
    }
}

} // verus!
