use vstd::prelude::*;

verus! {

/// Every way a provisioning request can fail. Each one is terminal for the
/// invocation that met it.
#[derive(Clone, Copy, Debug, PartialEq, Eq, Structural)]
pub enum ProvisionError {
    /// Fewer account references were supplied than the operation takes.
    NotEnoughAccountKeys,
    /// No bump in `0..=255` gives an address off the signing curve.
    BumpSeedExhausted,
    /// The caller-supplied target differs from the derived address.
    AddressMismatch,
    /// The fee parameters could not be read.
    SysvarUnavailable,
    /// The funder holds less than the required balance.
    InsufficientFunds,
    /// An account already lives at the target address.
    AccountAlreadyExists,
    /// The signer seeds do not regenerate the target address.
    AuthorityMismatch,
    /// The payload does not fit the account's storage.
    SerializationFailure,
}

} // verus!
