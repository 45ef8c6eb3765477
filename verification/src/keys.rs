use solana_program::pubkey::Pubkey;
use vstd::prelude::*;

verus! {

/// `solana_program::pubkey::Pubkey`, the identity of a participant. The
/// verifier sees it as an opaque value: nothing is known of a key but whether
/// it equals another.
#[verifier::external_type_specification]
#[verifier::external_body]
pub struct ExPubkey(Pubkey);

/// Calls `Pubkey::eq`, the equality that `Pubkey` derives over its 32 bytes.
/// Trusted: the call answers `true` exactly when the two keys are the same
/// value.
#[verifier::external_body]
pub(crate) fn same_key(a: &Pubkey, b: &Pubkey) -> (same: bool)
    ensures
        same == (*a == *b),
{
    a.eq(b)
}

} // verus!
