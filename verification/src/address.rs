//! Deterministic storage-address derivation.
//!
//! Each owner's record lives at exactly one address: a pure function of the
//! program id, a fixed domain-separation tag, and the owner identity,
//! searched over bump nonces until the host's address space yields an
//! address no private key controls. The search itself is the host's opaque
//! primitive; this module pins down only what the store relies on — that
//! the result is a function of the inputs alone.

use vstd::prelude::*;

verus! {

/// The canonical record address and bump nonce of `owner` under
/// `program_id`, or `None` in the statistically improbable event that no
/// bump nonce yields a usable address. A pure function of its arguments:
/// the same owner always maps to the same address.
pub uninterp spec fn derived_record_address(program_id: Seq<u8>, owner: Seq<u8>) -> Option<
    ([u8; 32], u8),
>;

/// Relies on `solana_program::pubkey::Pubkey::try_find_program_address`,
/// called with the fixed domain tag and the owner identity as seeds: a
/// deterministic search over bump nonces (hashing seeds, bump and program
/// id), whose result is a function of the arguments alone and which returns
/// `None` rather than panicking when the search fails.
#[verifier::external_body]
fn find_record_address(program_id: &[u8; 32], owner: &[u8; 32]) -> (r: Option<([u8; 32], u8)>)
    ensures
        r == derived_record_address(program_id@, owner@),
{
    let pid = solana_program::pubkey::Pubkey::new_from_array(*program_id);
    let owner_key = solana_program::pubkey::Pubkey::new_from_array(*owner);
    match solana_program::pubkey::Pubkey::try_find_program_address(
        &[b"user-data", owner_key.as_ref()],
        &pid,
    ) {
        Some((address, bump)) => Some((address.to_bytes(), bump)),
        None => None,
    }
}

/// The canonical storage address and bump nonce for `owner`'s record under
/// `program_id`.
pub fn derive(program_id: &[u8; 32], owner: &[u8; 32]) -> (r: Option<([u8; 32], u8)>)
    ensures
        r == derived_record_address(program_id@, owner@),
{
    find_record_address(program_id, owner)
}

/// Determinism of the derivation: any two results obtained for the same
/// program and owner — in particular the results of repeated [`derive`]
/// calls — are the same address and nonce.
pub proof fn lemma_derive_deterministic(
    program_id: Seq<u8>,
    owner: Seq<u8>,
    r1: Option<([u8; 32], u8)>,
    r2: Option<([u8; 32], u8)>,
)
    requires
        r1 == derived_record_address(program_id, owner),
        r2 == derived_record_address(program_id, owner),
    ensures
        r1 == r2,
{
}

} // verus!
