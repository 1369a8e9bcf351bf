//! The runtime services the program relies on: Keccak-256 hashing and
//! program-derived-address search, as provided by `solana_program`.
use vstd::prelude::*;

verus! {

/// The Keccak-256 digest of a byte string.
pub uninterp spec fn keccak256(data: Seq<u8>) -> Seq<u8>;

/// The outcome of searching for a program-derived address: for the given
/// seeds and program id, the first bump seed (counting down from 255) whose
/// derived address is off the ed25519 curve, with that address; `None` when
/// no bump seed qualifies or the seeds are out of bounds.
pub uninterp spec fn program_address_search(seeds: Seq<Seq<u8>>, program_id: Seq<u8>) -> Option<(Seq<u8>, u8)>;

/// Calls `solana_program::keccak::hashv` on the two byte strings, which
/// hashes their concatenation. The contract claims only that the 32 bytes
/// returned are the Keccak-256 digest of `left` followed by `right`.
#[verifier::external_body]
pub(crate) fn keccak_hashv(left: &[u8], right: &[u8]) -> (digest: [u8; 32])
    ensures
        digest@ == keccak256(left@ + right@),
{
    solana_program::keccak::hashv(&[left, right]).to_bytes()
}

/// Calls `solana_program::pubkey::Pubkey::try_find_program_address`. The
/// contract claims that the address (as bytes) and bump returned, or `None`,
/// are the search outcome named `program_address_search` for these seeds and
/// this program id; which address that is is not stated.
#[verifier::external_body]
pub(crate) fn try_find_program_address(seeds: &Vec<Vec<u8>>, program_id: &[u8; 32]) -> (found: Option<([u8; 32], u8)>)
    ensures
        found is None <==> program_address_search(seeds.deep_view(), program_id@) is None,
        found matches Some((address, bump)) ==>
            program_address_search(seeds.deep_view(), program_id@) == Some((address@, bump)),
{
    let seed_slices: Vec<&[u8]> = seeds.iter().map(|s| s.as_slice()).collect();
    let program = solana_program::pubkey::Pubkey::new_from_array(*program_id);
    match solana_program::pubkey::Pubkey::try_find_program_address(&seed_slices, &program) {
        Some((address, bump)) => Some((address.to_bytes(), bump)),
        None => None,
    }
}

} // verus!
