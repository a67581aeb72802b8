//! Trusted boundary to the platform's address-derivation rules in
//! `solana_program`: seeded addresses and program-derived addresses. Both
//! are digests of their arguments alone, so each result is named; the
//! library's logic takes the derived bytes and does the rest.

use crate::account::ProgramError;
use vstd::prelude::*;

verus! {

/// The last 21 bytes of an owner key that make seeded derivation illegal:
/// the ASCII bytes of the program-derived-address marker.
pub open spec fn pda_marker() -> Seq<u8> {
    seq![
        80u8, 114u8, 111u8, 103u8, 114u8, 97u8, 109u8, 68u8, 101u8, 114u8, 105u8, 118u8, 101u8,
        100u8, 65u8, 100u8, 100u8, 114u8, 101u8, 115u8, 115u8,
    ]
}

/// The address derived from `(base, seed, owner)` by the platform's seeded
/// rule: a digest of the three, nothing else.
pub uninterp spec fn seed_address_of(base: Seq<u8>, seed: Seq<char>, owner: Seq<u8>) -> Seq<u8>;

/// The program-derived address of `(seeds, program_id)`.
pub uninterp spec fn program_address_of(seeds: Seq<Seq<u8>>, program_id: Seq<u8>) -> Seq<u8>;

/// Whether the program-derived-address rule accepts `(seeds, program_id)`:
/// the seeds within the platform's count and length bounds, and the digest
/// off the curve. Deterministic in the arguments, like the address itself.
pub uninterp spec fn pda_derivable(seeds: Seq<Seq<u8>>, program_id: Seq<u8>) -> bool;

/// Relies on solana_program's Pubkey::create_with_seed: a sha256 digest of
/// the arguments; it fails exactly when the seed is over 32 bytes or the
/// owner ends with the derived-address marker.
#[verifier::external_body]
pub fn create_with_seed(base: &Vec<u8>, seed: &str, owner: &Vec<u8>) -> (r: Result<
    Vec<u8>,
    ProgramError,
>)
    requires
        base@.len() == 32,
        owner@.len() == 32,
    ensures
        (r is Ok) <==> (crate::encodings::utf8_of(seed@).len() <= 32 && owner@.subrange(11, 32)
            != pda_marker()),
        (r is Ok) ==> r.unwrap()@ == seed_address_of(base@, seed@, owner@) && r.unwrap()@.len()
            == 32,
        r == (Result::<Vec<u8>, ProgramError>::Err(ProgramError::MaxSeedLengthExceeded))
            <==> crate::encodings::utf8_of(seed@).len() > 32,
        r == (Result::<Vec<u8>, ProgramError>::Err(ProgramError::IllegalOwner)) <==> (
        crate::encodings::utf8_of(seed@).len() <= 32 && owner@.subrange(11, 32) == pda_marker()),
{
    let b = match solana_program::pubkey::Pubkey::try_from(base.as_slice()) {
        Ok(x) => x,
        Err(_) => return Err(ProgramError::InvalidArgument),
    };
    let o = match solana_program::pubkey::Pubkey::try_from(owner.as_slice()) {
        Ok(x) => x,
        Err(_) => return Err(ProgramError::InvalidArgument),
    };
    match solana_program::pubkey::Pubkey::create_with_seed(&b, seed, &o) {
        Ok(pk) => Ok(pk.to_bytes().to_vec()),
        Err(solana_program::pubkey::PubkeyError::IllegalOwner) => Err(ProgramError::IllegalOwner),
        Err(_) => Err(ProgramError::MaxSeedLengthExceeded),
    }
}

/// Relies on solana_program's Pubkey::create_program_address: a sha256
/// digest of the seeds and program id, rejected when it lands on the
/// curve or the seeds are too long or too many.
#[verifier::external_body]
pub fn create_program_address(seeds: &Vec<Vec<u8>>, program_id: &Vec<u8>) -> (r: Result<
    Vec<u8>,
    ProgramError,
>)
    requires
        program_id@.len() == 32,
    ensures
        (r is Ok) <==> pda_derivable(seeds@.map(|i: int, v: Vec<u8>| v@), program_id@),
        (r is Ok) ==> r.unwrap()@ == program_address_of(
            seeds@.map(|i: int, v: Vec<u8>| v@),
            program_id@,
        ) && r.unwrap()@.len() == 32,
        (r is Err) ==> (r == Result::<Vec<u8>, ProgramError>::Err(
            ProgramError::MaxSeedLengthExceeded,
        ) || r == Result::<Vec<u8>, ProgramError>::Err(ProgramError::InvalidSeeds) || r == Result::<
            Vec<u8>,
            ProgramError,
        >::Err(ProgramError::IllegalOwner)),
{
    let pid = match solana_program::pubkey::Pubkey::try_from(program_id.as_slice()) {
        Ok(x) => x,
        Err(_) => return Err(ProgramError::InvalidSeeds),
    };
    let refs: Vec<&[u8]> = seeds.iter().map(|v| v.as_slice()).collect();
    match solana_program::pubkey::Pubkey::create_program_address(&refs, &pid) {
        Ok(pk) => Ok(pk.to_bytes().to_vec()),
        Err(solana_program::pubkey::PubkeyError::MaxSeedLengthExceeded) => Err(
            ProgramError::MaxSeedLengthExceeded,
        ),
        Err(solana_program::pubkey::PubkeyError::IllegalOwner) => Err(ProgramError::IllegalOwner),
        Err(_) => Err(ProgramError::InvalidSeeds),
    }
}

} // verus!
