//! The address that a program derives for itself and signs for.

use vstd::prelude::*;
use crate::error::EngineError;
use crate::pubkey::Pubkey;

verus! {

/// The seed from which every program derives its registry's address.
pub open spec fn seed_bytes() -> Seq<u8> {
    seq![121u8, 111u8, 117u8, 45u8, 112u8, 97u8, 115u8, 115u8, 45u8, 98u8, 117u8, 116u8, 116u8, 101u8, 114u8]
}

/// The seed `you-pass-butter`, byte by byte.
pub fn seed() -> (bytes: [u8; 15])
    ensures
        bytes@ == seed_bytes(),
{
    let bytes: [u8; 15] = [121u8, 111u8, 117u8, 45u8, 112u8, 97u8, 115u8, 115u8, 45u8, 98u8, 117u8, 116u8, 116u8, 101u8, 114u8];
    assert(bytes@ =~= seed_bytes());
    bytes
}

/// What the ledger runtime derives from one seed and a program's key: an
/// address that no private key controls, with the bump that led to it, or
/// nothing where no bump leads to one.
pub uninterp spec fn program_address(seed: Seq<u8>, program_id: Seq<u8>) -> Option<(Seq<u8>, u8)>;

/// A derived address and its bump, by their bytes.
pub open spec fn derived_view(derived: Option<(Pubkey, u8)>) -> Option<(Seq<u8>, u8)> {
    match derived {
        Some((address, bump)) => Some((address@, bump)),
        None => None,
    }
}

/// `Pubkey::try_find_program_address` of the ledger runtime's program
/// library, with one seed. Trusted: the outcome depends on the seed and the
/// program's key alone, and is the one that `program_address` names.
#[verifier::external_body]
fn try_find_program_address(seed: &[u8], program_id: &Pubkey) -> (derived: Option<(Pubkey, u8)>)
    ensures
        derived_view(derived) == program_address(seed@, program_id@),
{
    let id = solana_program::pubkey::Pubkey::new_from_array(program_id.bytes);
    match solana_program::pubkey::Pubkey::try_find_program_address(&[seed], &id) {
        Some((address, bump)) => Some((Pubkey { bytes: address.to_bytes() }, bump)),
        None => None,
    }
}

/// The address that `program_id` derives for its registry, by its bytes.
pub open spec fn registry_address(program_id: Seq<u8>) -> Option<(Seq<u8>, u8)> {
    program_address(seed_bytes(), program_id)
}

/// Derives the registry address of `program_id` and the bump to sign with.
/// Nothing is kept between calls: every operation derives the address anew.
pub fn find_program_address(program_id: &Pubkey) -> (derived: Option<(Pubkey, u8)>)
    ensures
        derived_view(derived) == registry_address(program_id@),
{
    let seed = seed();
    try_find_program_address(seed.as_slice(), program_id)
}

/// What `require_derived` answers: the bump where `candidate` is the derived
/// address, and a mismatch for every other candidate.
pub open spec fn gate(derived: Option<(Seq<u8>, u8)>, candidate: Seq<u8>) -> Result<u8, EngineError> {
    match derived {
        Some((address, bump)) => if candidate == address {
            Ok(bump)
        } else {
            Err(EngineError::AddressMismatch)
        },
        None => Err(EngineError::AddressMismatch),
    }
}

/// Lets `candidate` pass only where it is the derived address, and hands back
/// the bump that goes with it.
pub fn require_derived(derived: &Option<(Pubkey, u8)>, candidate: &Pubkey) -> (bump: Result<u8, EngineError>)
    ensures
        bump == gate(derived_view(*derived), candidate@),
{
    match derived {
        Some((address, bump)) => {
            if candidate == address {
                Ok(*bump)
            } else {
                Err(EngineError::AddressMismatch)
            }
        },
        None => Err(EngineError::AddressMismatch),
    }
}

} // verus!
