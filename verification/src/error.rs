//! The reasons for which a call into the engine is refused.

use vstd::prelude::*;

verus! {

/// Why a call was refused. A refused call leaves every account as it was.
#[derive(Clone, Copy, Debug, PartialEq, Eq, Structural)]
pub enum EngineError {
    /// A supplied account is not at the address derived for this program.
    AddressMismatch,
    /// The registry or proposal slot already holds an initialized entity.
    AlreadyInitialized,
    /// The roster size or the threshold lies outside `1..=11`.
    InvalidThreshold,
    /// An account that must belong to this program belongs to another.
    IncorrectOwner,
    /// Too few approvals, or a matching key that did not sign the call.
    MissingRequiredSignature,
    /// Stored bytes do not decode: a wrong length, a flag byte other than 0
    /// or 1, or a roster size beyond the roster's capacity.
    CorruptData,
    /// The account holds an entity that has not been initialized yet.
    UninitializedAccount,
    /// The call names fewer accounts than the command reads.
    NotEnoughAccountKeys,
    /// The command bytes are empty or too short for their payload.
    MalformedInstruction,
    /// The command or one of its accounts is not acceptable in the current state.
    InvalidArgument,
    /// The invoked program failed; the number is the code it reported.
    Downstream(u64),
}

} // verus!
