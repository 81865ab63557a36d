//! The commands of the approval engine, as they arrive in bytes.

use vstd::prelude::*;
use vstd::slice::slice_subrange;
use crate::error::EngineError;
use crate::pubkey::{key_at, Pubkey, PUBKEY_BYTES};

verus! {

/// Smallest number of signer seats, and smallest threshold.
pub const MIN_SIGNERS: usize = 1;

/// Largest number of signer seats, and largest threshold.
pub const MAX_SIGNERS: usize = 11;

/// Whether `index` lies between `MIN_SIGNERS` and `MAX_SIGNERS`, both included.
pub fn is_valid_signer_index(index: usize) -> (valid: bool)
    ensures
        valid == (MIN_SIGNERS <= index <= MAX_SIGNERS),
{
    MIN_SIGNERS <= index && index <= MAX_SIGNERS
}

/// A command of the approval engine.
#[derive(Clone, Copy, Debug, PartialEq, Eq)]
pub enum MultisigInstruction {
    /// Reserve the registry's account at the derived address.
    AllocatePDA,
    /// Set the roster, with `m` approvals required.
    InitializeMultisig { m: u8 },
    /// Propose a call into `target_program_id` with the payload `data`.
    CreateTransaction { target_program_id: Pubkey, data: u8 },
    /// Approve a proposal.
    Approve,
    /// Carry out a proposal that has its quorum.
    ExecuteTransaction,
}

/// A command as a value.
pub enum MultisigInstructionView {
    AllocatePDA,
    InitializeMultisig { m: u8 },
    CreateTransaction { target_program_id: Seq<u8>, data: u8 },
    Approve,
    ExecuteTransaction,
}

impl View for MultisigInstruction {
    type V = MultisigInstructionView;

    open spec fn view(&self) -> MultisigInstructionView {
        match *self {
            MultisigInstruction::AllocatePDA => MultisigInstructionView::AllocatePDA,
            MultisigInstruction::InitializeMultisig { m } => MultisigInstructionView::InitializeMultisig {
                m,
            },
            MultisigInstruction::CreateTransaction {
                target_program_id,
                data,
            } => MultisigInstructionView::CreateTransaction {
                target_program_id: target_program_id@,
                data,
            },
            MultisigInstruction::Approve => MultisigInstructionView::Approve,
            MultisigInstruction::ExecuteTransaction => MultisigInstructionView::ExecuteTransaction,
        }
    }
}

/// The key at the head of `input` and the bytes behind it;
/// `MalformedInstruction` where `input` ends before the key does.
pub open spec fn split_pubkey(input: Seq<u8>) -> Result<(Seq<u8>, Seq<u8>), EngineError> {
    if input.len() < 32 {
        Err(EngineError::MalformedInstruction)
    } else {
        Ok((key_at(input, 0), input.skip(32)))
    }
}

impl MultisigInstructionView {
    /// The command that `input` spells: an opcode byte, then the payload of
    /// that command. Empty input and a key cut short are malformed; an
    /// unknown opcode and a missing payload byte are invalid arguments.
    /// Bytes behind the payload are ignored.
    pub open spec fn decode(input: Seq<u8>) -> Result<MultisigInstructionView, EngineError> {
        if input.len() == 0 {
            Err(EngineError::MalformedInstruction)
        } else if input[0] == 0 {
            Ok(MultisigInstructionView::AllocatePDA)
        } else if input[0] == 1 {
            if input.len() < 2 {
                Err(EngineError::InvalidArgument)
            } else {
                Ok(MultisigInstructionView::InitializeMultisig { m: input[1] })
            }
        } else if input[0] == 2 {
            match split_pubkey(input.skip(1)) {
                Err(e) => Err(e),
                Ok((target_program_id, rest)) => if rest.len() < 1 {
                    Err(EngineError::InvalidArgument)
                } else {
                    Ok(MultisigInstructionView::CreateTransaction { target_program_id, data: rest[0] })
                },
            }
        } else if input[0] == 3 {
            Ok(MultisigInstructionView::Approve)
        } else if input[0] == 4 {
            Ok(MultisigInstructionView::ExecuteTransaction)
        } else {
            Err(EngineError::InvalidArgument)
        }
    }
}

impl MultisigInstruction {
    /// Reads a command from the bytes of a call.
    pub fn unpack(input: &[u8]) -> (unpacked: Result<MultisigInstruction, EngineError>)
        ensures
            match unpacked {
                Ok(instruction) => MultisigInstructionView::decode(input@) == Ok::<
                    MultisigInstructionView,
                    EngineError,
                >(instruction@),
                Err(e) => MultisigInstructionView::decode(input@) == Err::<
                    MultisigInstructionView,
                    EngineError,
                >(e),
            },
    {
        if input.len() == 0 {
            return Err(EngineError::MalformedInstruction);
        }
        let tag = input[0];
        let rest = slice_subrange(input, 1, input.len());
        assert(rest@ =~= input@.skip(1));
        match tag {
            0 => Ok(MultisigInstruction::AllocatePDA),
            1 => {
                if rest.len() < 1 {
                    return Err(EngineError::InvalidArgument);
                }
                Ok(MultisigInstruction::InitializeMultisig { m: rest[0] })
            },
            2 => {
                let (target_program_id, rest) = MultisigInstruction::unpack_pubkey(rest)?;
                if rest.len() < 1 {
                    return Err(EngineError::InvalidArgument);
                }
                Ok(MultisigInstruction::CreateTransaction { target_program_id, data: rest[0] })
            },
            3 => Ok(MultisigInstruction::Approve),
            4 => Ok(MultisigInstruction::ExecuteTransaction),
            _ => Err(EngineError::InvalidArgument),
        }
    }

    /// Splits a key off the head of `input`.
    pub fn unpack_pubkey(input: &[u8]) -> (unpacked: Result<(Pubkey, &[u8]), EngineError>)
        ensures
            match unpacked {
                Ok((key, rest)) => split_pubkey(input@) == Ok::<(Seq<u8>, Seq<u8>), EngineError>(
                    (key@, rest@),
                ),
                Err(e) => split_pubkey(input@) == Err::<(Seq<u8>, Seq<u8>), EngineError>(e),
            },
    {
        if input.len() < PUBKEY_BYTES {
            return Err(EngineError::MalformedInstruction);
        }
        let key = Pubkey::read_from(input, 0);
        let rest = slice_subrange(input, PUBKEY_BYTES, input.len());
        assert(rest@ =~= input@.skip(32));
        Ok((key, rest))
    }
}

} // verus!
