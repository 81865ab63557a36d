//! The commands of the door, as they arrive in bytes.

use vstd::prelude::*;
use vstd::slice::slice_subrange;
use crate::error::EngineError;
use crate::multisig::instruction::{split_pubkey, MultisigInstruction};
use crate::pubkey::Pubkey;

verus! {

/// A command of the door.
#[derive(Clone, Copy, Debug, PartialEq, Eq)]
pub enum DoorInstruction {
    /// Set up a door that `key` opens.
    InitializeDoor { key: Pubkey },
    /// Set up the lock, with `key` as its admin.
    InitializeConfig { key: Pubkey },
    /// Turn the lock on.
    Lock,
    /// Turn the lock off.
    Unlock,
    /// Open the door.
    Open,
    /// Close the door.
    Close,
    /// Reserve the configuration's account at the derived address.
    AllocatePDA,
    /// Set the roster of a registry, with `m` approvals required.
    InitializeMultisig { m: u8 },
}

/// A command as a value.
pub enum DoorInstructionView {
    InitializeDoor { key: Seq<u8> },
    InitializeConfig { key: Seq<u8> },
    Lock,
    Unlock,
    Open,
    Close,
    AllocatePDA,
    InitializeMultisig { m: u8 },
}

impl View for DoorInstruction {
    type V = DoorInstructionView;

    open spec fn view(&self) -> DoorInstructionView {
        match *self {
            DoorInstruction::InitializeDoor { key } => DoorInstructionView::InitializeDoor { key: key@ },
            DoorInstruction::InitializeConfig { key } => DoorInstructionView::InitializeConfig {
                key: key@,
            },
            DoorInstruction::Lock => DoorInstructionView::Lock,
            DoorInstruction::Unlock => DoorInstructionView::Unlock,
            DoorInstruction::Open => DoorInstructionView::Open,
            DoorInstruction::Close => DoorInstructionView::Close,
            DoorInstruction::AllocatePDA => DoorInstructionView::AllocatePDA,
            DoorInstruction::InitializeMultisig { m } => DoorInstructionView::InitializeMultisig { m },
        }
    }
}

impl DoorInstructionView {
    /// The command that `input` spells: an opcode byte, then the payload of
    /// that command. Empty input and a key cut short are malformed; an
    /// unknown opcode and a missing threshold are invalid arguments. Bytes
    /// behind the payload are ignored.
    pub open spec fn decode(input: Seq<u8>) -> Result<DoorInstructionView, EngineError> {
        if input.len() == 0 {
            Err(EngineError::MalformedInstruction)
        } else if input[0] == 0 {
            match split_pubkey(input.skip(1)) {
                Err(e) => Err(e),
                Ok((key, _)) => Ok(DoorInstructionView::InitializeDoor { key }),
            }
        } else if input[0] == 1 {
            match split_pubkey(input.skip(1)) {
                Err(e) => Err(e),
                Ok((key, _)) => Ok(DoorInstructionView::InitializeConfig { key }),
            }
        } else if input[0] == 2 {
            Ok(DoorInstructionView::Lock)
        } else if input[0] == 3 {
            Ok(DoorInstructionView::Unlock)
        } else if input[0] == 4 {
            Ok(DoorInstructionView::Open)
        } else if input[0] == 5 {
            Ok(DoorInstructionView::Close)
        } else if input[0] == 6 {
            Ok(DoorInstructionView::AllocatePDA)
        } else if input[0] == 7 {
            if input.len() < 2 {
                Err(EngineError::InvalidArgument)
            } else {
                Ok(DoorInstructionView::InitializeMultisig { m: input[1] })
            }
        } else {
            Err(EngineError::InvalidArgument)
        }
    }
}

impl DoorInstruction {
    /// Reads a command from the bytes of a call.
    pub fn unpack(input: &[u8]) -> (unpacked: Result<DoorInstruction, EngineError>)
        ensures
            match unpacked {
                Ok(instruction) => DoorInstructionView::decode(input@) == Ok::<
                    DoorInstructionView,
                    EngineError,
                >(instruction@),
                Err(e) => DoorInstructionView::decode(input@) == Err::<DoorInstructionView, EngineError>(
                    e,
                ),
            },
    {
        if input.len() == 0 {
            return Err(EngineError::MalformedInstruction);
        }
        let tag = input[0];
        let rest = slice_subrange(input, 1, input.len());
        assert(rest@ =~= input@.skip(1));
        match tag {
            0 => {
                let (key, _) = DoorInstruction::unpack_pubkey(rest)?;
                Ok(DoorInstruction::InitializeDoor { key })
            },
            1 => {
                let (key, _) = DoorInstruction::unpack_pubkey(rest)?;
                Ok(DoorInstruction::InitializeConfig { key })
            },
            2 => Ok(DoorInstruction::Lock),
            3 => Ok(DoorInstruction::Unlock),
            4 => Ok(DoorInstruction::Open),
            5 => Ok(DoorInstruction::Close),
            6 => Ok(DoorInstruction::AllocatePDA),
            7 => {
                if rest.len() < 1 {
                    return Err(EngineError::InvalidArgument);
                }
                Ok(DoorInstruction::InitializeMultisig { m: rest[0] })
            },
            _ => Err(EngineError::InvalidArgument),
        }
    }

    /// Splits a key off the head of `input`.
    pub fn unpack_pubkey(input: &[u8]) -> (unpacked: Result<(Pubkey, &[u8]), EngineError>)
        ensures
            match unpacked {
                Ok((key, rest)) => split_pubkey(input@) == Ok::<(Seq<u8>, Seq<u8>), EngineError>(
                    (key@, rest@),
                ),
                Err(e) => split_pubkey(input@) == Err::<(Seq<u8>, Seq<u8>), EngineError>(e),
            },
    {
        MultisigInstruction::unpack_pubkey(input)
    }
}

} // verus!
