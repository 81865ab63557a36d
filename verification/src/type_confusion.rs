//! Two records of one layout, a user and a piece of metadata, and a check
//! that tells an account only by its owner and its bytes.

use vstd::prelude::*;
use crate::account::{account_views, AccountInfo, AccountView};
use crate::codec::overwrite_prefix;
use crate::error::EngineError;
use crate::multisig::processor::{settled, with_first_data};
use crate::pubkey::{key_at, Pubkey, PUBKEY_BYTES};

verus! {

/// A command of the record keeper.
#[derive(Clone, Copy, Debug, PartialEq, Eq, Structural)]
pub enum TypeInstruction {
    /// Store a user's authority.
    InitializeUser,
    /// Store the account that a piece of metadata describes.
    InitializeMeta,
    /// Check a user account against its authority.
    Test,
}

/// The command that `input` spells in its first byte. Empty input is
/// malformed; an unknown opcode is an invalid argument.
pub open spec fn decode_instruction(input: Seq<u8>) -> Result<TypeInstruction, EngineError> {
    if input.len() == 0 {
        Err(EngineError::MalformedInstruction)
    } else if input[0] == 0 {
        Ok(TypeInstruction::InitializeUser)
    } else if input[0] == 1 {
        Ok(TypeInstruction::InitializeMeta)
    } else if input[0] == 2 {
        Ok(TypeInstruction::Test)
    } else {
        Err(EngineError::InvalidArgument)
    }
}

impl TypeInstruction {
    /// Reads a command from the bytes of a call.
    pub fn unpack(input: &[u8]) -> (unpacked: Result<TypeInstruction, EngineError>)
        ensures
            unpacked == decode_instruction(input@),
    {
        if input.len() == 0 {
            return Err(EngineError::MalformedInstruction);
        }
        match input[0] {
            0 => Ok(TypeInstruction::InitializeUser),
            1 => Ok(TypeInstruction::InitializeMeta),
            2 => Ok(TypeInstruction::Test),
            _ => Err(EngineError::InvalidArgument),
        }
    }
}

/// A user: the key that has authority over it.
#[derive(Clone, Copy, Debug, PartialEq, Eq)]
pub struct User {
    pub authority: Pubkey,
}

/// A piece of metadata: the account that it describes.
#[derive(Clone, Copy, Debug, PartialEq, Eq)]
pub struct Metadata {
    pub account: Pubkey,
}

/// What storing the key of the second account in the first leaves behind.
/// Both records are stored as one key at the head of the account, which must
/// have room for it.
pub open spec fn key_stored(accounts: Seq<AccountView>) -> Result<Seq<AccountView>, EngineError> {
    if accounts.len() < 2 {
        Err(EngineError::NotEnoughAccountKeys)
    } else if accounts[0].data.len() < 32 {
        Err(EngineError::CorruptData)
    } else {
        Ok(with_first_data(accounts, overwrite_prefix(accounts[0].data, accounts[1].key)))
    }
}

/// Stores `key`, the key of the second account, at the head of the first.
fn store_key(accounts: &mut [AccountInfo], key: &Pubkey) -> (result: Result<(), EngineError>)
    requires
        old(accounts).len() >= 2,
        key@ == old(accounts)@[1].key@,
    ensures
        settled(
            key_stored(account_views(old(accounts)@)),
            account_views(old(accounts)@),
            result,
            account_views(final(accounts)@),
        ),
{
    if accounts[0].data.len() < PUBKEY_BYTES {
        return Err(EngineError::CorruptData);
    }
    key.write_to(accounts[0].data.as_mut_slice(), 0);
    proof {
        let before = account_views(old(accounts)@);
        assert(accounts@[0].data@ =~= overwrite_prefix(before[0].data, key@));
        assert(account_views(accounts@) =~= with_first_data(
            before,
            overwrite_prefix(before[0].data, before[1].key),
        ));
    }
    Ok(())
}

/// Makes the second account the authority of the user in the first.
#[allow(non_snake_case)]
pub fn InitializeUser(accounts: &mut [AccountInfo]) -> (result: Result<(), EngineError>)
    ensures
        settled(
            key_stored(account_views(old(accounts)@)),
            account_views(old(accounts)@),
            result,
            account_views(final(accounts)@),
        ),
{
    if accounts.len() < 2 {
        return Err(EngineError::NotEnoughAccountKeys);
    }
    let user = User { authority: accounts[1].key };
    store_key(accounts, &user.authority)
}

/// Makes the second account the one that the metadata in the first
/// describes.
#[allow(non_snake_case)]
pub fn InitializeMeta(accounts: &mut [AccountInfo]) -> (result: Result<(), EngineError>)
    ensures
        settled(
            key_stored(account_views(old(accounts)@)),
            account_views(old(accounts)@),
            result,
            account_views(final(accounts)@),
        ),
{
    if accounts.len() < 2 {
        return Err(EngineError::NotEnoughAccountKeys);
    }
    let meta = Metadata { account: accounts[1].key };
    store_key(accounts, &meta.account)
}

/// What the check of a user account answers. The accounts are the user and
/// its authority. Nothing in the stored bytes says that they are a user: a
/// piece of metadata that names the same key passes as well.
pub open spec fn tested(program_id: Seq<u8>, accounts: Seq<AccountView>) -> Result<(), EngineError> {
    if accounts.len() < 2 {
        Err(EngineError::NotEnoughAccountKeys)
    } else if accounts[0].owner != program_id {
        Err(EngineError::IncorrectOwner)
    } else if accounts[0].data.len() < 32 {
        Err(EngineError::CorruptData)
    } else if accounts[1].key != key_at(accounts[0].data, 0) {
        Err(EngineError::InvalidArgument)
    } else if !accounts[1].is_signer {
        Err(EngineError::MissingRequiredSignature)
    } else {
        Ok(())
    }
}

/// Checks that the program owns the user account, that the second account
/// is the authority stored in it, and that this authority has signed.
#[allow(non_snake_case)]
pub fn Test(program_id: &Pubkey, accounts: &[AccountInfo]) -> (result: Result<(), EngineError>)
    ensures
        result == tested(program_id@, account_views(accounts@)),
{
    if accounts.len() < 2 {
        return Err(EngineError::NotEnoughAccountKeys);
    }
    let user_info = &accounts[0];
    let authority_info = &accounts[1];
    if user_info.owner != *program_id {
        return Err(EngineError::IncorrectOwner);
    }
    if user_info.data.len() < PUBKEY_BYTES {
        return Err(EngineError::CorruptData);
    }
    let user = User { authority: Pubkey::read_from(user_info.data.as_slice(), 0) };
    if authority_info.key != user.authority {
        return Err(EngineError::InvalidArgument);
    }
    if !authority_info.is_signer {
        return Err(EngineError::MissingRequiredSignature);
    }
    Ok(())
}

/// What processing the command in `input` leaves behind.
pub open spec fn processed(program_id: Seq<u8>, accounts: Seq<AccountView>, input: Seq<u8>) -> Result<
    Seq<AccountView>,
    EngineError,
> {
    match decode_instruction(input) {
        Err(e) => Err(e),
        Ok(TypeInstruction::InitializeUser) => key_stored(accounts),
        Ok(TypeInstruction::InitializeMeta) => key_stored(accounts),
        Ok(TypeInstruction::Test) => match tested(program_id, accounts) {
            Err(e) => Err(e),
            Ok(_) => Ok(accounts),
        },
    }
}

/// Reads the command in `instruction_data` and carries it out on `accounts`.
pub fn process_instruction(program_id: &Pubkey, accounts: &mut [AccountInfo], instruction_data: &[u8]) -> (result:
    Result<(), EngineError>)
    ensures
        settled(
            processed(program_id@, account_views(old(accounts)@), instruction_data@),
            account_views(old(accounts)@),
            result,
            account_views(final(accounts)@),
        ),
{
    let instruction = TypeInstruction::unpack(instruction_data)?;
    match instruction {
        TypeInstruction::InitializeUser => InitializeUser(accounts),
        TypeInstruction::InitializeMeta => InitializeMeta(accounts),
        TypeInstruction::Test => Test(program_id, accounts),
    }
}

} // verus!
