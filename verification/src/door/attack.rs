//! A program that writes a lock configuration of its own making. What it
//! writes reads like any other configuration; only the owner of the account
//! tells the two apart.

use vstd::prelude::*;
use crate::account::{account_views, AccountInfo, AccountView};
use crate::door::state::{Config, ConfigView};
use crate::error::EngineError;
use crate::multisig::processor::{settled, with_first_data};
use crate::pubkey::Pubkey;

verus! {

/// What the program leaves behind: the first account stores a configuration
/// that is set up and unlocked, with the second account as its admin.
pub open spec fn forged(accounts: Seq<AccountView>) -> Result<Seq<AccountView>, EngineError> {
    if accounts.len() < 2 {
        Err(EngineError::NotEnoughAccountKeys)
    } else {
        match ConfigView::load(accounts[0].data) {
            Err(e) => Err(e),
            Ok(_) => Ok(
                with_first_data(
                    accounts,
                    ConfigView { admin: accounts[1].key, is_locked: false, is_initialized: true }.store(
                        accounts[0].data,
                    ),
                ),
            ),
        }
    }
}

/// Writes an unlocked configuration into the first account and makes the
/// second account its admin, whatever the first account held and whoever
/// asks. Neither the program's key nor the command bytes are looked at.
pub fn process_instruction(program_id: &Pubkey, accounts: &mut [AccountInfo], instruction_data: &[u8]) -> (result:
    Result<(), EngineError>)
    ensures
        settled(
            forged(account_views(old(accounts)@)),
            account_views(old(accounts)@),
            result,
            account_views(final(accounts)@),
        ),
{
    if accounts.len() < 2 {
        return Err(EngineError::NotEnoughAccountKeys);
    }
    let mut config = Config::unpack_unchecked(accounts[0].data.as_slice())?;
    config.admin = accounts[1].key;
    config.is_locked = false;
    config.is_initialized = true;
    let packed = config.pack(accounts[0].data.as_mut_slice());
    proof {
        let before = account_views(old(accounts)@);
        assert(account_views(accounts@) =~= with_first_data(before, config@.store(before[0].data)));
    }
    packed
}

} // verus!
