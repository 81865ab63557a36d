//! Accounts as the ledger runtime hands them to a program.

use vstd::prelude::*;
use crate::pubkey::Pubkey;

verus! {

/// One account of a call: who it is, which program owns it, what the caller
/// was granted on it, and the bytes that it stores.
#[derive(Clone, Debug, PartialEq, Eq)]
pub struct AccountInfo {
    /// The account's own address.
    pub key: Pubkey,
    /// The program that alone may change `data`.
    pub owner: Pubkey,
    /// Whether the holder of `key` authorized this call.
    pub is_signer: bool,
    /// Whether the call may write to the account.
    pub is_writable: bool,
    /// The stored bytes.
    pub data: Vec<u8>,
}

/// An account as a value: keys and stored bytes as sequences.
pub struct AccountView {
    pub key: Seq<u8>,
    pub owner: Seq<u8>,
    pub is_signer: bool,
    pub is_writable: bool,
    pub data: Seq<u8>,
}

impl View for AccountInfo {
    type V = AccountView;

    open spec fn view(&self) -> AccountView {
        AccountView {
            key: self.key@,
            owner: self.owner@,
            is_signer: self.is_signer,
            is_writable: self.is_writable,
            data: self.data@,
        }
    }
}

impl AccountView {
    /// The shape that every account has: keys of thirty-two bytes.
    pub open spec fn wf(self) -> bool {
        self.key.len() == 32 && self.owner.len() == 32
    }

    /// The same account storing `data`.
    pub open spec fn with_data(self, data: Seq<u8>) -> AccountView {
        AccountView { data, ..self }
    }
}

/// The accounts of a call, each as a value.
pub open spec fn account_views(accounts: Seq<AccountInfo>) -> Seq<AccountView> {
    Seq::new(accounts.len(), |i: int| accounts[i]@)
}

/// Whether every account of the list has the shape of an account.
pub open spec fn all_wf(accounts: Seq<AccountView>) -> bool {
    forall|i: int| 0 <= i < accounts.len() ==> (#[trigger] accounts[i]).wf()
}

/// The accounts of a call always have the shape of accounts.
pub proof fn lemma_account_views_wf(accounts: Seq<AccountInfo>)
    ensures
        all_wf(account_views(accounts)),
        account_views(accounts).len() == accounts.len(),
{
}

} // verus!
