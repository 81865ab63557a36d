//! What the engine asks of the ledger runtime. The engine decides; whoever
//! embeds it carries the request out and reports back.

use vstd::prelude::*;
use crate::multisig::state::{TransactionAccount, TransactionAccountView};
use crate::pubkey::Pubkey;

verus! {

/// A request to create an account at the program's derived address, signed
/// with the seed and `bump` that lead to that address.
#[derive(Clone, Copy, Debug, PartialEq, Eq)]
pub struct Allocation {
    /// The account that pays for the storage.
    pub payer: Pubkey,
    /// The address of the account to create.
    pub address: Pubkey,
    /// The balance that the new account starts with.
    pub lamports: u64,
    /// Number of bytes to reserve.
    pub space: u64,
    /// The program that will own the new account.
    pub owner: Pubkey,
    /// The bump to sign with.
    pub bump: u8,
}

/// An `Allocation` as a value.
pub struct AllocationView {
    pub payer: Seq<u8>,
    pub address: Seq<u8>,
    pub lamports: u64,
    pub space: u64,
    pub owner: Seq<u8>,
    pub bump: u8,
}

impl View for Allocation {
    type V = AllocationView;

    open spec fn view(&self) -> AllocationView {
        AllocationView {
            payer: self.payer@,
            address: self.address@,
            lamports: self.lamports,
            space: self.space,
            owner: self.owner@,
            bump: self.bump,
        }
    }
}

/// A request to call another program on the roster's behalf, signed with the
/// seed and `bump` that lead to the program's derived address.
#[derive(Clone, Copy, Debug, PartialEq, Eq)]
pub struct Invocation {
    /// The program to call.
    pub program_id: Pubkey,
    /// The accounts handed to it, as the proposal names them.
    pub accounts: [TransactionAccount; 2],
    /// The payload of the call.
    pub data: u8,
    /// The bump to sign with.
    pub bump: u8,
}

/// An `Invocation` as a value.
pub struct InvocationView {
    pub program_id: Seq<u8>,
    pub accounts: Seq<TransactionAccountView>,
    pub data: u8,
    pub bump: u8,
}

impl View for Invocation {
    type V = InvocationView;

    open spec fn view(&self) -> InvocationView {
        InvocationView {
            program_id: self.program_id@,
            accounts: Seq::new(2, |i: int| self.accounts@[i]@),
            data: self.data,
            bump: self.bump,
        }
    }
}

/// What remains to be done once a command has been processed.
#[derive(Clone, Copy, Debug, PartialEq, Eq)]
pub enum Effect {
    /// Nothing: the command is complete.
    Done,
    /// The runtime is to create the registry's account.
    Allocate(Allocation),
    /// The runtime is to make a proposal's call; its outcome is then to be
    /// reported back.
    Invoke(Invocation),
}

/// An `Effect` as a value.
pub enum EffectView {
    Done,
    Allocate(AllocationView),
    Invoke(InvocationView),
}

impl View for Effect {
    type V = EffectView;

    open spec fn view(&self) -> EffectView {
        match *self {
            Effect::Done => EffectView::Done,
            Effect::Allocate(request) => EffectView::Allocate(request@),
            Effect::Invoke(call) => EffectView::Invoke(call@),
        }
    }
}

} // verus!
