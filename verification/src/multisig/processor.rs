//! The commands of the approval engine.

use vstd::prelude::*;
use crate::account::{account_views, AccountInfo, AccountView};
use crate::address::{derived_view, find_program_address, gate, registry_address, require_derived};
use crate::error::EngineError;
use crate::multisig::instruction::{
    is_valid_signer_index, MultisigInstruction, MultisigInstructionView, MAX_SIGNERS,
};
use crate::multisig::state::{
    count_flags, no_flags, Multisig, MultisigView, Transaction, TransactionAccount,
    TransactionAccountView, TransactionView, ACCOUNT_LEN,
};
use crate::pubkey::{cmp_pubkeys, Pubkey};
use crate::runtime::{Allocation, AllocationView, Effect, EffectView, Invocation, InvocationView};

verus! {

/// Bytes reserved for the registry's account.
pub const SIZE: usize = ACCOUNT_LEN;

/// Balance that the registry's account starts with.
pub const REGISTRY_LAMPORTS: u64 = 80179200;

/// Lets an account pass only where `program_id` owns it.
pub fn check_account_owner(program_id: &Pubkey, account_info: &AccountInfo) -> (checked: Result<
    (),
    EngineError,
>)
    ensures
        account_info@.owner == program_id@ ==> checked == Ok::<(), EngineError>(()),
        account_info@.owner != program_id@ ==> checked == Err::<(), EngineError>(
            EngineError::IncorrectOwner,
        ),
{
    if !cmp_pubkeys(program_id, &account_info.owner) {
        Err(EngineError::IncorrectOwner)
    } else {
        Ok(())
    }
}

/// The request that allocating the registry answers with. The accounts are
/// the system program, the account to create and the payer, in this order;
/// the account to create must be at the derived address.
pub open spec fn allocation(
    derived: Option<(Seq<u8>, u8)>,
    program_id: Seq<u8>,
    accounts: Seq<AccountView>,
) -> Result<AllocationView, EngineError> {
    if accounts.len() < 3 {
        Err(EngineError::NotEnoughAccountKeys)
    } else {
        match gate(derived, accounts[1].key) {
            Err(e) => Err(e),
            Ok(bump) => Ok(
                AllocationView {
                    payer: accounts[2].key,
                    address: accounts[1].key,
                    lamports: REGISTRY_LAMPORTS,
                    space: 1024,
                    owner: program_id,
                    bump,
                },
            ),
        }
    }
}

/// Prepares the creation of the registry's account, given what the program
/// derives as its address.
pub fn allocate_with_authority(
    derived: &Option<(Pubkey, u8)>,
    program_id: &Pubkey,
    accounts: &[AccountInfo],
) -> (request: Result<Allocation, EngineError>)
    ensures
        match request {
            Ok(a) => allocation(derived_view(*derived), program_id@, account_views(accounts@)) == Ok::<
                AllocationView,
                EngineError,
            >(a@),
            Err(e) => allocation(derived_view(*derived), program_id@, account_views(accounts@))
                == Err::<AllocationView, EngineError>(e),
        },
{
    if accounts.len() < 3 {
        return Err(EngineError::NotEnoughAccountKeys);
    }
    let allocated_info = &accounts[1];
    let owner_info = &accounts[2];
    let bump = require_derived(derived, &allocated_info.key)?;
    Ok(
        Allocation {
            payer: owner_info.key,
            address: allocated_info.key,
            lamports: REGISTRY_LAMPORTS,
            space: 1024,
            owner: *program_id,
            bump,
        },
    )
}

/// Prepares the creation of the registry's account at the address that
/// `program_id` derives. Every other address is refused.
#[allow(non_snake_case)]
pub fn AllocatePDA(program_id: &Pubkey, accounts: &[AccountInfo]) -> (request: Result<
    Allocation,
    EngineError,
>)
    ensures
        match request {
            Ok(a) => allocation(registry_address(program_id@), program_id@, account_views(accounts@))
                == Ok::<AllocationView, EngineError>(a@),
            Err(e) => allocation(registry_address(program_id@), program_id@, account_views(accounts@))
                == Err::<AllocationView, EngineError>(e),
        },
{
    let derived = find_program_address(program_id);
    allocate_with_authority(&derived, program_id, accounts)
}

/// What a call leaves behind: on success the accounts that `expected` names,
/// on refusal the accounts as they were.
pub open spec fn settled(
    expected: Result<Seq<AccountView>, EngineError>,
    before: Seq<AccountView>,
    result: Result<(), EngineError>,
    after: Seq<AccountView>,
) -> bool {
    match expected {
        Ok(accounts) => result.is_ok() && after == accounts,
        Err(e) => result == Err::<(), EngineError>(e) && after == before,
    }
}

/// The accounts with new bytes stored in the first of them.
pub open spec fn with_first_data(accounts: Seq<AccountView>, data: Seq<u8>) -> Seq<AccountView> {
    accounts.update(0, accounts[0].with_data(data))
}

/// The keys of the accounts from `from` on.
pub open spec fn keys_from(accounts: Seq<AccountView>, from: int) -> Seq<Seq<u8>> {
    Seq::new((accounts.len() - from) as nat, |i: int| accounts[from + i].key)
}

/// What setting the roster leaves behind. The first account is the
/// registry and must be at the derived address; the accounts behind it are
/// the signers, in roster order.
pub open spec fn initialized_multisig(
    derived: Option<(Seq<u8>, u8)>,
    accounts: Seq<AccountView>,
    m: u8,
) -> Result<Seq<AccountView>, EngineError> {
    if accounts.len() < 1 {
        Err(EngineError::NotEnoughAccountKeys)
    } else {
        match gate(derived, accounts[0].key) {
            Err(e) => Err(e),
            Ok(_) => match MultisigView::load(accounts[0].data) {
                Err(e) => Err(e),
                Ok(registry) => match registry.enroll(m, keys_from(accounts, 1)) {
                    Err(e) => Err(e),
                    Ok(enrolled) => Ok(with_first_data(accounts, enrolled.store(accounts[0].data))),
                },
            },
        }
    }
}

/// Gives a registry its roster, the keys of the accounts behind the first,
/// and its threshold.
pub fn enroll(registry: &Multisig, m: u8, accounts: &[AccountInfo]) -> (enrolled: Result<
    Multisig,
    EngineError,
>)
    requires
        accounts.len() >= 1,
    ensures
        match enrolled {
            Ok(multisig) => registry@.enroll(m, keys_from(account_views(accounts@), 1)) == Ok::<
                MultisigView,
                EngineError,
            >(multisig@),
            Err(e) => registry@.enroll(m, keys_from(account_views(accounts@), 1)) == Err::<
                MultisigView,
                EngineError,
            >(e),
        },
{
    if registry.is_initialized {
        return Err(EngineError::AlreadyInitialized);
    }
    let count: usize = accounts.len() - 1;
    if !is_valid_signer_index(count) {
        return Err(EngineError::InvalidThreshold);
    }
    if !is_valid_signer_index(m as usize) {
        return Err(EngineError::InvalidThreshold);
    }
    let mut signers: [Pubkey; MAX_SIGNERS] = [Pubkey::zeroed(); MAX_SIGNERS];
    let mut i: usize = 0;
    while i < count
        invariant
            i <= count <= MAX_SIGNERS,
            count == accounts.len() - 1,
            forall|k: int| 0 <= k < i ==> (#[trigger] signers@[k])@ == accounts@[1 + k].key@,
            forall|k: int| i <= k < 11 ==> (#[trigger] signers@[k])@ == Seq::new(32, |j: int| 0u8),
        decreases count - i,
    {
        signers[i] = accounts[1 + i].key;
        i += 1;
    }
    let multisig = Multisig { m, n: count as u8, is_initialized: true, signers };
    proof {
        let keys = keys_from(account_views(accounts@), 1);
        assert(keys.len() == count);
        assert(multisig@.signers =~= registry@.enroll(m, keys).unwrap().signers);
    }
    Ok(multisig)
}

/// Sets the roster and the threshold of the registry, given what the program
/// derives as its address.
pub fn initialize_multisig_with_authority(
    derived: &Option<(Pubkey, u8)>,
    accounts: &mut [AccountInfo],
    m: u8,
) -> (result: Result<(), EngineError>)
    ensures
        settled(
            initialized_multisig(derived_view(*derived), account_views(old(accounts)@), m),
            account_views(old(accounts)@),
            result,
            account_views(final(accounts)@),
        ),
{
    if accounts.len() < 1 {
        return Err(EngineError::NotEnoughAccountKeys);
    }
    require_derived(derived, &accounts[0].key)?;
    let registry = Multisig::unpack_unchecked(accounts[0].data.as_slice())?;
    let multisig = enroll(&registry, m, accounts)?;
    let packed = multisig.pack(accounts[0].data.as_mut_slice());
    proof {
        let before = account_views(old(accounts)@);
        assert(account_views(accounts@) =~= with_first_data(before, multisig@.store(before[0].data)));
    }
    packed
}

/// Sets the roster and the threshold of the registry at the address that
/// `program_id` derives. A registry whose roster is set is never set again.
#[allow(non_snake_case)]
pub fn InitializeMultisig(program_id: &Pubkey, accounts: &mut [AccountInfo], m: u8) -> (result: Result<
    (),
    EngineError,
>)
    ensures
        settled(
            initialized_multisig(registry_address(program_id@), account_views(old(accounts)@), m),
            account_views(old(accounts)@),
            result,
            account_views(final(accounts)@),
        ),
{
    let derived = find_program_address(program_id);
    initialize_multisig_with_authority(&derived, accounts, m)
}

/// How a proposal names an account of the call that creates it.
pub open spec fn descriptor(account: AccountView) -> TransactionAccountView {
    TransactionAccountView {
        pubkey: account.key,
        is_signer: account.is_signer,
        is_writable: account.is_writable,
    }
}

/// The proposal that a fresh slot receives: bound to the registry at
/// `registry`, approved by nobody and not carried out.
pub open spec fn new_proposal(
    registry: Seq<u8>,
    target_program_id: Seq<u8>,
    first: AccountView,
    second: AccountView,
    data: u8,
) -> TransactionView {
    TransactionView {
        multisig: registry,
        program_id: target_program_id,
        accounts: seq![descriptor(first), descriptor(second)],
        data,
        signers: no_flags(),
        did_execute: false,
        is_initialized: true,
    }
}

/// What creating a proposal leaves behind. The first account is the slot;
/// the two behind it are the accounts of the proposed call.
pub open spec fn proposed(
    derived: Option<(Seq<u8>, u8)>,
    accounts: Seq<AccountView>,
    target_program_id: Seq<u8>,
    data: u8,
) -> Result<Seq<AccountView>, EngineError> {
    if accounts.len() < 3 {
        Err(EngineError::NotEnoughAccountKeys)
    } else {
        match TransactionView::load(accounts[0].data) {
            Err(e) => Err(e),
            Ok(slot) => if slot.is_initialized {
                Err(EngineError::AlreadyInitialized)
            } else {
                match derived {
                    None => Err(EngineError::AddressMismatch),
                    Some((registry, _)) => Ok(
                        with_first_data(
                            accounts,
                            new_proposal(registry, target_program_id, accounts[1], accounts[2], data).store(
                                accounts[0].data,
                            ),
                        ),
                    ),
                }
            },
        }
    }
}

/// Creates a proposal in an empty slot, given what the program derives as
/// its address.
pub fn create_transaction_with_authority(
    derived: &Option<(Pubkey, u8)>,
    accounts: &mut [AccountInfo],
    target_program_id: &Pubkey,
    data: u8,
) -> (result: Result<(), EngineError>)
    ensures
        settled(
            proposed(derived_view(*derived), account_views(old(accounts)@), target_program_id@, data),
            account_views(old(accounts)@),
            result,
            account_views(final(accounts)@),
        ),
{
    if accounts.len() < 3 {
        return Err(EngineError::NotEnoughAccountKeys);
    }
    let slot = Transaction::unpack_unchecked(accounts[0].data.as_slice())?;
    if slot.is_initialized {
        return Err(EngineError::AlreadyInitialized);
    }
    let registry = match derived {
        Some((address, _)) => *address,
        None => {
            return Err(EngineError::AddressMismatch);
        },
    };
    let first = &accounts[1];
    let second = &accounts[2];
    let transaction = Transaction {
        multisig: registry,
        program_id: *target_program_id,
        accounts: [
            TransactionAccount {
                pubkey: first.key,
                is_signer: first.is_signer,
                is_writable: first.is_writable,
            },
            TransactionAccount {
                pubkey: second.key,
                is_signer: second.is_signer,
                is_writable: second.is_writable,
            },
        ],
        data,
        signers: [false; MAX_SIGNERS],
        did_execute: false,
        is_initialized: true,
    };
    proof {
        let before = account_views(old(accounts)@);
        let expected = new_proposal(registry@, target_program_id@, before[1], before[2], data);
        assert(transaction@.accounts =~= expected.accounts);
        assert(transaction@.signers =~= expected.signers);
        assert(transaction@ == expected);
    }
    let packed = transaction.pack(accounts[0].data.as_mut_slice());
    proof {
        let before = account_views(old(accounts)@);
        assert(account_views(accounts@) =~= with_first_data(
            before,
            transaction@.store(before[0].data),
        ));
    }
    packed
}

/// Creates a proposal in an empty slot and binds it to the registry that
/// `program_id` derives, whatever registry the caller may have in mind.
#[allow(non_snake_case)]
pub fn CreateTransaction(
    program_id: &Pubkey,
    accounts: &mut [AccountInfo],
    target_program_id: &Pubkey,
    data: u8,
) -> (result: Result<(), EngineError>)
    ensures
        settled(
            proposed(
                registry_address(program_id@),
                account_views(old(accounts)@),
                target_program_id@,
                data,
            ),
            account_views(old(accounts)@),
            result,
            account_views(final(accounts)@),
        ),
{
    let derived = find_program_address(program_id);
    create_transaction_with_authority(&derived, accounts, target_program_id, data)
}

/// The proposal and the registry that a call reads from its first two
/// accounts. Both must belong to the program; the registry's roster must
/// fit its eleven seats.
pub open spec fn loaded(program_id: Seq<u8>, accounts: Seq<AccountView>) -> Result<
    (TransactionView, MultisigView),
    EngineError,
>
    recommends
        accounts.len() >= 2,
{
    if accounts[0].owner != program_id || accounts[1].owner != program_id {
        Err(EngineError::IncorrectOwner)
    } else {
        match TransactionView::load(accounts[0].data) {
            Err(e) => Err(e),
            Ok(proposal) => match MultisigView::load(accounts[1].data) {
                Err(e) => Err(e),
                Ok(registry) => if registry.n > 11 {
                    Err(EngineError::CorruptData)
                } else {
                    Ok((proposal, registry))
                },
            },
        }
    }
}

/// Reads the proposal and the registry from the first two accounts.
fn load_pair(program_id: &Pubkey, accounts: &[AccountInfo]) -> (pair: Result<
    (Transaction, Multisig),
    EngineError,
>)
    requires
        accounts.len() >= 2,
    ensures
        match pair {
            Ok((transaction, multisig)) => loaded(program_id@, account_views(accounts@)) == Ok::<
                (TransactionView, MultisigView),
                EngineError,
            >((transaction@, multisig@)) && multisig.n <= MAX_SIGNERS,
            Err(e) => loaded(program_id@, account_views(accounts@)) == Err::<
                (TransactionView, MultisigView),
                EngineError,
            >(e),
        },
{
    check_account_owner(program_id, &accounts[0])?;
    check_account_owner(program_id, &accounts[1])?;
    let transaction = Transaction::unpack_unchecked(accounts[0].data.as_slice())?;
    let multisig = Multisig::unpack_unchecked(accounts[1].data.as_slice())?;
    if multisig.n as usize > MAX_SIGNERS {
        return Err(EngineError::CorruptData);
    }
    Ok((transaction, multisig))
}

/// What an approval leaves behind. The accounts are the proposal, the
/// registry and the approving signer, in this order.
pub open spec fn approved(program_id: Seq<u8>, accounts: Seq<AccountView>) -> Result<
    Seq<AccountView>,
    EngineError,
> {
    if accounts.len() < 3 {
        Err(EngineError::NotEnoughAccountKeys)
    } else {
        match loaded(program_id, accounts) {
            Err(e) => Err(e),
            Ok((proposal, registry)) => match proposal.approve(
                registry,
                accounts[2].key,
                accounts[2].is_signer,
            ) {
                Err(e) => Err(e),
                Ok(after) => Ok(with_first_data(accounts, after.store(accounts[0].data))),
            },
        }
    }
}

/// Records the approval of the third account on the proposal. A key with no
/// seat on the roster, or one whose seats have all approved, changes nothing
/// and is not refused.
#[allow(non_snake_case)]
pub fn Approve(program_id: &Pubkey, accounts: &mut [AccountInfo]) -> (result: Result<(), EngineError>)
    ensures
        settled(
            approved(program_id@, account_views(old(accounts)@)),
            account_views(old(accounts)@),
            result,
            account_views(final(accounts)@),
        ),
{
    if accounts.len() < 3 {
        return Err(EngineError::NotEnoughAccountKeys);
    }
    let (mut transaction, multisig) = load_pair(program_id, accounts)?;
    let ghost proposal = transaction@;
    let your_info = &accounts[2];
    multisig.mark_seats(&mut transaction.signers, &your_info.key, your_info.is_signer)?;
    assert(transaction@ == proposal.approve(
        multisig@,
        accounts@[2].key@,
        accounts@[2].is_signer,
    ).unwrap());
    let packed = transaction.pack(accounts[0].data.as_mut_slice());
    proof {
        let before = account_views(old(accounts)@);
        assert(account_views(accounts@) =~= with_first_data(
            before,
            transaction@.store(before[0].data),
        ));
    }
    packed
}

/// The call that carrying out a proposal makes, once enough seats have
/// approved. The accounts are the proposal and the registry, in this order.
/// Whether the proposal was carried out before is not asked: as long as its
/// quorum stands, it can be carried out again.
pub open spec fn execution(
    derived: Option<(Seq<u8>, u8)>,
    program_id: Seq<u8>,
    accounts: Seq<AccountView>,
) -> Result<InvocationView, EngineError> {
    if accounts.len() < 2 {
        Err(EngineError::NotEnoughAccountKeys)
    } else {
        match loaded(program_id, accounts) {
            Err(e) => Err(e),
            Ok((proposal, registry)) => if !proposal.has_quorum(registry) {
                Err(EngineError::MissingRequiredSignature)
            } else {
                match derived {
                    None => Err(EngineError::AddressMismatch),
                    Some((_, bump)) => Ok(
                        InvocationView {
                            program_id: proposal.program_id,
                            accounts: proposal.accounts,
                            data: proposal.data,
                            bump,
                        },
                    ),
                }
            },
        }
    }
}

/// Checks the quorum of a proposal and prepares its call, given what the
/// program derives as its address.
pub fn execute_transaction_with_authority(
    derived: &Option<(Pubkey, u8)>,
    program_id: &Pubkey,
    accounts: &[AccountInfo],
) -> (request: Result<Invocation, EngineError>)
    ensures
        match request {
            Ok(call) => execution(derived_view(*derived), program_id@, account_views(accounts@))
                == Ok::<InvocationView, EngineError>(call@),
            Err(e) => execution(derived_view(*derived), program_id@, account_views(accounts@))
                == Err::<InvocationView, EngineError>(e),
        },
{
    if accounts.len() < 2 {
        return Err(EngineError::NotEnoughAccountKeys);
    }
    let (transaction, multisig) = load_pair(program_id, accounts)?;
    let num_signers = count_flags(&transaction.signers, multisig.n as usize);
    if num_signers < multisig.m {
        return Err(EngineError::MissingRequiredSignature);
    }
    let bump = match derived {
        Some((_, bump)) => *bump,
        None => {
            return Err(EngineError::AddressMismatch);
        },
    };
    let call = Invocation {
        program_id: transaction.program_id,
        accounts: transaction.accounts,
        data: transaction.data,
        bump,
    };
    assert(call@.accounts =~= transaction@.accounts);
    Ok(call)
}

/// Checks the quorum of a proposal and prepares its call, to be made under
/// the authority that `program_id` derives. Nothing is written: the proposal
/// is marked only by `finish_execution`, once the call has been made.
#[allow(non_snake_case)]
pub fn ExecuteTransaction(program_id: &Pubkey, accounts: &[AccountInfo]) -> (request: Result<
    Invocation,
    EngineError,
>)
    ensures
        match request {
            Ok(call) => execution(registry_address(program_id@), program_id@, account_views(accounts@))
                == Ok::<InvocationView, EngineError>(call@),
            Err(e) => execution(registry_address(program_id@), program_id@, account_views(accounts@))
                == Err::<InvocationView, EngineError>(e),
        },
{
    let derived = find_program_address(program_id);
    execute_transaction_with_authority(&derived, program_id, accounts)
}

/// What reporting the outcome of a proposal's call leaves behind. The
/// proposal must still pass every check of `execution`; a failed call is
/// handed on with its code, and only a call that succeeded marks the
/// proposal.
pub open spec fn finished(
    derived: Option<(Seq<u8>, u8)>,
    program_id: Seq<u8>,
    accounts: Seq<AccountView>,
    outcome: Result<(), u64>,
) -> Result<Seq<AccountView>, EngineError> {
    match execution(derived, program_id, accounts) {
        Err(e) => Err(e),
        Ok(_) => match outcome {
            Err(code) => Err(EngineError::Downstream(code)),
            Ok(_) => Ok(
                with_first_data(
                    accounts,
                    TransactionView::load(accounts[0].data).unwrap().executed().store(accounts[0].data),
                ),
            ),
        },
    }
}

/// Records the outcome of a proposal's call, given what the program derives
/// as its address.
pub fn finish_execution_with_authority(
    derived: &Option<(Pubkey, u8)>,
    program_id: &Pubkey,
    accounts: &mut [AccountInfo],
    outcome: Result<(), u64>,
) -> (result: Result<(), EngineError>)
    ensures
        settled(
            finished(derived_view(*derived), program_id@, account_views(old(accounts)@), outcome),
            account_views(old(accounts)@),
            result,
            account_views(final(accounts)@),
        ),
{
    let _ = execute_transaction_with_authority(derived, program_id, accounts)?;
    if let Err(code) = outcome {
        return Err(EngineError::Downstream(code));
    }
    let mut transaction = Transaction::unpack_unchecked(accounts[0].data.as_slice())?;
    transaction.did_execute = true;
    let packed = transaction.pack(accounts[0].data.as_mut_slice());
    proof {
        let before = account_views(old(accounts)@);
        assert(account_views(accounts@) =~= with_first_data(
            before,
            transaction@.store(before[0].data),
        ));
    }
    packed
}

/// Records the outcome of the call that `ExecuteTransaction` prepared: a
/// success marks the proposal as carried out, a failure is handed on and
/// leaves it unmarked.
pub fn finish_execution(program_id: &Pubkey, accounts: &mut [AccountInfo], outcome: Result<(), u64>) -> (result:
    Result<(), EngineError>)
    ensures
        settled(
            finished(registry_address(program_id@), program_id@, account_views(old(accounts)@), outcome),
            account_views(old(accounts)@),
            result,
            account_views(final(accounts)@),
        ),
{
    let derived = find_program_address(program_id);
    finish_execution_with_authority(&derived, program_id, accounts, outcome)
}

/// A command that is complete once its accounts are written.
pub open spec fn completed(outcome: Result<Seq<AccountView>, EngineError>) -> Result<
    (EffectView, Seq<AccountView>),
    EngineError,
> {
    match outcome {
        Err(e) => Err(e),
        Ok(after) => Ok((EffectView::Done, after)),
    }
}

/// What processing the command in `input` answers and leaves behind.
pub open spec fn processed(
    derived: Option<(Seq<u8>, u8)>,
    program_id: Seq<u8>,
    accounts: Seq<AccountView>,
    input: Seq<u8>,
) -> Result<(EffectView, Seq<AccountView>), EngineError> {
    match MultisigInstructionView::decode(input) {
        Err(e) => Err(e),
        Ok(MultisigInstructionView::AllocatePDA) => match allocation(derived, program_id, accounts) {
            Err(e) => Err(e),
            Ok(request) => Ok((EffectView::Allocate(request), accounts)),
        },
        Ok(MultisigInstructionView::InitializeMultisig { m }) => completed(
            initialized_multisig(derived, accounts, m),
        ),
        Ok(MultisigInstructionView::CreateTransaction { target_program_id, data }) => completed(
            proposed(derived, accounts, target_program_id, data),
        ),
        Ok(MultisigInstructionView::Approve) => completed(approved(program_id, accounts)),
        Ok(MultisigInstructionView::ExecuteTransaction) => match execution(derived, program_id, accounts) {
            Err(e) => Err(e),
            Ok(call) => Ok((EffectView::Invoke(call), accounts)),
        },
    }
}

/// Reads the command in `instruction_data` and carries it out on `accounts`.
/// A command that needs the ledger runtime answers with the request to make;
/// a refused command changes nothing.
pub fn process_instruction(program_id: &Pubkey, accounts: &mut [AccountInfo], instruction_data: &[u8]) -> (result:
    Result<Effect, EngineError>)
    ensures
        match processed(
            registry_address(program_id@),
            program_id@,
            account_views(old(accounts)@),
            instruction_data@,
        ) {
            Ok((effect, after)) => result.is_ok() && result.unwrap()@ == effect && account_views(
                final(accounts)@,
            ) == after,
            Err(e) => result == Err::<Effect, EngineError>(e) && account_views(final(accounts)@)
                == account_views(old(accounts)@),
        },
{
    let instruction = MultisigInstruction::unpack(instruction_data)?;
    match instruction {
        MultisigInstruction::AllocatePDA => {
            let request = AllocatePDA(program_id, accounts)?;
            Ok(Effect::Allocate(request))
        },
        MultisigInstruction::InitializeMultisig { m } => {
            InitializeMultisig(program_id, accounts, m)?;
            Ok(Effect::Done)
        },
        MultisigInstruction::CreateTransaction { target_program_id, data } => {
            CreateTransaction(program_id, accounts, &target_program_id, data)?;
            Ok(Effect::Done)
        },
        MultisigInstruction::Approve => {
            Approve(program_id, accounts)?;
            Ok(Effect::Done)
        },
        MultisigInstruction::ExecuteTransaction => {
            let call = ExecuteTransaction(program_id, accounts)?;
            Ok(Effect::Invoke(call))
        },
    }
}

} // verus!
