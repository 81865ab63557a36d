//! What holds of the approval engine across calls.

use vstd::prelude::*;
use crate::account::{all_wf, AccountView};
use crate::error::EngineError;
use crate::multisig::instruction::MultisigInstructionView;
use crate::multisig::processor::{
    allocation, approved, execution, finished, initialized_multisig, keys_from, loaded, processed,
    proposed,
};
use crate::multisig::state::{
    count_true, lemma_count_true_monotone, lemma_multisig_decode_encode, lemma_multisig_round_trip,
    lemma_transaction_decode_encode, lemma_transaction_round_trip, MultisigView, TransactionView,
    ACCOUNT_LEN,
};

verus! {

/// A proposal that was stored in an account of the reserved length is read
/// back from it unchanged.
pub proof fn lemma_transaction_stored(proposal: TransactionView, data: Seq<u8>)
    requires
        proposal.wf(),
        data.len() == ACCOUNT_LEN,
    ensures
        TransactionView::load(proposal.store(data)) == Ok::<TransactionView, EngineError>(proposal),
{
    lemma_transaction_round_trip(proposal, data.skip(146));
}

/// A registry that was stored in an account of the reserved length is read
/// back from it unchanged.
pub proof fn lemma_multisig_stored(registry: MultisigView, data: Seq<u8>)
    requires
        registry.wf(),
        data.len() == ACCOUNT_LEN,
    ensures
        MultisigView::load(registry.store(data)) == Ok::<MultisigView, EngineError>(registry),
{
    lemma_multisig_round_trip(registry, data.skip(355));
}

/// An approval only ever turns flags on: every seat that had approved still
/// has, so no prefix of the roster counts fewer approvals than before.
pub proof fn lemma_approve_keeps_approvals(
    proposal: TransactionView,
    registry: MultisigView,
    key: Seq<u8>,
    is_signer: bool,
    n: int,
)
    requires
        proposal.signers.len() == 11,
        0 <= n <= 11,
        proposal.approve(registry, key, is_signer).is_ok(),
    ensures
        forall|i: int|
            0 <= i < 11 && proposal.signers[i] ==> proposal.approve(
                registry,
                key,
                is_signer,
            ).unwrap().signers[i],
        count_true(proposal.signers, n) <= count_true(
            proposal.approve(registry, key, is_signer).unwrap().signers,
            n,
        ),
{
    let after = proposal.approve(registry, key, is_signer).unwrap();
    lemma_count_true_monotone(proposal.signers, after.signers, n);
}

/// Approving twice in a row with the same key gives what approving once
/// gives.
pub proof fn lemma_approve_idempotent(
    proposal: TransactionView,
    registry: MultisigView,
    key: Seq<u8>,
    is_signer: bool,
)
    requires
        proposal.approve(registry, key, is_signer).is_ok(),
    ensures
        proposal.approve(registry, key, is_signer).unwrap().approve(registry, key, is_signer)
            == proposal.approve(registry, key, is_signer),
{
    let once = proposal.approve(registry, key, is_signer).unwrap();
    assert(!registry.has_open_seat(once.signers, key));
    assert(registry.marked(once.signers, key) =~= once.signers);
}

/// The `Approve` command is idempotent on the stored bytes: a second
/// approval by the same signer of the same proposal succeeds and leaves every
/// account as the first left it.
pub proof fn lemma_approve_command_idempotent(program_id: Seq<u8>, accounts: Seq<AccountView>)
    requires
        approved(program_id, accounts).is_ok(),
    ensures
        approved(program_id, approved(program_id, accounts).unwrap()) == approved(program_id, accounts),
{
    let after = approved(program_id, accounts).unwrap();
    let (proposal, registry) = loaded(program_id, accounts).unwrap();
    let key = accounts[2].key;
    let is_signer = accounts[2].is_signer;
    let once = proposal.approve(registry, key, is_signer).unwrap();
    lemma_transaction_decode_encode(accounts[0].data);
    lemma_transaction_stored(once, accounts[0].data);
    lemma_approve_idempotent(proposal, registry, key, is_signer);
    assert(loaded(program_id, after) == Ok::<(TransactionView, MultisigView), EngineError>(
        (once, registry),
    ));
    lemma_transaction_decode_encode(after[0].data);
    assert(once.store(after[0].data) =~= after[0].data);
    assert(approved(program_id, after).unwrap() =~= after);
}

/// An approval by a key that holds no roster seat, or whose seats have all
/// approved, succeeds and leaves every account byte for byte as it was.
pub proof fn lemma_spent_approval_changes_nothing(program_id: Seq<u8>, accounts: Seq<AccountView>)
    requires
        accounts.len() >= 3,
        loaded(program_id, accounts).is_ok(),
        !loaded(program_id, accounts).unwrap().1.has_open_seat(
            loaded(program_id, accounts).unwrap().0.signers,
            accounts[2].key,
        ),
    ensures
        approved(program_id, accounts) == Ok::<Seq<AccountView>, EngineError>(accounts),
{
    let (proposal, registry) = loaded(program_id, accounts).unwrap();
    lemma_transaction_decode_encode(accounts[0].data);
    assert(registry.marked(proposal.signers, accounts[2].key) =~= proposal.signers);
    assert(approved(program_id, accounts).unwrap() =~= accounts);
}

/// No command that acts on a stored proposal lowers the number of seats
/// that have approved it: an approval keeps every flag that was on, and
/// recording an execution leaves the flags alone.
pub proof fn lemma_approvals_never_decrease(
    derived: Option<(Seq<u8>, u8)>,
    program_id: Seq<u8>,
    accounts: Seq<AccountView>,
    outcome: Result<(), u64>,
    n: int,
)
    requires
        0 <= n <= 11,
        accounts.len() >= 1,
        TransactionView::load(accounts[0].data).is_ok(),
    ensures
        approved(program_id, accounts).is_ok() ==> {
            let after = TransactionView::load(approved(program_id, accounts).unwrap()[0].data);
            after.is_ok() && count_true(TransactionView::load(accounts[0].data).unwrap().signers, n)
                <= count_true(after.unwrap().signers, n)
        },
        finished(derived, program_id, accounts, outcome).is_ok() ==> {
            let after = TransactionView::load(
                finished(derived, program_id, accounts, outcome).unwrap()[0].data,
            );
            after.is_ok() && after.unwrap().signers == TransactionView::load(
                accounts[0].data,
            ).unwrap().signers
        },
{
    let proposal = TransactionView::load(accounts[0].data).unwrap();
    lemma_transaction_decode_encode(accounts[0].data);
    if approved(program_id, accounts).is_ok() {
        let (_, registry) = loaded(program_id, accounts).unwrap();
        let once = proposal.approve(registry, accounts[2].key, accounts[2].is_signer).unwrap();
        lemma_transaction_stored(once, accounts[0].data);
        lemma_approve_keeps_approvals(proposal, registry, accounts[2].key, accounts[2].is_signer, n);
    }
    if finished(derived, program_id, accounts, outcome).is_ok() {
        lemma_transaction_stored(proposal.executed(), accounts[0].data);
    }
}

/// A proposal starts with no approvals and not carried out, bound to the
/// derived registry address.
pub proof fn lemma_create_starts_empty(
    derived: Option<(Seq<u8>, u8)>,
    accounts: Seq<AccountView>,
    target_program_id: Seq<u8>,
    data: u8,
    n: int,
)
    requires
        n <= 11,
        all_wf(accounts),
        target_program_id.len() == 32,
        derived.is_some() ==> derived.unwrap().0.len() == 32,
        proposed(derived, accounts, target_program_id, data).is_ok(),
    ensures
        derived.is_some(),
        ({
            let created = TransactionView::load(
                proposed(derived, accounts, target_program_id, data).unwrap()[0].data,
            );
            &&& created.is_ok()
            &&& created.unwrap().is_initialized
            &&& !created.unwrap().did_execute
            &&& created.unwrap().multisig == derived.unwrap().0
            &&& created.unwrap().program_id == target_program_id
            &&& created.unwrap().data == data
            &&& count_true(created.unwrap().signers, n) == 0
        }),
{
    let registry = derived.unwrap().0;
    let fresh = crate::multisig::processor::new_proposal(
        registry,
        target_program_id,
        accounts[1],
        accounts[2],
        data,
    );
    assert(accounts[1].wf() && accounts[2].wf());
    lemma_transaction_stored(fresh, accounts[0].data);
    lemma_no_flags_count(n);
}

/// Among flags that are all false, none is counted.
pub proof fn lemma_no_flags_count(n: int)
    requires
        n <= 11,
    ensures
        count_true(crate::multisig::state::no_flags(), n) == 0,
    decreases n,
{
    if n > 0 {
        lemma_no_flags_count(n - 1);
    }
}

/// Whatever command is processed on a slot that holds a proposal, the
/// proposal counts no fewer approvals afterwards. The one command left out is
/// the setting of a roster, which writes a registry over whatever its account
/// held.
pub proof fn lemma_commands_keep_approvals(
    derived: Option<(Seq<u8>, u8)>,
    program_id: Seq<u8>,
    accounts: Seq<AccountView>,
    input: Seq<u8>,
    n: int,
)
    requires
        0 <= n <= 11,
        accounts.len() >= 1,
        TransactionView::load(accounts[0].data).is_ok(),
        TransactionView::load(accounts[0].data).unwrap().is_initialized,
        processed(derived, program_id, accounts, input).is_ok(),
        !(MultisigInstructionView::decode(input) matches Ok(
            MultisigInstructionView::InitializeMultisig { .. },
        )),
    ensures
        ({
            let after = TransactionView::load(
                processed(derived, program_id, accounts, input).unwrap().1[0].data,
            );
            &&& after.is_ok()
            &&& after.unwrap().is_initialized
            &&& count_true(TransactionView::load(accounts[0].data).unwrap().signers, n) <= count_true(
                after.unwrap().signers,
                n,
            )
        }),
{
    match MultisigInstructionView::decode(input) {
        Ok(MultisigInstructionView::Approve) => {
            lemma_approvals_never_decrease(derived, program_id, accounts, Ok(()), n);
            let proposal = TransactionView::load(accounts[0].data).unwrap();
            let (_, registry) = loaded(program_id, accounts).unwrap();
            lemma_transaction_decode_encode(accounts[0].data);
            lemma_transaction_stored(
                proposal.approve(registry, accounts[2].key, accounts[2].is_signer).unwrap(),
                accounts[0].data,
            );
        },
        _ => {},
    }
}

/// A proposal is never created over a proposal: on a slot that holds one,
/// creation is refused, so its approvals stay as they are.
pub proof fn lemma_create_spares_proposals(
    derived: Option<(Seq<u8>, u8)>,
    accounts: Seq<AccountView>,
    target_program_id: Seq<u8>,
    data: u8,
)
    requires
        accounts.len() >= 1,
        TransactionView::load(accounts[0].data).is_ok(),
        TransactionView::load(accounts[0].data).unwrap().is_initialized,
    ensures
        proposed(derived, accounts, target_program_id, data).is_err(),
{
}

/// Below its quorum a proposal is not carried out: preparing the call is
/// refused, and so is recording an outcome, whatever outcome is reported. As
/// a refused call changes nothing, the proposal stays unmarked.
pub proof fn lemma_no_execution_below_quorum(
    derived: Option<(Seq<u8>, u8)>,
    program_id: Seq<u8>,
    accounts: Seq<AccountView>,
    outcome: Result<(), u64>,
)
    requires
        accounts.len() >= 2,
        TransactionView::load(accounts[0].data).is_ok(),
        MultisigView::load(accounts[1].data).is_ok(),
        count_true(
            TransactionView::load(accounts[0].data).unwrap().signers,
            MultisigView::load(accounts[1].data).unwrap().n as int,
        ) < MultisigView::load(accounts[1].data).unwrap().m,
    ensures
        execution(derived, program_id, accounts).is_err(),
        finished(derived, program_id, accounts, outcome).is_err(),
        loaded(program_id, accounts).is_ok() ==> execution(derived, program_id, accounts) == Err::<
            crate::runtime::InvocationView,
            EngineError,
        >(EngineError::MissingRequiredSignature),
{
}

/// A proposal is marked as carried out only where it has its quorum and the
/// call was reported to have succeeded.
pub proof fn lemma_executed_implies_quorum(
    derived: Option<(Seq<u8>, u8)>,
    program_id: Seq<u8>,
    accounts: Seq<AccountView>,
    outcome: Result<(), u64>,
)
    requires
        finished(derived, program_id, accounts, outcome).is_ok(),
    ensures
        outcome.is_ok(),
        loaded(program_id, accounts).is_ok(),
        loaded(program_id, accounts).unwrap().0.has_quorum(loaded(program_id, accounts).unwrap().1),
        TransactionView::load(finished(derived, program_id, accounts, outcome).unwrap()[0].data)
            == Ok::<TransactionView, EngineError>(loaded(program_id, accounts).unwrap().0.executed()),
{
    let proposal = loaded(program_id, accounts).unwrap().0;
    lemma_transaction_decode_encode(accounts[0].data);
    lemma_transaction_stored(proposal.executed(), accounts[0].data);
}

/// The registry's account is allocated, and its roster set, at the derived
/// address alone: for every other candidate, and where nothing can be
/// derived, both are refused.
pub proof fn lemma_derived_address_gate(
    derived: Option<(Seq<u8>, u8)>,
    program_id: Seq<u8>,
    accounts: Seq<AccountView>,
    m: u8,
)
    ensures
        allocation(derived, program_id, accounts).is_ok() ==> derived.is_some() && accounts[1].key
            == derived.unwrap().0,
        initialized_multisig(derived, accounts, m).is_ok() ==> derived.is_some() && accounts[0].key
            == derived.unwrap().0,
        accounts.len() >= 3 && (derived.is_none() || accounts[1].key != derived.unwrap().0)
            ==> allocation(derived, program_id, accounts) == Err::<
            crate::runtime::AllocationView,
            EngineError,
        >(EngineError::AddressMismatch),
        accounts.len() >= 1 && (derived.is_none() || accounts[0].key != derived.unwrap().0)
            ==> initialized_multisig(derived, accounts, m) == Err::<Seq<AccountView>, EngineError>(
            EngineError::AddressMismatch,
        ),
{
}

/// A roster is set once: after a registry was initialized, every further
/// attempt on its account is refused as `AlreadyInitialized`, whatever
/// threshold and signers it names.
pub proof fn lemma_initialize_once(
    derived: Option<(Seq<u8>, u8)>,
    accounts: Seq<AccountView>,
    m: u8,
    again: Seq<AccountView>,
    m_again: u8,
)
    requires
        all_wf(accounts),
        initialized_multisig(derived, accounts, m).is_ok(),
        again.len() >= 1,
        again[0] == initialized_multisig(derived, accounts, m).unwrap()[0],
    ensures
        initialized_multisig(derived, again, m_again) == Err::<Seq<AccountView>, EngineError>(
            EngineError::AlreadyInitialized,
        ),
        MultisigView::load(again[0].data).is_ok(),
        MultisigView::load(again[0].data).unwrap().enrolled(),
{
    let registry = MultisigView::load(accounts[0].data).unwrap();
    lemma_multisig_decode_encode(accounts[0].data);
    let enrolled = registry.enroll(m, keys_from(accounts, 1)).unwrap();
    assert(enrolled.wf()) by {
        assert forall|i: int| 0 <= i < 11 implies (#[trigger] enrolled.signers[i]).len() == 32 by {
            if i < keys_from(accounts, 1).len() {
                assert(enrolled.signers[i] == accounts[1 + i].key);
                assert(accounts[1 + i].wf());
            }
        }
    }
    lemma_multisig_stored(enrolled, accounts[0].data);
}

/// A command writes to the first account of its list and to no other, and
/// changes neither a key, nor an owner, nor the length of what an account
/// stores.
pub proof fn lemma_commands_write_first_account_only(
    derived: Option<(Seq<u8>, u8)>,
    program_id: Seq<u8>,
    accounts: Seq<AccountView>,
    input: Seq<u8>,
)
    requires
        all_wf(accounts),
        derived.is_some() ==> derived.unwrap().0.len() == 32,
        processed(derived, program_id, accounts, input).is_ok(),
    ensures
        ({
            let after = processed(derived, program_id, accounts, input).unwrap().1;
            &&& after.len() == accounts.len()
            &&& forall|i: int| 1 <= i < accounts.len() ==> after[i] == accounts[i]
            &&& accounts.len() >= 1 ==> after[0] == accounts[0].with_data(after[0].data)
                && after[0].data.len() == accounts[0].data.len()
        }),
{
    match MultisigInstructionView::decode(input) {
        Ok(MultisigInstructionView::InitializeMultisig { m }) => {
            lemma_multisig_decode_encode(accounts[0].data);
        },
        Ok(MultisigInstructionView::CreateTransaction { target_program_id, data }) => {
            assert(accounts[1].wf() && accounts[2].wf());
        },
        Ok(MultisigInstructionView::Approve) => {
            lemma_transaction_decode_encode(accounts[0].data);
        },
        _ => {},
    }
}

} // verus!
