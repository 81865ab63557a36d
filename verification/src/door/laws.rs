//! What holds of the lock whatever accounts a call names.

use vstd::prelude::*;
use crate::account::AccountView;
use crate::door::processor::{
    admin_registry, authorized, config_initialized, moved, seats_claimed, turned,
};
use crate::door::state::ConfigView;
use crate::error::EngineError;
use crate::multisig::state::{count_true, MultisigView, MULTISIG_LEN};

verus! {

/// Whether one of the first `count` signers is the key in roster seat `seat`.
pub open spec fn seat_claimed(registry: MultisigView, signers: Seq<AccountView>, count: int, seat: int) -> bool {
    exists|j: int| 0 <= j < count && registry.seats(seat, #[trigger] signers[j].key)
}

/// Whether signer `j` holds a roster seat, appears for the first time in the
/// list, and has not signed.
pub open spec fn unsigned_claim(registry: MultisigView, signers: Seq<AccountView>, j: int) -> bool {
    &&& !signers[j].is_signer
    &&& exists|seat: int| registry.seats(seat, signers[j].key)
    &&& forall|earlier: int| 0 <= earlier < j ==> (#[trigger] signers[earlier]).key != signers[j].key
}

/// The seats that a list of signers claims are the seats whose key is in the
/// list, in whatever order and however often. The claim is refused exactly
/// where a roster member has not signed at its first appearance.
pub proof fn lemma_seats_claimed(registry: MultisigView, signers: Seq<AccountView>, count: int)
    requires
        0 <= count <= signers.len(),
    ensures
        match seats_claimed(registry, signers, count) {
            Ok(flags) => {
                &&& flags.len() == 11
                &&& forall|seat: int|
                    0 <= seat < 11 ==> flags[seat] == seat_claimed(registry, signers, count, seat)
                &&& forall|j: int| 0 <= j < count ==> !unsigned_claim(registry, signers, j)
            },
            Err(e) => {
                &&& e == EngineError::MissingRequiredSignature
                &&& exists|j: int| 0 <= j < count && unsigned_claim(registry, signers, j)
            },
        },
    decreases count,
{
    if count > 0 {
        lemma_seats_claimed(registry, signers, count - 1);
        let last = count - 1;
        let key = signers[last].key;
        match seats_claimed(registry, signers, last) {
            Err(_) => {
                let j = choose|j: int| 0 <= j < last && unsigned_claim(registry, signers, j);
                assert(0 <= j < count && unsigned_claim(registry, signers, j));
            },
            Ok(flags) => {
                assert forall|seat: int| 0 <= seat < 11 implies (flags[seat] || registry.seats(seat, key))
                    == seat_claimed(registry, signers, count, seat) by {
                    if registry.seats(seat, key) {
                        assert(registry.seats(seat, signers[last].key));
                    }
                    if seat_claimed(registry, signers, count, seat) {
                        let j = choose|j: int| 0 <= j < count && registry.seats(seat, #[trigger] signers[j].key);
                        if j < last {
                            assert(seat_claimed(registry, signers, last, seat));
                        }
                    }
                    if flags[seat] {
                        let j = choose|j: int| 0 <= j < last && registry.seats(seat, #[trigger] signers[j].key);
                        assert(0 <= j < count && registry.seats(seat, signers[j].key));
                    }
                }
                // Whether the last signer still has a seat to mark says whether it is new to the list.
                if registry.has_open_seat(flags, key) {
                    let open = choose|seat: int| registry.seats(seat, key) && !flags[seat];
                    assert forall|earlier: int| 0 <= earlier < last implies (#[trigger] signers[earlier]).key
                        != key by {
                        if signers[earlier].key == key {
                            assert(registry.seats(open, signers[earlier].key));
                            assert(seat_claimed(registry, signers, last, open));
                        }
                    }
                    if !signers[last].is_signer {
                        assert(unsigned_claim(registry, signers, last));
                    }
                } else {
                    if exists|seat: int| registry.seats(seat, key) {
                        let seat = choose|seat: int| registry.seats(seat, key);
                        assert(flags[seat]);
                        let j = choose|j: int| 0 <= j < last && registry.seats(seat, #[trigger] signers[j].key);
                        assert(signers[j].key == key);
                    }
                    assert(!unsigned_claim(registry, signers, last));
                }
            },
        }
    } else {
        assert(forall|seat: int| 0 <= seat < 11 ==> !seat_claimed(registry, signers, count, seat));
    }
}

/// A lock whose admin is a registry turns only where the keys of enough
/// roster seats are among the signers of the call.
pub proof fn lemma_lock_needs_quorum(program_id: Seq<u8>, accounts: Seq<AccountView>, lock: bool)
    requires
        accounts.len() >= 2,
        accounts[1].owner == program_id,
        accounts[1].data.len() == MULTISIG_LEN,
        turned(program_id, accounts, lock).is_ok(),
    ensures
        admin_registry(accounts[1].data).is_ok(),
        ({
            let registry = admin_registry(accounts[1].data).unwrap();
            let signers = accounts.skip(2);
            let claimed = Seq::new(11, |seat: int| seat_claimed(registry, signers, signers.len() as int, seat));
            count_true(claimed, registry.n as int) >= registry.m
        }),
{
    let registry = admin_registry(accounts[1].data).unwrap();
    let signers = accounts.skip(2);
    lemma_seats_claimed(registry, signers, signers.len() as int);
    let flags = seats_claimed(registry, signers, signers.len() as int).unwrap();
    let claimed = Seq::new(11, |seat: int| seat_claimed(registry, signers, signers.len() as int, seat));
    assert(flags =~= claimed);
}

/// Turning the lock changes how it stands and nothing else, and a lock is
/// never turned to where it stands already.
pub proof fn lemma_lock_turns(program_id: Seq<u8>, accounts: Seq<AccountView>, lock: bool)
    requires
        turned(program_id, accounts, lock).is_ok(),
    ensures
        ConfigView::load(accounts[0].data).is_ok(),
        ConfigView::load(accounts[0].data).unwrap().is_initialized,
        ConfigView::load(accounts[0].data).unwrap().is_locked != lock,
        accounts[1].key == ConfigView::load(accounts[0].data).unwrap().admin,
        authorized(program_id, accounts[1], accounts.skip(2)).is_ok(),
        ConfigView::load(turned(program_id, accounts, lock).unwrap()[0].data) == Ok::<
            ConfigView,
            EngineError,
        >(ConfigView { is_locked: lock, ..ConfigView::load(accounts[0].data).unwrap() }),
{
    let config = ConfigView::load(accounts[0].data).unwrap();
    crate::door::state::lemma_record_decode_encode(accounts[0].data);
    let after = ConfigView { is_locked: lock, ..config };
    crate::door::state::lemma_record_round_trip(
        after.admin,
        after.is_locked,
        after.is_initialized,
        accounts[0].data.skip(34),
    );
}

/// A lock or a door that another program owns is never acted on, whatever
/// its bytes say.
pub proof fn lemma_foreign_accounts_refused(program_id: Seq<u8>, accounts: Seq<AccountView>, flag: bool)
    ensures
        accounts.len() >= 2 && accounts[0].owner != program_id ==> turned(program_id, accounts, flag)
            == Err::<Seq<AccountView>, EngineError>(EngineError::IncorrectOwner),
        accounts.len() >= 3 && (accounts[0].owner != program_id || accounts[1].owner != program_id)
            ==> moved(program_id, accounts, flag) == Err::<Seq<AccountView>, EngineError>(
            EngineError::IncorrectOwner,
        ),
{
}

/// The lock is set up at the derived address alone: for every other
/// candidate, and where nothing can be derived, setting it up is refused.
pub proof fn lemma_config_address_gate(
    derived: Option<(Seq<u8>, u8)>,
    accounts: Seq<AccountView>,
    key: Seq<u8>,
)
    ensures
        config_initialized(derived, accounts, key).is_ok() ==> derived.is_some() && accounts[0].key
            == derived.unwrap().0,
        accounts.len() >= 1 && (derived.is_none() || accounts[0].key != derived.unwrap().0)
            ==> config_initialized(derived, accounts, key) == Err::<Seq<AccountView>, EngineError>(
            EngineError::AddressMismatch,
        ),
{
}

} // verus!
