use multisig_engine::account::AccountInfo;
use multisig_engine::address::find_program_address;
use multisig_engine::door::processor::{
    initialize_config_with_authority, process_instruction, validate_owner, Close, InitializeConfig,
    InitializeDoor, InitializeMultisig, Lock, Open, Unlock,
};
use multisig_engine::door::state::{Config, Door};
use multisig_engine::error::EngineError;
use multisig_engine::multisig::processor::AllocatePDA;
use multisig_engine::multisig::state::Multisig;
use multisig_engine::pubkey::Pubkey;
use multisig_engine::runtime::Effect;

fn key(fill: u8) -> Pubkey {
    Pubkey::new_from_array([fill; 32])
}

fn program() -> Pubkey {
    key(210)
}

fn config_key() -> Pubkey {
    find_program_address(&program()).expect("an address can be derived").0
}

fn storage(at: Pubkey) -> AccountInfo {
    AccountInfo { key: at, owner: program(), is_signer: false, is_writable: true, data: vec![0u8; 1024] }
}

fn wallet(at: Pubkey, is_signer: bool) -> AccountInfo {
    AccountInfo { key: at, owner: key(0), is_signer, is_writable: false, data: Vec::new() }
}

/// A lock whose admin is the given key, as `InitializeConfig` leaves it: on.
fn config(admin: Pubkey) -> AccountInfo {
    let mut accounts = vec![storage(config_key())];
    assert_eq!(InitializeConfig(&program(), &mut accounts, admin), Ok(()));
    accounts.swap_remove(0)
}

fn unlocked(admin: Pubkey) -> AccountInfo {
    let mut accounts = vec![config(admin), wallet(admin, true)];
    assert_eq!(Unlock(&program(), &mut accounts), Ok(()));
    accounts.swap_remove(0)
}

fn door(opener: Pubkey) -> AccountInfo {
    let mut accounts = vec![storage(key(30))];
    assert_eq!(InitializeDoor(&mut accounts, opener), Ok(()));
    accounts.swap_remove(0)
}

/// A registry of 355 bytes at key 90 with the roster K1, K2, K3.
fn admin_registry(m: u8) -> AccountInfo {
    let mut slot = storage(key(90));
    slot.data.truncate(355);
    let mut accounts = vec![slot, wallet(key(1), false), wallet(key(2), false), wallet(key(3), false)];
    assert_eq!(InitializeMultisig(&mut accounts, m), Ok(()));
    accounts.swap_remove(0)
}

fn stored_config(account: &AccountInfo) -> Config {
    Config::unpack_unchecked(&account.data).unwrap()
}

fn stored_door(account: &AccountInfo) -> Door {
    Door::unpack_unchecked(&account.data).unwrap()
}

#[test]
fn a_door_is_set_up_closed_and_once() {
    let first = door(key(5));
    assert_eq!(stored_door(&first), Door { key: key(5), is_initialized: true, is_opened: false });
    let mut accounts = vec![first.clone()];
    assert_eq!(InitializeDoor(&mut accounts, key(6)), Err(EngineError::AlreadyInitialized));
    assert_eq!(accounts[0], first);
    let mut none: Vec<AccountInfo> = Vec::new();
    assert_eq!(InitializeDoor(&mut none, key(6)), Err(EngineError::NotEnoughAccountKeys));
    let mut short = storage(key(30));
    short.data.truncate(34);
    assert_eq!(InitializeDoor(&mut [short], key(6)), Err(EngineError::CorruptData));
}

#[test]
fn a_lock_is_set_up_locked_at_the_derived_address_and_once() {
    let first = config(key(7));
    assert_eq!(stored_config(&first), Config { admin: key(7), is_locked: true, is_initialized: true });
    let mut accounts = vec![first.clone()];
    assert_eq!(InitializeConfig(&program(), &mut accounts, key(8)), Err(EngineError::AlreadyInitialized));
    assert_eq!(accounts[0], first);

    let mut elsewhere = vec![storage(key(31))];
    let before = elsewhere.clone();
    assert_eq!(InitializeConfig(&program(), &mut elsewhere, key(7)), Err(EngineError::AddressMismatch));
    assert_eq!(elsewhere, before);
    assert_eq!(
        initialize_config_with_authority(&None, &mut elsewhere, key(7)),
        Err(EngineError::AddressMismatch)
    );
    assert_eq!(initialize_config_with_authority(&Some((key(31), 1)), &mut elsewhere, key(7)), Ok(()));
    assert_eq!(stored_config(&elsewhere[0]).admin, key(7));
    let mut none: Vec<AccountInfo> = Vec::new();
    assert_eq!(InitializeConfig(&program(), &mut none, key(7)), Err(EngineError::NotEnoughAccountKeys));
}

#[test]
fn a_single_admin_turns_the_lock_by_signing() {
    let mut accounts = vec![config(key(7)), wallet(key(7), true)];
    assert_eq!(Lock(&program(), &mut accounts), Err(EngineError::InvalidArgument));
    assert_eq!(Unlock(&program(), &mut accounts), Ok(()));
    assert!(!stored_config(&accounts[0]).is_locked);
    assert_eq!(Unlock(&program(), &mut accounts), Err(EngineError::InvalidArgument));
    assert_eq!(Lock(&program(), &mut accounts), Ok(()));
    assert_eq!(stored_config(&accounts[0]), Config { admin: key(7), is_locked: true, is_initialized: true });
}

#[test]
fn the_lock_is_refused_to_everyone_else() {
    let locked = config(key(7));
    let mut accounts = vec![locked.clone(), wallet(key(7), false)];
    assert_eq!(Unlock(&program(), &mut accounts), Err(EngineError::MissingRequiredSignature));
    assert_eq!(accounts[0], locked);

    let mut accounts = vec![locked.clone(), wallet(key(8), true)];
    assert_eq!(Unlock(&program(), &mut accounts), Err(EngineError::InvalidArgument));
    assert_eq!(accounts[0], locked);

    let mut foreign = locked.clone();
    foreign.owner = key(99);
    let mut accounts = vec![foreign, wallet(key(7), true)];
    assert_eq!(Unlock(&program(), &mut accounts), Err(EngineError::IncorrectOwner));

    let mut accounts = vec![locked.clone()];
    assert_eq!(Unlock(&program(), &mut accounts), Err(EngineError::NotEnoughAccountKeys));
    assert_eq!(Lock(&program(), &mut accounts), Err(EngineError::NotEnoughAccountKeys));

    let mut broken = locked.clone();
    broken.data[32] = 9;
    let mut accounts = vec![broken, wallet(key(7), true)];
    assert_eq!(Unlock(&program(), &mut accounts), Err(EngineError::CorruptData));
}

#[test]
fn a_lock_that_was_never_set_up_does_not_turn() {
    let mut accounts = vec![storage(config_key()), wallet(key(0), true)];
    let before = accounts.clone();
    assert_eq!(Lock(&program(), &mut accounts), Err(EngineError::InvalidArgument));
    assert_eq!(Unlock(&program(), &mut accounts), Err(EngineError::InvalidArgument));
    assert_eq!(accounts, before);
}

#[test]
fn a_registry_admin_turns_the_lock_with_its_quorum() {
    let registry = admin_registry(2);
    let locked = config(key(90));
    let mut accounts = vec![locked.clone(), registry.clone(), wallet(key(3), true), wallet(key(1), true)];
    assert_eq!(Unlock(&program(), &mut accounts), Ok(()));
    assert!(!stored_config(&accounts[0]).is_locked);
    assert_eq!(accounts[1], registry);
    assert_eq!(Lock(&program(), &mut accounts), Ok(()));
    assert!(stored_config(&accounts[0]).is_locked);
}

#[test]
fn a_registry_admin_below_its_quorum_is_refused() {
    let registry = admin_registry(2);
    let locked = config(key(90));
    let attempts: Vec<Vec<AccountInfo>> = vec![
        vec![],
        vec![wallet(key(1), true)],
        vec![wallet(key(1), true), wallet(key(1), true)],
        vec![wallet(key(1), true), wallet(key(8), true), wallet(key(9), true)],
    ];
    for signers in attempts {
        let mut accounts = vec![locked.clone(), registry.clone()];
        accounts.extend(signers);
        let before = accounts.clone();
        assert_eq!(Unlock(&program(), &mut accounts), Err(EngineError::MissingRequiredSignature));
        assert_eq!(accounts, before);
    }
    // The registry's own signature counts for nothing.
    let mut signing = registry.clone();
    signing.is_signer = true;
    let mut accounts = vec![locked.clone(), signing, wallet(key(1), true)];
    assert_eq!(Unlock(&program(), &mut accounts), Err(EngineError::MissingRequiredSignature));
}

#[test]
fn a_roster_member_must_have_signed_where_it_first_appears() {
    let registry = admin_registry(2);
    let locked = config(key(90));
    let mut accounts = vec![
        locked.clone(),
        registry.clone(),
        wallet(key(1), true),
        wallet(key(2), false),
        wallet(key(3), true),
    ];
    assert_eq!(Unlock(&program(), &mut accounts), Err(EngineError::MissingRequiredSignature));
    assert_eq!(accounts[0], locked);
    // Once its seat is taken, a key may appear again without a signature.
    let mut accounts = vec![
        locked.clone(),
        registry.clone(),
        wallet(key(1), true),
        wallet(key(2), true),
        wallet(key(2), false),
        wallet(key(77), false),
    ];
    assert_eq!(Unlock(&program(), &mut accounts), Ok(()));
}

#[test]
fn an_admin_registry_must_be_whole() {
    let locked = config(key(90));
    let mut blank = storage(key(90));
    blank.data.truncate(355);
    let mut accounts = vec![locked.clone(), blank.clone(), wallet(key(1), true)];
    assert_eq!(Unlock(&program(), &mut accounts), Err(EngineError::UninitializedAccount));

    let mut broken = admin_registry(1);
    broken.data[2] = 4;
    let mut accounts = vec![locked.clone(), broken, wallet(key(1), true)];
    assert_eq!(Unlock(&program(), &mut accounts), Err(EngineError::CorruptData));

    let mut oversized = admin_registry(1);
    oversized.data[1] = 12;
    let mut accounts = vec![locked.clone(), oversized, wallet(key(1), true)];
    assert_eq!(Unlock(&program(), &mut accounts), Err(EngineError::CorruptData));

    // An account of another length, or of another program, is a single signer.
    let mut longer = admin_registry(1);
    longer.data.push(0);
    longer.is_signer = true;
    let mut accounts = vec![locked.clone(), longer];
    assert_eq!(Unlock(&program(), &mut accounts), Ok(()));
    let mut foreign = admin_registry(3);
    foreign.owner = key(0);
    foreign.is_signer = true;
    let mut accounts = vec![locked.clone(), foreign];
    assert_eq!(Unlock(&program(), &mut accounts), Ok(()));
}

#[test]
fn an_admin_registry_is_set_up_once_in_storage_of_its_own_length() {
    let registry = admin_registry(2);
    let stored = Multisig::unpack_from_slice(&registry.data).unwrap();
    assert_eq!((stored.m, stored.n, stored.is_initialized), (2, 3, true));
    assert_eq!(&stored.signers[..4], &[key(1), key(2), key(3), key(0)]);

    let mut accounts = vec![registry.clone(), wallet(key(4), false)];
    assert_eq!(InitializeMultisig(&mut accounts, 1), Err(EngineError::AlreadyInitialized));
    assert_eq!(accounts[0], registry);

    let mut accounts = vec![storage(key(90)), wallet(key(4), false)];
    assert_eq!(InitializeMultisig(&mut accounts, 1), Err(EngineError::CorruptData));
    let mut slot = storage(key(90));
    slot.data.truncate(355);
    assert_eq!(InitializeMultisig(&mut [slot.clone()], 1), Err(EngineError::InvalidThreshold));
    assert_eq!(
        InitializeMultisig(&mut [slot.clone(), wallet(key(4), false)], 0),
        Err(EngineError::InvalidThreshold)
    );
    slot.data[2] = 3;
    assert_eq!(InitializeMultisig(&mut [slot, wallet(key(4), false)], 1), Err(EngineError::CorruptData));
    let mut none: Vec<AccountInfo> = Vec::new();
    assert_eq!(InitializeMultisig(&mut none, 1), Err(EngineError::NotEnoughAccountKeys));
}

#[test]
fn the_door_opens_to_its_key_while_the_lock_is_off() {
    let mut accounts = vec![door(key(5)), unlocked(key(7)), wallet(key(5), true)];
    assert_eq!(Open(&program(), &mut accounts), Ok(()));
    assert_eq!(stored_door(&accounts[0]), Door { key: key(5), is_initialized: true, is_opened: true });
    assert_eq!(Open(&program(), &mut accounts), Err(EngineError::InvalidArgument));
    assert_eq!(Close(&program(), &mut accounts), Ok(()));
    assert!(!stored_door(&accounts[0]).is_opened);
    assert_eq!(Close(&program(), &mut accounts), Err(EngineError::InvalidArgument));
}

#[test]
fn the_door_stays_as_it_is_while_the_lock_is_on() {
    let mut accounts = vec![door(key(5)), config(key(7)), wallet(key(5), true)];
    let before = accounts.clone();
    assert_eq!(Open(&program(), &mut accounts), Err(EngineError::InvalidArgument));
    assert_eq!(Close(&program(), &mut accounts), Err(EngineError::InvalidArgument));
    assert_eq!(accounts, before);
}

#[test]
fn opening_asks_for_the_key_and_its_signature() {
    let closed = door(key(5));
    let mut accounts = vec![closed.clone(), unlocked(key(7)), wallet(key(6), true)];
    assert_eq!(Open(&program(), &mut accounts), Err(EngineError::InvalidArgument));
    accounts[2] = wallet(key(5), false);
    assert_eq!(Open(&program(), &mut accounts), Err(EngineError::MissingRequiredSignature));
    assert_eq!(accounts[0], closed);
}

#[test]
fn closing_asks_for_no_key() {
    let mut accounts = vec![door(key(5)), unlocked(key(7)), wallet(key(5), true)];
    assert_eq!(Open(&program(), &mut accounts), Ok(()));
    accounts[2] = wallet(key(66), false);
    assert_eq!(Close(&program(), &mut accounts), Ok(()));
    assert!(!stored_door(&accounts[0]).is_opened);
}

#[test]
fn door_and_lock_must_belong_to_the_program() {
    let mut foreign_door = door(key(5));
    foreign_door.owner = key(99);
    let mut accounts = vec![foreign_door, unlocked(key(7)), wallet(key(5), true)];
    assert_eq!(Open(&program(), &mut accounts), Err(EngineError::IncorrectOwner));
    assert_eq!(Close(&program(), &mut accounts), Err(EngineError::IncorrectOwner));
    let mut foreign_lock = unlocked(key(7));
    foreign_lock.owner = key(99);
    let mut accounts = vec![door(key(5)), foreign_lock, wallet(key(5), true)];
    assert_eq!(Open(&program(), &mut accounts), Err(EngineError::IncorrectOwner));
    let mut accounts = vec![door(key(5)), unlocked(key(7))];
    assert_eq!(Open(&program(), &mut accounts), Err(EngineError::NotEnoughAccountKeys));
    assert_eq!(Close(&program(), &mut accounts), Err(EngineError::NotEnoughAccountKeys));
}

#[test]
fn an_owner_is_the_expected_key_and_has_signed() {
    assert_eq!(validate_owner(&key(5), &wallet(key(5), true)), Ok(()));
    assert_eq!(validate_owner(&key(5), &wallet(key(5), false)), Err(EngineError::MissingRequiredSignature));
    assert_eq!(validate_owner(&key(5), &wallet(key(6), true)), Err(EngineError::InvalidArgument));
    assert_eq!(validate_owner(&key(5), &wallet(key(6), false)), Err(EngineError::InvalidArgument));
}

#[test]
fn door_commands_are_dispatched_by_their_opcode() {
    let mut command = vec![0u8];
    command.extend([5u8; 32]);
    let mut accounts = vec![storage(key(30))];
    assert_eq!(process_instruction(&program(), &mut accounts, &command), Ok(Effect::Done));
    assert_eq!(accounts[0], door(key(5)));
    let door = accounts.swap_remove(0);

    command[0] = 1;
    for byte in command.iter_mut().skip(1) {
        *byte = 7;
    }
    let mut accounts = vec![storage(config_key())];
    assert_eq!(process_instruction(&program(), &mut accounts, &command), Ok(Effect::Done));
    assert_eq!(accounts[0], config(key(7)));

    accounts.push(wallet(key(7), true));
    assert_eq!(process_instruction(&program(), &mut accounts, &[2]), Err(EngineError::InvalidArgument));
    assert_eq!(process_instruction(&program(), &mut accounts, &[3]), Ok(Effect::Done));
    assert_eq!(accounts[0], unlocked(key(7)));
    let lock = accounts.swap_remove(0);

    let mut accounts = vec![door, lock.clone(), wallet(key(5), true)];
    assert_eq!(process_instruction(&program(), &mut accounts, &[5]), Err(EngineError::InvalidArgument));
    assert_eq!(process_instruction(&program(), &mut accounts, &[4]), Ok(Effect::Done));
    assert!(stored_door(&accounts[0]).is_opened);
    assert_eq!(process_instruction(&program(), &mut accounts, &[5]), Ok(Effect::Done));
    assert!(!stored_door(&accounts[0]).is_opened);

    let mut accounts = vec![lock, wallet(key(7), true)];
    assert_eq!(process_instruction(&program(), &mut accounts, &[2]), Ok(Effect::Done));
    assert!(stored_config(&accounts[0]).is_locked);

    let mut accounts = vec![wallet(key(0), false), wallet(config_key(), false), wallet(key(5), true)];
    let expected = AllocatePDA(&program(), &accounts).unwrap();
    assert_eq!(process_instruction(&program(), &mut accounts, &[6]), Ok(Effect::Allocate(expected)));
    accounts[1].key = key(1);
    assert_eq!(process_instruction(&program(), &mut accounts, &[6]), Err(EngineError::AddressMismatch));

    let mut slot = storage(key(90));
    slot.data.truncate(355);
    let mut accounts = vec![slot, wallet(key(1), false), wallet(key(2), false), wallet(key(3), false)];
    assert_eq!(process_instruction(&program(), &mut accounts, &[7, 2]), Ok(Effect::Done));
    assert_eq!(accounts[0], admin_registry(2));
    let before = accounts.clone();
    assert_eq!(process_instruction(&program(), &mut accounts, &[8]), Err(EngineError::InvalidArgument));
    assert_eq!(process_instruction(&program(), &mut accounts, &[]), Err(EngineError::MalformedInstruction));
    assert_eq!(accounts, before);
}

#[test]
fn a_forged_configuration_reads_well_and_is_refused_for_its_owner() {
    let attacker = key(66);
    let mut forged = storage(key(31));
    forged.owner = attacker;
    let mut accounts = vec![forged, wallet(key(13), true)];
    assert_eq!(
        multisig_engine::door::attack::process_instruction(&attacker, &mut accounts, &[]),
        Ok(())
    );
    let forged = accounts.swap_remove(0);
    assert_eq!(stored_config(&forged), Config { admin: key(13), is_locked: false, is_initialized: true });

    let mut accounts = vec![door(key(5)), forged.clone(), wallet(key(5), true)];
    let before = accounts.clone();
    assert_eq!(Open(&program(), &mut accounts), Err(EngineError::IncorrectOwner));
    assert_eq!(accounts, before);
    let mut accounts = vec![forged, wallet(key(13), true)];
    assert_eq!(Lock(&program(), &mut accounts), Err(EngineError::IncorrectOwner));

    let mut alone = vec![storage(key(31))];
    assert_eq!(
        multisig_engine::door::attack::process_instruction(&attacker, &mut alone, &[]),
        Err(EngineError::NotEnoughAccountKeys)
    );
    let mut short = storage(key(31));
    short.data.truncate(100);
    assert_eq!(
        multisig_engine::door::attack::process_instruction(&attacker, &mut [short, wallet(key(13), true)], &[]),
        Err(EngineError::CorruptData)
    );
}
