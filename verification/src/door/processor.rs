//! The commands of the door.

use vstd::prelude::*;
use crate::account::{account_views, AccountInfo, AccountView};
use crate::address::{derived_view, find_program_address, gate, registry_address, require_derived};
use crate::door::instruction::{DoorInstruction, DoorInstructionView};
use crate::door::state::{Config, ConfigView, Door, DoorView};
use crate::error::EngineError;
use crate::multisig::instruction::MAX_SIGNERS;
use crate::multisig::processor::{
    allocation, check_account_owner, completed, enroll, keys_from, settled, with_first_data,
    AllocatePDA,
};
use crate::multisig::state::{count_flags, count_true, no_flags, Multisig, MultisigView, MULTISIG_LEN};
use crate::pubkey::{cmp_pubkeys, Pubkey};
use crate::runtime::{Effect, EffectView};

verus! {

/// What setting up a door leaves behind. The first account is the door.
pub open spec fn door_initialized(accounts: Seq<AccountView>, key: Seq<u8>) -> Result<
    Seq<AccountView>,
    EngineError,
> {
    if accounts.len() < 1 {
        Err(EngineError::NotEnoughAccountKeys)
    } else {
        match DoorView::load(accounts[0].data) {
            Err(e) => Err(e),
            Ok(door) => if door.is_initialized {
                Err(EngineError::AlreadyInitialized)
            } else {
                Ok(
                    with_first_data(
                        accounts,
                        DoorView { key, is_initialized: true, is_opened: false }.store(accounts[0].data),
                    ),
                )
            },
        }
    }
}

/// Sets up a closed door that `key` opens. A door is set up once.
#[allow(non_snake_case)]
pub fn InitializeDoor(accounts: &mut [AccountInfo], key: Pubkey) -> (result: Result<(), EngineError>)
    ensures
        settled(
            door_initialized(account_views(old(accounts)@), key@),
            account_views(old(accounts)@),
            result,
            account_views(final(accounts)@),
        ),
{
    if accounts.len() < 1 {
        return Err(EngineError::NotEnoughAccountKeys);
    }
    let mut door = Door::unpack_unchecked(accounts[0].data.as_slice())?;
    if door.is_initialized {
        return Err(EngineError::AlreadyInitialized);
    }
    door.key = key;
    door.is_initialized = true;
    door.is_opened = false;
    let packed = door.pack(accounts[0].data.as_mut_slice());
    proof {
        let before = account_views(old(accounts)@);
        assert(account_views(accounts@) =~= with_first_data(before, door@.store(before[0].data)));
    }
    packed
}

/// What setting up the lock leaves behind. The first account is the
/// configuration and must be at the derived address.
pub open spec fn config_initialized(
    derived: Option<(Seq<u8>, u8)>,
    accounts: Seq<AccountView>,
    key: Seq<u8>,
) -> Result<Seq<AccountView>, EngineError> {
    if accounts.len() < 1 {
        Err(EngineError::NotEnoughAccountKeys)
    } else {
        match gate(derived, accounts[0].key) {
            Err(e) => Err(e),
            Ok(_) => match ConfigView::load(accounts[0].data) {
                Err(e) => Err(e),
                Ok(config) => if config.is_initialized {
                    Err(EngineError::AlreadyInitialized)
                } else {
                    Ok(
                        with_first_data(
                            accounts,
                            ConfigView { admin: key, is_locked: true, is_initialized: true }.store(
                                accounts[0].data,
                            ),
                        ),
                    )
                },
            },
        }
    }
}

/// Sets up the lock with `key` as its admin, given what the program derives
/// as its address.
pub fn initialize_config_with_authority(
    derived: &Option<(Pubkey, u8)>,
    accounts: &mut [AccountInfo],
    key: Pubkey,
) -> (result: Result<(), EngineError>)
    ensures
        settled(
            config_initialized(derived_view(*derived), account_views(old(accounts)@), key@),
            account_views(old(accounts)@),
            result,
            account_views(final(accounts)@),
        ),
{
    if accounts.len() < 1 {
        return Err(EngineError::NotEnoughAccountKeys);
    }
    require_derived(derived, &accounts[0].key)?;
    let mut config = Config::unpack_unchecked(accounts[0].data.as_slice())?;
    if config.is_initialized {
        return Err(EngineError::AlreadyInitialized);
    }
    config.admin = key;
    config.is_locked = true;
    config.is_initialized = true;
    let packed = config.pack(accounts[0].data.as_mut_slice());
    proof {
        let before = account_views(old(accounts)@);
        assert(account_views(accounts@) =~= with_first_data(before, config@.store(before[0].data)));
    }
    packed
}

/// Sets up the lock, locked, with `key` as its admin, in the account at the
/// address that `program_id` derives. A lock is set up once.
#[allow(non_snake_case)]
pub fn InitializeConfig(program_id: &Pubkey, accounts: &mut [AccountInfo], key: Pubkey) -> (result: Result<
    (),
    EngineError,
>)
    ensures
        settled(
            config_initialized(registry_address(program_id@), account_views(old(accounts)@), key@),
            account_views(old(accounts)@),
            result,
            account_views(final(accounts)@),
        ),
{
    let derived = find_program_address(program_id);
    initialize_config_with_authority(&derived, accounts, key)
}

/// The flags of the roster seats of `registry` that the first `count` of
/// `signers` occupy, marked signer after signer. A signer with a seat still
/// to mark must have signed the call.
pub open spec fn seats_claimed(registry: MultisigView, signers: Seq<AccountView>, count: int) -> Result<
    Seq<bool>,
    EngineError,
>
    decreases count,
{
    if count <= 0 {
        Ok(no_flags())
    } else {
        match seats_claimed(registry, signers, count - 1) {
            Err(e) => Err(e),
            Ok(flags) => registry.mark(flags, signers[count - 1].key, signers[count - 1].is_signer),
        }
    }
}

/// Marks the roster seats that the accounts from `from` on occupy.
fn claim_seats(multisig: &Multisig, accounts: &[AccountInfo], from: usize) -> (claimed: Result<
    [bool; MAX_SIGNERS],
    EngineError,
>)
    requires
        multisig.n <= MAX_SIGNERS,
        from <= accounts.len(),
    ensures
        match claimed {
            Ok(flags) => seats_claimed(
                multisig@,
                account_views(accounts@).skip(from as int),
                accounts.len() - from,
            ) == Ok::<Seq<bool>, EngineError>(flags@),
            Err(e) => seats_claimed(
                multisig@,
                account_views(accounts@).skip(from as int),
                accounts.len() - from,
            ) == Err::<Seq<bool>, EngineError>(e),
        },
{
    let ghost signers = account_views(accounts@).skip(from as int);
    let mut matched: [bool; MAX_SIGNERS] = [false; MAX_SIGNERS];
    assert(matched@ =~= no_flags());
    let mut i: usize = from;
    while i < accounts.len()
        invariant
            from <= i <= accounts.len(),
            multisig.n <= MAX_SIGNERS,
            signers == account_views(accounts@).skip(from as int),
            seats_claimed(multisig@, signers, i - from) == Ok::<Seq<bool>, EngineError>(matched@),
        decreases accounts.len() - i,
    {
        let signer = &accounts[i];
        assert(signers[i - from] == signer@);
        let marked = multisig.mark_seats(&mut matched, &signer.key, signer.is_signer);
        if let Err(e) = marked {
            proof {
                lemma_claim_refused(multisig@, signers, i - from + 1, accounts.len() - from);
            }
            return Err(e);
        }
        i += 1;
    }
    Ok(matched)
}

/// Once a signer has been refused, so is every longer list of signers.
proof fn lemma_claim_refused(registry: MultisigView, signers: Seq<AccountView>, at: int, count: int)
    requires
        at <= count,
        seats_claimed(registry, signers, at).is_err(),
    ensures
        seats_claimed(registry, signers, count) == seats_claimed(registry, signers, at),
    decreases count - at,
{
    if at < count {
        lemma_claim_refused(registry, signers, at, count - 1);
    }
}

/// The registry that an admin account of 355 bytes stores: its roster must
/// have been set and must fit its eleven seats.
pub open spec fn admin_registry(data: Seq<u8>) -> Result<MultisigView, EngineError> {
    match MultisigView::decode(data) {
        Err(e) => Err(e),
        Ok(registry) => if !registry.is_initialized {
            Err(EngineError::UninitializedAccount)
        } else if registry.n > 11 {
            Err(EngineError::CorruptData)
        } else {
            Ok(registry)
        },
    }
}

/// Whether the admin stands behind the call. An admin account that the
/// program owns and that has the length of a registry is a registry: enough
/// of its roster must be among `signers` and have signed. Any other admin
/// must have signed itself.
pub open spec fn authorized(program_id: Seq<u8>, admin: AccountView, signers: Seq<AccountView>) -> Result<
    (),
    EngineError,
> {
    if admin.owner == program_id && admin.data.len() == MULTISIG_LEN {
        match admin_registry(admin.data) {
            Err(e) => Err(e),
            Ok(registry) => match seats_claimed(registry, signers, signers.len() as int) {
                Err(e) => Err(e),
                Ok(flags) => if count_true(flags, registry.n as int) < registry.m {
                    Err(EngineError::MissingRequiredSignature)
                } else {
                    Ok(())
                },
            },
        }
    } else if !admin.is_signer {
        Err(EngineError::MissingRequiredSignature)
    } else {
        Ok(())
    }
}

/// Checks that the admin, the second account, stands behind the call; the
/// accounts behind it are the signers of a registry's roster.
fn authorize(program_id: &Pubkey, accounts: &[AccountInfo]) -> (checked: Result<(), EngineError>)
    requires
        accounts.len() >= 2,
    ensures
        checked == authorized(
            program_id@,
            account_views(accounts@)[1],
            account_views(accounts@).skip(2),
        ),
{
    let admin_info = &accounts[1];
    if *program_id == admin_info.owner && admin_info.data.len() == MULTISIG_LEN {
        let multisig = Multisig::unpack_from_slice(admin_info.data.as_slice())?;
        if !multisig.is_initialized {
            return Err(EngineError::UninitializedAccount);
        }
        if multisig.n as usize > MAX_SIGNERS {
            return Err(EngineError::CorruptData);
        }
        let matched = claim_seats(&multisig, accounts, 2)?;
        let num_signers = count_flags(&matched, multisig.n as usize);
        if num_signers < multisig.m {
            return Err(EngineError::MissingRequiredSignature);
        }
        Ok(())
    } else if !admin_info.is_signer {
        Err(EngineError::MissingRequiredSignature)
    } else {
        Ok(())
    }
}

/// What turning the lock leaves behind. The accounts are the configuration,
/// its admin and, where the admin is a registry, the signers of its roster.
pub open spec fn turned(program_id: Seq<u8>, accounts: Seq<AccountView>, lock: bool) -> Result<
    Seq<AccountView>,
    EngineError,
> {
    if accounts.len() < 2 {
        Err(EngineError::NotEnoughAccountKeys)
    } else if accounts[0].owner != program_id {
        Err(EngineError::IncorrectOwner)
    } else {
        match ConfigView::load(accounts[0].data) {
            Err(e) => Err(e),
            Ok(config) => if accounts[1].key != config.admin {
                Err(EngineError::InvalidArgument)
            } else {
                match authorized(program_id, accounts[1], accounts.skip(2)) {
                    Err(e) => Err(e),
                    Ok(_) => if !config.is_initialized || config.is_locked == lock {
                        Err(EngineError::InvalidArgument)
                    } else {
                        Ok(
                            with_first_data(
                                accounts,
                                ConfigView { is_locked: lock, ..config }.store(accounts[0].data),
                            ),
                        )
                    },
                }
            },
        }
    }
}

/// Turns the lock on or off.
fn turn(program_id: &Pubkey, accounts: &mut [AccountInfo], lock: bool) -> (result: Result<(), EngineError>)
    ensures
        settled(
            turned(program_id@, account_views(old(accounts)@), lock),
            account_views(old(accounts)@),
            result,
            account_views(final(accounts)@),
        ),
{
    if accounts.len() < 2 {
        return Err(EngineError::NotEnoughAccountKeys);
    }
    check_account_owner(program_id, &accounts[0])?;
    let mut config = Config::unpack_unchecked(accounts[0].data.as_slice())?;
    if accounts[1].key != config.admin {
        return Err(EngineError::InvalidArgument);
    }
    authorize(program_id, accounts)?;
    if !config.is_initialized {
        return Err(EngineError::InvalidArgument);
    }
    if config.is_locked == lock {
        return Err(EngineError::InvalidArgument);
    }
    config.is_locked = lock;
    let packed = config.pack(accounts[0].data.as_mut_slice());
    proof {
        let before = account_views(old(accounts)@);
        assert(account_views(accounts@) =~= with_first_data(before, config@.store(before[0].data)));
    }
    packed
}

/// Turns the lock on. Refused unless the admin stands behind the call and
/// the lock is off.
#[allow(non_snake_case)]
pub fn Lock(program_id: &Pubkey, accounts: &mut [AccountInfo]) -> (result: Result<(), EngineError>)
    ensures
        settled(
            turned(program_id@, account_views(old(accounts)@), true),
            account_views(old(accounts)@),
            result,
            account_views(final(accounts)@),
        ),
{
    turn(program_id, accounts, true)
}

/// Turns the lock off. Refused unless the admin stands behind the call and
/// the lock is on.
#[allow(non_snake_case)]
pub fn Unlock(program_id: &Pubkey, accounts: &mut [AccountInfo]) -> (result: Result<(), EngineError>)
    ensures
        settled(
            turned(program_id@, account_views(old(accounts)@), false),
            account_views(old(accounts)@),
            result,
            account_views(final(accounts)@),
        ),
{
    turn(program_id, accounts, false)
}

/// Whether `owner` is the expected key and has signed the call.
pub open spec fn owner_validated(expected_owner: Seq<u8>, owner: AccountView) -> Result<(), EngineError> {
    if owner.key != expected_owner {
        Err(EngineError::InvalidArgument)
    } else if !owner.is_signer {
        Err(EngineError::MissingRequiredSignature)
    } else {
        Ok(())
    }
}

/// Lets an account pass only where it is the expected key and has signed.
pub fn validate_owner(expected_owner: &Pubkey, owner_account_info: &AccountInfo) -> (checked: Result<
    (),
    EngineError,
>)
    ensures
        checked == owner_validated(expected_owner@, owner_account_info@),
{
    if !cmp_pubkeys(expected_owner, &owner_account_info.key) {
        return Err(EngineError::InvalidArgument);
    }
    if !owner_account_info.is_signer {
        return Err(EngineError::MissingRequiredSignature);
    }
    Ok(())
}

/// What opening or closing the door leaves behind. The accounts are the
/// door, the configuration and the holder of the key. The lock must be off.
/// Opening asks for the door's key and its signature; closing asks for
/// neither.
pub open spec fn moved(program_id: Seq<u8>, accounts: Seq<AccountView>, opening: bool) -> Result<
    Seq<AccountView>,
    EngineError,
> {
    if accounts.len() < 3 {
        Err(EngineError::NotEnoughAccountKeys)
    } else if accounts[0].owner != program_id || accounts[1].owner != program_id {
        Err(EngineError::IncorrectOwner)
    } else {
        match ConfigView::load(accounts[1].data) {
            Err(e) => Err(e),
            Ok(config) => if config.is_locked {
                Err(EngineError::InvalidArgument)
            } else {
                match DoorView::load(accounts[0].data) {
                    Err(e) => Err(e),
                    Ok(door) => if opening && owner_validated(door.key, accounts[2]).is_err() {
                        Err(owner_validated(door.key, accounts[2]).unwrap_err())
                    } else if door.is_opened == opening {
                        Err(EngineError::InvalidArgument)
                    } else {
                        Ok(
                            with_first_data(
                                accounts,
                                DoorView { is_opened: opening, ..door }.store(accounts[0].data),
                            ),
                        )
                    },
                }
            },
        }
    }
}

/// Opens or closes the door.
fn swing(program_id: &Pubkey, accounts: &mut [AccountInfo], opening: bool) -> (result: Result<(), EngineError>)
    ensures
        settled(
            moved(program_id@, account_views(old(accounts)@), opening),
            account_views(old(accounts)@),
            result,
            account_views(final(accounts)@),
        ),
{
    if accounts.len() < 3 {
        return Err(EngineError::NotEnoughAccountKeys);
    }
    check_account_owner(program_id, &accounts[0])?;
    check_account_owner(program_id, &accounts[1])?;
    let config = Config::unpack_unchecked(accounts[1].data.as_slice())?;
    if config.is_locked {
        return Err(EngineError::InvalidArgument);
    }
    let mut door = Door::unpack_unchecked(accounts[0].data.as_slice())?;
    if opening {
        validate_owner(&door.key, &accounts[2])?;
    }
    if door.is_opened == opening {
        return Err(EngineError::InvalidArgument);
    }
    door.is_opened = opening;
    let packed = door.pack(accounts[0].data.as_mut_slice());
    proof {
        let before = account_views(old(accounts)@);
        assert(account_views(accounts@) =~= with_first_data(before, door@.store(before[0].data)));
    }
    packed
}

/// Opens the door for the holder of its key. Refused while the lock is on,
/// and where the door is open already.
#[allow(non_snake_case)]
pub fn Open(program_id: &Pubkey, accounts: &mut [AccountInfo]) -> (result: Result<(), EngineError>)
    ensures
        settled(
            moved(program_id@, account_views(old(accounts)@), true),
            account_views(old(accounts)@),
            result,
            account_views(final(accounts)@),
        ),
{
    swing(program_id, accounts, true)
}

/// Closes the door, whoever asks. Refused while the lock is on, and where
/// the door is closed already.
#[allow(non_snake_case)]
pub fn Close(program_id: &Pubkey, accounts: &mut [AccountInfo]) -> (result: Result<(), EngineError>)
    ensures
        settled(
            moved(program_id@, account_views(old(accounts)@), false),
            account_views(old(accounts)@),
            result,
            account_views(final(accounts)@),
        ),
{
    swing(program_id, accounts, false)
}

/// What setting the roster of an admin registry leaves behind. The first
/// account is the registry and has exactly the length of one; the accounts
/// behind it are the signers, in roster order.
pub open spec fn admin_registry_initialized(accounts: Seq<AccountView>, m: u8) -> Result<
    Seq<AccountView>,
    EngineError,
> {
    if accounts.len() < 1 {
        Err(EngineError::NotEnoughAccountKeys)
    } else if accounts[0].data.len() != MULTISIG_LEN {
        Err(EngineError::CorruptData)
    } else {
        match MultisigView::decode(accounts[0].data) {
            Err(e) => Err(e),
            Ok(registry) => match registry.enroll(m, keys_from(accounts, 1)) {
                Err(e) => Err(e),
                Ok(enrolled) => Ok(with_first_data(accounts, enrolled.store(accounts[0].data))),
            },
        }
    }
}

/// Sets the roster and the threshold of a registry that is to be the admin
/// of a lock. A registry whose roster is set is never set again.
#[allow(non_snake_case)]
pub fn InitializeMultisig(accounts: &mut [AccountInfo], m: u8) -> (result: Result<(), EngineError>)
    ensures
        settled(
            admin_registry_initialized(account_views(old(accounts)@), m),
            account_views(old(accounts)@),
            result,
            account_views(final(accounts)@),
        ),
{
    if accounts.len() < 1 {
        return Err(EngineError::NotEnoughAccountKeys);
    }
    if accounts[0].data.len() != MULTISIG_LEN {
        return Err(EngineError::CorruptData);
    }
    let registry = Multisig::unpack_from_slice(accounts[0].data.as_slice())?;
    let multisig = enroll(&registry, m, accounts)?;
    multisig.pack_into_slice(accounts[0].data.as_mut_slice());
    proof {
        let before = account_views(old(accounts)@);
        assert(account_views(accounts@) =~= with_first_data(before, multisig@.store(before[0].data)));
    }
    Ok(())
}

/// What processing the command in `input` answers and leaves behind.
pub open spec fn processed(
    derived: Option<(Seq<u8>, u8)>,
    program_id: Seq<u8>,
    accounts: Seq<AccountView>,
    input: Seq<u8>,
) -> Result<(EffectView, Seq<AccountView>), EngineError> {
    match DoorInstructionView::decode(input) {
        Err(e) => Err(e),
        Ok(DoorInstructionView::InitializeDoor { key }) => completed(door_initialized(accounts, key)),
        Ok(DoorInstructionView::InitializeConfig { key }) => completed(
            config_initialized(derived, accounts, key),
        ),
        Ok(DoorInstructionView::Lock) => completed(turned(program_id, accounts, true)),
        Ok(DoorInstructionView::Unlock) => completed(turned(program_id, accounts, false)),
        Ok(DoorInstructionView::Open) => completed(moved(program_id, accounts, true)),
        Ok(DoorInstructionView::Close) => completed(moved(program_id, accounts, false)),
        Ok(DoorInstructionView::AllocatePDA) => match allocation(derived, program_id, accounts) {
            Err(e) => Err(e),
            Ok(request) => Ok((EffectView::Allocate(request), accounts)),
        },
        Ok(DoorInstructionView::InitializeMultisig { m }) => completed(
            admin_registry_initialized(accounts, m),
        ),
    }
}

/// Reads the command in `instruction_data` and carries it out on `accounts`.
/// Allocation answers with the request to make of the ledger runtime; a
/// refused command changes nothing.
pub fn process_instruction(program_id: &Pubkey, accounts: &mut [AccountInfo], instruction_data: &[u8]) -> (result:
    Result<Effect, EngineError>)
    ensures
        match processed(
            registry_address(program_id@),
            program_id@,
            account_views(old(accounts)@),
            instruction_data@,
        ) {
            Ok((effect, after)) => result.is_ok() && result.unwrap()@ == effect && account_views(
                final(accounts)@,
            ) == after,
            Err(e) => result == Err::<Effect, EngineError>(e) && account_views(final(accounts)@)
                == account_views(old(accounts)@),
        },
{
    let instruction = DoorInstruction::unpack(instruction_data)?;
    match instruction {
        DoorInstruction::InitializeDoor { key } => {
            InitializeDoor(accounts, key)?;
            Ok(Effect::Done)
        },
        DoorInstruction::InitializeConfig { key } => {
            InitializeConfig(program_id, accounts, key)?;
            Ok(Effect::Done)
        },
        DoorInstruction::Lock => {
            Lock(program_id, accounts)?;
            Ok(Effect::Done)
        },
        DoorInstruction::Unlock => {
            Unlock(program_id, accounts)?;
            Ok(Effect::Done)
        },
        DoorInstruction::Open => {
            Open(program_id, accounts)?;
            Ok(Effect::Done)
        },
        DoorInstruction::Close => {
            Close(program_id, accounts)?;
            Ok(Effect::Done)
        },
        DoorInstruction::AllocatePDA => {
            let request = AllocatePDA(program_id, accounts)?;
            Ok(Effect::Allocate(request))
        },
        DoorInstruction::InitializeMultisig { m } => {
            InitializeMultisig(accounts, m)?;
            Ok(Effect::Done)
        },
    }
}

} // verus!
