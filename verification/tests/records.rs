use multisig_engine::account::AccountInfo;
use multisig_engine::error::EngineError;
use multisig_engine::pubkey::Pubkey;
use multisig_engine::rectangle::{
    conversion_logic, initialize, unpack_u32, upgrade, RectangleCurrent, RectangleOld,
};
use multisig_engine::type_confusion::{
    process_instruction, InitializeMeta, InitializeUser, Test, TypeInstruction,
};

fn key(fill: u8) -> Pubkey {
    Pubkey::new_from_array([fill; 32])
}

fn program() -> Pubkey {
    key(220)
}

fn record(at: Pubkey, len: usize) -> AccountInfo {
    AccountInfo { key: at, owner: program(), is_signer: false, is_writable: true, data: vec![0xaa; len] }
}

fn wallet(at: Pubkey, is_signer: bool) -> AccountInfo {
    AccountInfo { key: at, owner: key(0), is_signer, is_writable: false, data: Vec::new() }
}

#[test]
fn area_and_perimeter() {
    let rectangle = RectangleCurrent { width: 3, height: 4, area: 0, perimeter: 0 };
    assert_eq!(rectangle.area(), 12);
    assert_eq!(rectangle.perimeter(), 14);
    let flat = RectangleCurrent { width: 0, height: 9, area: 5, perimeter: 5 };
    assert_eq!(flat.area(), 0);
    assert_eq!(flat.perimeter(), 18);
    let large = RectangleCurrent { width: 65535, height: 65537, area: 0, perimeter: 0 };
    assert_eq!(large.area(), u32::MAX);
    let long = RectangleCurrent { width: 2147483647, height: 0, area: 0, perimeter: 0 };
    assert_eq!(long.perimeter(), 4294967294);
}

#[test]
fn numbers_are_read_lowest_byte_first() {
    assert_eq!(unpack_u32(&[1, 0, 0, 0]), Ok((1, &[][..])));
    assert_eq!(unpack_u32(&[0x78, 0x56, 0x34, 0x12, 9, 8]), Ok((0x12345678, &[9u8, 8][..])));
    assert_eq!(unpack_u32(&[0xff, 0xff, 0xff, 0xff]), Ok((u32::MAX, &[][..])));
    assert_eq!(unpack_u32(&[0, 0, 0, 0x80]), Ok((0x8000_0000, &[][..])));
    assert_eq!(unpack_u32(&[0, 1, 0, 0, 7]), Ok((256, &[7u8][..])));
    for len in 0..4 {
        assert_eq!(unpack_u32(&[1, 2, 3][..len]), Err(EngineError::MalformedInstruction));
    }
    for value in [0u32, 1, 255, 256, 65535, 65536, 0xdead_beef] {
        assert_eq!(unpack_u32(&value.to_le_bytes()), Ok((value, &[][..])));
    }
}

#[test]
fn an_old_record_is_brought_up_to_date() {
    let old_rectangle = RectangleOld { width: 3, height: 4, area: 12 };
    assert_eq!(
        conversion_logic(&old_rectangle),
        RectangleCurrent { width: 3, height: 4, area: 12, perimeter: 0 }
    );
    assert_eq!(upgrade(&old_rectangle), RectangleCurrent { width: 3, height: 4, area: 12, perimeter: 14 });
    // The stored area is kept as it is, right or wrong.
    let stale = RectangleOld { width: 2, height: 2, area: 99 };
    assert_eq!(upgrade(&stale), RectangleCurrent { width: 2, height: 2, area: 99, perimeter: 8 });
}

#[test]
fn a_record_is_initialized_from_its_sides() {
    let mut rectangle = RectangleCurrent { width: 9, height: 9, area: 9, perimeter: 9 };
    initialize(&mut rectangle, 5, 6);
    assert_eq!(rectangle, RectangleCurrent { width: 5, height: 6, area: 30, perimeter: 22 });
    initialize(&mut rectangle, 0, 0);
    assert_eq!(rectangle, RectangleCurrent { width: 0, height: 0, area: 0, perimeter: 0 });
}

#[test]
fn record_commands_decode() {
    assert_eq!(TypeInstruction::unpack(&[0]), Ok(TypeInstruction::InitializeUser));
    assert_eq!(TypeInstruction::unpack(&[1, 5]), Ok(TypeInstruction::InitializeMeta));
    assert_eq!(TypeInstruction::unpack(&[2]), Ok(TypeInstruction::Test));
    assert_eq!(TypeInstruction::unpack(&[3]), Err(EngineError::InvalidArgument));
    assert_eq!(TypeInstruction::unpack(&[255]), Err(EngineError::InvalidArgument));
    assert_eq!(TypeInstruction::unpack(&[]), Err(EngineError::MalformedInstruction));
}

#[test]
fn a_user_stores_its_authority() {
    let mut accounts = vec![record(key(1), 40), wallet(key(2), false)];
    assert_eq!(InitializeUser(&mut accounts), Ok(()));
    assert_eq!(&accounts[0].data[..32], &[2u8; 32]);
    assert_eq!(&accounts[0].data[32..], &[0xaa; 8]);
    assert_eq!(accounts[1], wallet(key(2), false));

    let mut short = vec![record(key(1), 31), wallet(key(2), false)];
    let before = short.clone();
    assert_eq!(InitializeUser(&mut short), Err(EngineError::CorruptData));
    assert_eq!(InitializeMeta(&mut short), Err(EngineError::CorruptData));
    assert_eq!(short, before);
    let mut alone = vec![record(key(1), 40)];
    assert_eq!(InitializeUser(&mut alone), Err(EngineError::NotEnoughAccountKeys));
    assert_eq!(InitializeMeta(&mut alone), Err(EngineError::NotEnoughAccountKeys));
}

#[test]
fn the_check_passes_for_the_signed_authority_of_an_owned_account() {
    let mut accounts = vec![record(key(1), 32), wallet(key(2), true)];
    assert_eq!(InitializeUser(&mut accounts), Ok(()));
    assert_eq!(Test(&program(), &accounts), Ok(()));

    accounts[1].is_signer = false;
    assert_eq!(Test(&program(), &accounts), Err(EngineError::MissingRequiredSignature));
    accounts[1] = wallet(key(3), true);
    assert_eq!(Test(&program(), &accounts), Err(EngineError::InvalidArgument));
    accounts[1] = wallet(key(2), true);
    accounts[0].owner = key(9);
    assert_eq!(Test(&program(), &accounts), Err(EngineError::IncorrectOwner));
    accounts[0].owner = program();
    accounts[0].data.truncate(31);
    assert_eq!(Test(&program(), &accounts), Err(EngineError::CorruptData));
    assert_eq!(Test(&program(), &accounts[..1]), Err(EngineError::NotEnoughAccountKeys));
}

#[test]
fn metadata_passes_for_a_user() {
    let mut accounts = vec![record(key(1), 32), wallet(key(2), true)];
    assert_eq!(InitializeMeta(&mut accounts), Ok(()));
    assert_eq!(Test(&program(), &accounts), Ok(()));
}

#[test]
fn record_commands_are_dispatched_by_their_opcode() {
    let mut accounts = vec![record(key(1), 32), wallet(key(2), true)];
    assert_eq!(process_instruction(&program(), &mut accounts, &[2]), Err(EngineError::InvalidArgument));
    assert_eq!(process_instruction(&program(), &mut accounts, &[0]), Ok(()));
    assert_eq!(accounts[0].data, vec![2u8; 32]);
    assert_eq!(process_instruction(&program(), &mut accounts, &[2]), Ok(()));
    accounts[1] = wallet(key(3), true);
    assert_eq!(process_instruction(&program(), &mut accounts, &[1]), Ok(()));
    assert_eq!(accounts[0].data, vec![3u8; 32]);
    let before = accounts.clone();
    assert_eq!(process_instruction(&program(), &mut accounts, &[9]), Err(EngineError::InvalidArgument));
    assert_eq!(process_instruction(&program(), &mut accounts, &[]), Err(EngineError::MalformedInstruction));
    assert_eq!(accounts, before);
}
