use multisig_engine::codec::{decode_flag, encode_flag};
use multisig_engine::door::state::{Config, Door, RECORD_LEN};
use multisig_engine::error::EngineError;
use multisig_engine::multisig::instruction::{is_valid_signer_index, MAX_SIGNERS, MIN_SIGNERS};
use multisig_engine::multisig::state::{
    count_flags, Multisig, Transaction, TransactionAccount, ACCOUNT_LEN, MULTISIG_LEN,
    TRANSACTION_LEN,
};
use multisig_engine::pubkey::Pubkey;

fn key(fill: u8) -> Pubkey {
    Pubkey::new_from_array([fill; 32])
}

fn counting_key(from: u8) -> Pubkey {
    let mut bytes = [0u8; 32];
    for (i, byte) in bytes.iter_mut().enumerate() {
        *byte = from.wrapping_add(i as u8);
    }
    Pubkey::new_from_array(bytes)
}

fn sample_registry() -> Multisig {
    let mut signers = [key(0); 11];
    for (seat, signer) in signers.iter_mut().enumerate() {
        *signer = counting_key(10 * seat as u8 + 1);
    }
    Multisig { m: 2, n: 3, is_initialized: true, signers }
}

fn sample_proposal() -> Transaction {
    let mut signers = [false; 11];
    signers[0] = true;
    signers[4] = true;
    signers[10] = true;
    Transaction {
        multisig: counting_key(1),
        program_id: counting_key(50),
        accounts: [
            TransactionAccount { pubkey: counting_key(100), is_signer: true, is_writable: false },
            TransactionAccount { pubkey: counting_key(150), is_signer: false, is_writable: true },
        ],
        data: 0xab,
        signers,
        did_execute: false,
        is_initialized: true,
    }
}

#[test]
fn layout_lengths_are_fixed() {
    assert_eq!(MULTISIG_LEN, 1 + 1 + 1 + 32 * 11);
    assert_eq!(TRANSACTION_LEN, 32 + 32 + (32 + 1 + 1) * 2 + 1 + 11 + 1 + 1);
    assert_eq!(RECORD_LEN, 34);
    assert_eq!(ACCOUNT_LEN, 1024);
    assert_eq!((MIN_SIGNERS, MAX_SIGNERS), (1, 11));
}

#[test]
fn signer_index_bounds() {
    assert!(!is_valid_signer_index(0));
    assert!(is_valid_signer_index(1));
    assert!(is_valid_signer_index(6));
    assert!(is_valid_signer_index(11));
    assert!(!is_valid_signer_index(12));
    assert!(!is_valid_signer_index(usize::MAX));
}

#[test]
fn flags_are_stored_as_zero_and_one() {
    assert_eq!(encode_flag(false), 0);
    assert_eq!(encode_flag(true), 1);
    assert_eq!(decode_flag(0), Ok(false));
    assert_eq!(decode_flag(1), Ok(true));
    for byte in 2..=255u8 {
        assert_eq!(decode_flag(byte), Err(EngineError::CorruptData));
    }
}

#[test]
fn registry_round_trip() {
    let registry = sample_registry();
    let mut bytes = vec![0x5au8; 400];
    registry.pack_into_slice(&mut bytes);
    assert_eq!(Multisig::unpack_from_slice(&bytes), Ok(registry));
    assert!(bytes[355..].iter().all(|byte| *byte == 0x5a));
}

#[test]
fn registry_bytes_are_position_addressed() {
    let registry = sample_registry();
    let mut bytes = vec![0u8; 355];
    registry.pack_into_slice(&mut bytes);
    assert_eq!(&bytes[..3], &[2, 3, 1]);
    for seat in 0..11 {
        assert_eq!(&bytes[3 + 32 * seat..35 + 32 * seat], &registry.signers[seat].to_bytes());
    }
    assert_eq!(bytes[3], 1);
    assert_eq!(bytes[34], 32);
    assert_eq!(bytes[35], 11);
    assert_eq!(bytes[354], 101 + 31);
}

#[test]
fn zeroed_storage_is_a_registry_not_yet_initialized() {
    let stored = Multisig::unpack_unchecked(&[0u8; 1024]).unwrap();
    assert!(!stored.is_initialized());
    assert_eq!((stored.m, stored.n), (0, 0));
    assert_eq!(stored.signers, [key(0); 11]);
    let stored = Multisig::unpack_from_slice(&[0u8; 355]).unwrap();
    assert!(!stored.is_initialized);
}

#[test]
fn registry_flag_must_be_a_flag() {
    let mut bytes = vec![0u8; 355];
    sample_registry().pack_into_slice(&mut bytes);
    for byte in [2u8, 3, 128, 255] {
        bytes[2] = byte;
        assert_eq!(Multisig::unpack_from_slice(&bytes), Err(EngineError::CorruptData));
    }
    bytes[2] = 0;
    assert!(!Multisig::unpack_from_slice(&bytes).unwrap().is_initialized);
}

#[test]
fn accounts_have_the_reserved_length() {
    let registry = sample_registry();
    let proposal = sample_proposal();
    for len in [0usize, 146, 355, 1023, 1025] {
        let mut bytes = vec![0u8; len];
        assert_eq!(Multisig::unpack_unchecked(&bytes), Err(EngineError::CorruptData));
        assert_eq!(Transaction::unpack_unchecked(&bytes), Err(EngineError::CorruptData));
        assert_eq!(Door::unpack_unchecked(&bytes), Err(EngineError::CorruptData));
        assert_eq!(Config::unpack_unchecked(&bytes), Err(EngineError::CorruptData));
        assert_eq!(registry.pack(&mut bytes), Err(EngineError::CorruptData));
        assert_eq!(proposal.pack(&mut bytes), Err(EngineError::CorruptData));
        assert_eq!(bytes, vec![0u8; len]);
    }
    let mut bytes = vec![0u8; 1024];
    assert_eq!(registry.pack(&mut bytes), Ok(()));
    assert_eq!(Multisig::unpack_unchecked(&bytes), Ok(registry));
    let mut bytes = vec![0u8; 1024];
    assert_eq!(proposal.pack(&mut bytes), Ok(()));
    assert_eq!(Transaction::unpack_unchecked(&bytes), Ok(proposal));
}

#[test]
fn proposal_round_trip() {
    let proposal = sample_proposal();
    let mut bytes = vec![0xc3u8; 200];
    proposal.pack_into_slice(&mut bytes);
    assert_eq!(Transaction::unpack_from_slice(&bytes), Ok(proposal));
    assert!(bytes[146..].iter().all(|byte| *byte == 0xc3));
    assert!(proposal.is_initialized());
}

#[test]
fn proposal_bytes_are_position_addressed() {
    let proposal = sample_proposal();
    let mut bytes = vec![0u8; 146];
    proposal.pack_into_slice(&mut bytes);
    assert_eq!(&bytes[0..32], &counting_key(1).to_bytes());
    assert_eq!(&bytes[32..64], &counting_key(50).to_bytes());
    assert_eq!(&bytes[64..96], &counting_key(100).to_bytes());
    assert_eq!(&bytes[96..98], &[1, 0]);
    assert_eq!(&bytes[98..130], &counting_key(150).to_bytes());
    assert_eq!(&bytes[130..132], &[0, 1]);
    assert_eq!(bytes[132], 0xab);
    assert_eq!(&bytes[133..144], &[1, 0, 0, 0, 1, 0, 0, 0, 0, 0, 1]);
    assert_eq!(&bytes[144..146], &[0, 1]);
}

#[test]
fn zeroed_storage_is_an_empty_proposal_slot() {
    let stored = Transaction::unpack_unchecked(&[0u8; 1024]).unwrap();
    assert!(!stored.is_initialized);
    assert!(!stored.did_execute);
    assert_eq!(stored.signers, [false; 11]);
    assert_eq!(stored.data, 0);
    assert_eq!(stored.multisig, key(0));
}

#[test]
fn every_proposal_flag_must_be_a_flag() {
    let mut stored = vec![0u8; 146];
    sample_proposal().pack_into_slice(&mut stored);
    let mut flags = vec![96usize, 97, 130, 131, 144, 145];
    flags.extend(133..144);
    for at in flags {
        let mut bytes = stored.clone();
        bytes[at] = 2;
        assert_eq!(Transaction::unpack_from_slice(&bytes), Err(EngineError::CorruptData));
        bytes[at] = 1 - stored[at];
        assert!(Transaction::unpack_from_slice(&bytes).is_ok());
    }
    let mut bytes = stored.clone();
    bytes[132] = 2;
    assert_eq!(Transaction::unpack_from_slice(&bytes).unwrap().data, 2);
}

#[test]
fn what_was_read_is_written_back_unchanged() {
    let mut stored = vec![0x11u8; 1024];
    sample_proposal().pack_into_slice(&mut stored);
    let mut again = stored.clone();
    Transaction::unpack_unchecked(&stored).unwrap().pack(&mut again).unwrap();
    assert_eq!(again, stored);

    let mut stored = vec![0x22u8; 1024];
    sample_registry().pack_into_slice(&mut stored);
    let mut again = stored.clone();
    Multisig::unpack_unchecked(&stored).unwrap().pack(&mut again).unwrap();
    assert_eq!(again, stored);
}

#[test]
fn flags_are_counted_up_to_the_roster_size() {
    let flags = sample_proposal().signers;
    assert_eq!(count_flags(&flags, 0), 0);
    assert_eq!(count_flags(&flags, 1), 1);
    assert_eq!(count_flags(&flags, 4), 1);
    assert_eq!(count_flags(&flags, 5), 2);
    assert_eq!(count_flags(&flags, 10), 2);
    assert_eq!(count_flags(&flags, 11), 3);
    assert_eq!(count_flags(&[true; 11], 11), 11);
    assert_eq!(count_flags(&[false; 11], 11), 0);
}

#[test]
fn seats_are_marked_for_the_key_that_holds_them() {
    let mut registry = sample_registry();
    registry.signers[2] = registry.signers[0];
    let holder = registry.signers[0];
    let mut flags = [false; 11];
    assert_eq!(registry.mark_seats(&mut flags, &holder, false), Err(EngineError::MissingRequiredSignature));
    assert_eq!(flags, [false; 11]);
    assert_eq!(registry.mark_seats(&mut flags, &holder, true), Ok(()));
    let mut expected = [false; 11];
    expected[0] = true;
    expected[2] = true;
    assert_eq!(flags, expected);
    assert_eq!(registry.mark_seats(&mut flags, &holder, false), Ok(()));
    assert_eq!(flags, expected);
    // Seat 5 holds a key, but lies behind the roster of three.
    let behind = registry.signers[5];
    assert_eq!(registry.mark_seats(&mut flags, &behind, true), Ok(()));
    assert_eq!(flags, expected);
}

#[test]
fn door_round_trip() {
    for (is_initialized, is_opened) in [(false, false), (false, true), (true, false), (true, true)] {
        let door = Door { key: counting_key(7), is_initialized, is_opened };
        let mut bytes = vec![0x77u8; 40];
        door.pack_into_slice(&mut bytes);
        assert_eq!(&bytes[..32], &counting_key(7).to_bytes());
        assert_eq!(&bytes[32..34], &[is_initialized as u8, is_opened as u8]);
        assert!(bytes[34..].iter().all(|byte| *byte == 0x77));
        assert_eq!(Door::unpack_from_slice(&bytes), Ok(door));
        assert_eq!(door.is_initialized(), is_initialized);
    }
    let blank = Door::unpack_unchecked(&[0u8; 1024]).unwrap();
    assert_eq!(blank, Door { key: key(0), is_initialized: false, is_opened: false });
}

#[test]
fn config_round_trip() {
    for (is_locked, is_initialized) in [(false, false), (false, true), (true, false), (true, true)] {
        let config = Config { admin: counting_key(9), is_locked, is_initialized };
        let mut bytes = vec![0x99u8; 1024];
        assert_eq!(config.pack(&mut bytes), Ok(()));
        assert_eq!(&bytes[..32], &counting_key(9).to_bytes());
        assert_eq!(&bytes[32..34], &[is_locked as u8, is_initialized as u8]);
        assert!(bytes[34..].iter().all(|byte| *byte == 0x99));
        assert_eq!(Config::unpack_unchecked(&bytes), Ok(config));
        assert_eq!(config.is_initialized(), is_initialized);
    }
    let blank = Config::unpack_unchecked(&[0u8; 1024]).unwrap();
    assert_eq!(blank, Config { admin: key(0), is_locked: false, is_initialized: false });
}

#[test]
fn door_and_config_flags_must_be_flags() {
    for at in [32usize, 33] {
        let mut bytes = vec![0u8; 34];
        bytes[at] = 2;
        assert_eq!(Door::unpack_from_slice(&bytes), Err(EngineError::CorruptData));
        assert_eq!(Config::unpack_from_slice(&bytes), Err(EngineError::CorruptData));
    }
}
