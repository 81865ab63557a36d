//! The door and the lock's configuration, and the layout in which they are
//! stored.

use vstd::prelude::*;
use crate::codec::{
    decode_flag, encode_flag, flag_byte, is_flag, lemma_append_byte, lemma_append_key,
    overwrite_prefix,
};
use crate::error::EngineError;
use crate::multisig::state::ACCOUNT_LEN;
use crate::pubkey::{key_at, Pubkey};

verus! {

/// Bytes of a stored door, and of a stored configuration: a key and two
/// flags.
pub const RECORD_LEN: usize = 34;

/// The stored bytes of a key followed by two flags.
pub open spec fn record_bytes(key: Seq<u8>, first: bool, second: bool) -> Seq<u8> {
    key + seq![flag_byte(first), flag_byte(second)]
}

/// The key and the two flags that the first bytes of `bytes` store, or
/// `CorruptData` where a flag is neither 0 nor 1.
pub open spec fn record_fields(bytes: Seq<u8>) -> Result<(Seq<u8>, bool, bool), EngineError>
    recommends
        bytes.len() >= 34,
{
    if is_flag(bytes[32]) && is_flag(bytes[33]) {
        Ok((key_at(bytes, 0), bytes[32] == 1, bytes[33] == 1))
    } else {
        Err(EngineError::CorruptData)
    }
}

/// Reading a stored record gives its fields back, whatever lies behind its
/// bytes.
pub proof fn lemma_record_round_trip(key: Seq<u8>, first: bool, second: bool, rest: Seq<u8>)
    requires
        key.len() == 32,
    ensures
        record_fields(record_bytes(key, first, second) + rest) == Ok::<
            (Seq<u8>, bool, bool),
            EngineError,
        >((key, first, second)),
{
    let bytes = record_bytes(key, first, second) + rest;
    assert(bytes[32] == flag_byte(first));
    assert(bytes[33] == flag_byte(second));
    assert(key_at(bytes, 0) =~= key);
}

/// Storing the record that was read from some bytes writes the same bytes.
pub proof fn lemma_record_decode_encode(bytes: Seq<u8>)
    requires
        bytes.len() >= RECORD_LEN,
        record_fields(bytes).is_ok(),
    ensures
        ({
            let (key, first, second) = record_fields(bytes).unwrap();
            key.len() == 32 && overwrite_prefix(bytes, record_bytes(key, first, second)) == bytes
        }),
{
    let (key, first, second) = record_fields(bytes).unwrap();
    assert(overwrite_prefix(bytes, record_bytes(key, first, second)) =~= bytes);
}

/// Reads a key and two flags from the first 34 bytes of `src`.
fn read_record(src: &[u8]) -> (fields: Result<(Pubkey, bool, bool), EngineError>)
    requires
        src.len() >= RECORD_LEN,
    ensures
        match fields {
            Ok((key, first, second)) => record_fields(src@) == Ok::<(Seq<u8>, bool, bool), EngineError>(
                (key@, first, second),
            ),
            Err(e) => record_fields(src@) == Err::<(Seq<u8>, bool, bool), EngineError>(e),
        },
{
    let key = Pubkey::read_from(src, 0);
    let first = decode_flag(src[32])?;
    let second = decode_flag(src[33])?;
    Ok((key, first, second))
}

/// Writes a key and two flags over the first 34 bytes of `dst`.
fn write_record(dst: &mut [u8], key: &Pubkey, first: bool, second: bool)
    requires
        old(dst).len() >= RECORD_LEN,
    ensures
        final(dst)@ == overwrite_prefix(old(dst)@, record_bytes(key@, first, second)),
{
    let ghost data = dst@;
    let ghost mut image = Seq::<u8>::empty();
    assert(dst@ =~= overwrite_prefix(data, image));
    key.write_to(dst, 0);
    proof {
        lemma_append_key(data, image, key@);
        image = image + key@;
    }
    dst[32] = encode_flag(first);
    proof {
        lemma_append_byte(data, image, flag_byte(first));
        image = image + seq![flag_byte(first)];
    }
    dst[33] = encode_flag(second);
    proof {
        lemma_append_byte(data, image, flag_byte(second));
        image = image + seq![flag_byte(second)];
        assert(image =~= record_bytes(key@, first, second));
    }
}

/// A door and the key that opens it.
#[derive(Clone, Copy, Debug, PartialEq, Eq)]
pub struct Door {
    /// The key that can open the door.
    pub key: Pubkey,
    /// Whether the door has been set up.
    pub is_initialized: bool,
    /// Whether the door stands open.
    pub is_opened: bool,
}

/// A door as a value.
pub struct DoorView {
    pub key: Seq<u8>,
    pub is_initialized: bool,
    pub is_opened: bool,
}

impl View for Door {
    type V = DoorView;

    open spec fn view(&self) -> DoorView {
        DoorView { key: self.key@, is_initialized: self.is_initialized, is_opened: self.is_opened }
    }
}

impl DoorView {
    /// The shape that every door has: a key of thirty-two bytes.
    pub open spec fn wf(self) -> bool {
        self.key.len() == 32
    }

    /// The stored bytes of a door: the key, then the two flags.
    pub open spec fn encode(self) -> Seq<u8> {
        record_bytes(self.key, self.is_initialized, self.is_opened)
    }

    /// The door that the first bytes of `bytes` store, or `CorruptData`
    /// where a flag is neither 0 nor 1.
    pub open spec fn decode(bytes: Seq<u8>) -> Result<DoorView, EngineError>
        recommends
            bytes.len() >= 34,
    {
        match record_fields(bytes) {
            Ok((key, is_initialized, is_opened)) => Ok(DoorView { key, is_initialized, is_opened }),
            Err(e) => Err(e),
        }
    }

    /// What an account of `data` bytes is read as: `CorruptData` unless it has
    /// the reserved length and its flags are flags.
    pub open spec fn load(data: Seq<u8>) -> Result<DoorView, EngineError> {
        if data.len() != ACCOUNT_LEN {
            Err(EngineError::CorruptData)
        } else {
            Self::decode(data)
        }
    }

    /// The stored bytes of an account after the door was written to it.
    pub open spec fn store(self, data: Seq<u8>) -> Seq<u8> {
        overwrite_prefix(data, self.encode())
    }
}

/// Reading a stored door gives the door back, and storage that holds
/// nothing but zero bytes reads as a door that has not been set up.
pub proof fn lemma_door_round_trip(door: DoorView, rest: Seq<u8>, zeroed: Seq<u8>)
    requires
        door.wf(),
        zeroed.len() >= RECORD_LEN,
        forall|i: int| 0 <= i < zeroed.len() ==> zeroed[i] == 0,
    ensures
        DoorView::decode(door.encode() + rest) == Ok::<DoorView, EngineError>(door),
        DoorView::decode(zeroed).is_ok(),
        !DoorView::decode(zeroed).unwrap().is_initialized,
{
    lemma_record_round_trip(door.key, door.is_initialized, door.is_opened, rest);
}

impl Door {
    /// Whether the door has been set up.
    pub fn is_initialized(&self) -> (initialized: bool)
        ensures
            initialized == self@.is_initialized,
    {
        self.is_initialized
    }

    /// Reads the door stored in the first 34 bytes of `src`.
    pub fn unpack_from_slice(src: &[u8]) -> (unpacked: Result<Door, EngineError>)
        requires
            src.len() >= RECORD_LEN,
        ensures
            match unpacked {
                Ok(door) => DoorView::decode(src@) == Ok::<DoorView, EngineError>(door@),
                Err(e) => DoorView::decode(src@) == Err::<DoorView, EngineError>(e),
            },
    {
        let (key, is_initialized, is_opened) = read_record(src)?;
        Ok(Door { key, is_initialized, is_opened })
    }

    /// Writes the door over the first 34 bytes of `dst`.
    pub fn pack_into_slice(&self, dst: &mut [u8])
        requires
            old(dst).len() >= RECORD_LEN,
        ensures
            final(dst)@ == self@.store(old(dst)@),
    {
        write_record(dst, &self.key, self.is_initialized, self.is_opened);
    }

    /// Reads the door that an account stores.
    pub fn unpack_unchecked(input: &[u8]) -> (unpacked: Result<Door, EngineError>)
        ensures
            match unpacked {
                Ok(door) => DoorView::load(input@) == Ok::<DoorView, EngineError>(door@),
                Err(e) => DoorView::load(input@) == Err::<DoorView, EngineError>(e),
            },
    {
        if input.len() != ACCOUNT_LEN {
            return Err(EngineError::CorruptData);
        }
        Door::unpack_from_slice(input)
    }

    /// Writes the door to an account, which must have the reserved length.
    pub fn pack(&self, dst: &mut [u8]) -> (packed: Result<(), EngineError>)
        ensures
            old(dst).len() == ACCOUNT_LEN ==> packed.is_ok() && final(dst)@ == self@.store(old(dst)@),
            old(dst).len() != ACCOUNT_LEN ==> packed == Err::<(), EngineError>(EngineError::CorruptData)
                && final(dst)@ == old(dst)@,
    {
        if dst.len() != ACCOUNT_LEN {
            return Err(EngineError::CorruptData);
        }
        self.pack_into_slice(dst);
        Ok(())
    }
}

/// The configuration of the lock: who may turn it, and how it stands.
#[derive(Clone, Copy, Debug, PartialEq, Eq)]
pub struct Config {
    /// The admin, who alone may lock and unlock.
    pub admin: Pubkey,
    /// Whether the lock is on.
    pub is_locked: bool,
    /// Whether the configuration has been set up.
    pub is_initialized: bool,
}

/// A configuration as a value.
pub struct ConfigView {
    pub admin: Seq<u8>,
    pub is_locked: bool,
    pub is_initialized: bool,
}

impl View for Config {
    type V = ConfigView;

    open spec fn view(&self) -> ConfigView {
        ConfigView { admin: self.admin@, is_locked: self.is_locked, is_initialized: self.is_initialized }
    }
}

impl ConfigView {
    /// The shape that every configuration has: a key of thirty-two bytes.
    pub open spec fn wf(self) -> bool {
        self.admin.len() == 32
    }

    /// The stored bytes of a configuration: the admin's key, then the two
    /// flags.
    pub open spec fn encode(self) -> Seq<u8> {
        record_bytes(self.admin, self.is_locked, self.is_initialized)
    }

    /// The configuration that the first bytes of `bytes` store, or
    /// `CorruptData` where a flag is neither 0 nor 1.
    pub open spec fn decode(bytes: Seq<u8>) -> Result<ConfigView, EngineError>
        recommends
            bytes.len() >= 34,
    {
        match record_fields(bytes) {
            Ok((admin, is_locked, is_initialized)) => Ok(ConfigView { admin, is_locked, is_initialized }),
            Err(e) => Err(e),
        }
    }

    /// What an account of `data` bytes is read as: `CorruptData` unless it has
    /// the reserved length and its flags are flags.
    pub open spec fn load(data: Seq<u8>) -> Result<ConfigView, EngineError> {
        if data.len() != ACCOUNT_LEN {
            Err(EngineError::CorruptData)
        } else {
            Self::decode(data)
        }
    }

    /// The stored bytes of an account after the configuration was written to
    /// it.
    pub open spec fn store(self, data: Seq<u8>) -> Seq<u8> {
        overwrite_prefix(data, self.encode())
    }
}

/// Reading a stored configuration gives the configuration back, and storage
/// that holds nothing but zero bytes reads as a configuration that has not
/// been set up.
pub proof fn lemma_config_round_trip(config: ConfigView, rest: Seq<u8>, zeroed: Seq<u8>)
    requires
        config.wf(),
        zeroed.len() >= RECORD_LEN,
        forall|i: int| 0 <= i < zeroed.len() ==> zeroed[i] == 0,
    ensures
        ConfigView::decode(config.encode() + rest) == Ok::<ConfigView, EngineError>(config),
        ConfigView::decode(zeroed).is_ok(),
        !ConfigView::decode(zeroed).unwrap().is_initialized,
{
    lemma_record_round_trip(config.admin, config.is_locked, config.is_initialized, rest);
}

impl Config {
    /// Whether the configuration has been set up.
    pub fn is_initialized(&self) -> (initialized: bool)
        ensures
            initialized == self@.is_initialized,
    {
        self.is_initialized
    }

    /// Reads the configuration stored in the first 34 bytes of `src`.
    pub fn unpack_from_slice(src: &[u8]) -> (unpacked: Result<Config, EngineError>)
        requires
            src.len() >= RECORD_LEN,
        ensures
            match unpacked {
                Ok(config) => ConfigView::decode(src@) == Ok::<ConfigView, EngineError>(config@),
                Err(e) => ConfigView::decode(src@) == Err::<ConfigView, EngineError>(e),
            },
    {
        let (admin, is_locked, is_initialized) = read_record(src)?;
        Ok(Config { admin, is_locked, is_initialized })
    }

    /// Writes the configuration over the first 34 bytes of `dst`.
    pub fn pack_into_slice(&self, dst: &mut [u8])
        requires
            old(dst).len() >= RECORD_LEN,
        ensures
            final(dst)@ == self@.store(old(dst)@),
    {
        write_record(dst, &self.admin, self.is_locked, self.is_initialized);
    }

    /// Reads the configuration that an account stores.
    pub fn unpack_unchecked(input: &[u8]) -> (unpacked: Result<Config, EngineError>)
        ensures
            match unpacked {
                Ok(config) => ConfigView::load(input@) == Ok::<ConfigView, EngineError>(config@),
                Err(e) => ConfigView::load(input@) == Err::<ConfigView, EngineError>(e),
            },
    {
        if input.len() != ACCOUNT_LEN {
            return Err(EngineError::CorruptData);
        }
        Config::unpack_from_slice(input)
    }

    /// Writes the configuration to an account, which must have the reserved
    /// length.
    pub fn pack(&self, dst: &mut [u8]) -> (packed: Result<(), EngineError>)
        ensures
            old(dst).len() == ACCOUNT_LEN ==> packed.is_ok() && final(dst)@ == self@.store(old(dst)@),
            old(dst).len() != ACCOUNT_LEN ==> packed == Err::<(), EngineError>(EngineError::CorruptData)
                && final(dst)@ == old(dst)@,
    {
        if dst.len() != ACCOUNT_LEN {
            return Err(EngineError::CorruptData);
        }
        self.pack_into_slice(dst);
        Ok(())
    }
}

} // verus!
