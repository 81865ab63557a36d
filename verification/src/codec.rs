//! Bytes of the fixed layouts in which entities are stored.

use vstd::prelude::*;
use crate::error::EngineError;
use crate::pubkey::with_key_at;

verus! {

/// The byte that stores a flag: 1 for true, 0 for false.
pub open spec fn flag_byte(flag: bool) -> u8 {
    if flag {
        1u8
    } else {
        0u8
    }
}

/// Whether `byte` stores a flag, that is, whether it is 0 or 1.
pub open spec fn is_flag(byte: u8) -> bool {
    byte == 0 || byte == 1
}

/// `data` with its first bytes replaced by `image`; what lies behind the
/// image stays.
pub open spec fn overwrite_prefix(data: Seq<u8>, image: Seq<u8>) -> Seq<u8> {
    image + data.skip(image.len() as int)
}

/// Writing one byte right behind an image of `image` makes the image one
/// byte longer.
pub proof fn lemma_append_byte(data: Seq<u8>, image: Seq<u8>, byte: u8)
    requires
        image.len() < data.len(),
    ensures
        overwrite_prefix(data, image).update(image.len() as int, byte) == overwrite_prefix(
            data,
            image + seq![byte],
        ),
{
    assert(overwrite_prefix(data, image).update(image.len() as int, byte) =~= overwrite_prefix(
        data,
        image + seq![byte],
    ));
}

/// Writing a key right behind an image of `image` makes the image one key
/// longer.
pub proof fn lemma_append_key(data: Seq<u8>, image: Seq<u8>, key: Seq<u8>)
    requires
        key.len() == 32,
        image.len() + 32 <= data.len(),
    ensures
        with_key_at(overwrite_prefix(data, image), image.len() as int, key) == overwrite_prefix(
            data,
            image + key,
        ),
{
    assert(with_key_at(overwrite_prefix(data, image), image.len() as int, key) =~= overwrite_prefix(
        data,
        image + key,
    ));
}

/// The byte that stores `flag`.
pub fn encode_flag(flag: bool) -> (byte: u8)
    ensures
        byte == flag_byte(flag),
{
    if flag {
        1
    } else {
        0
    }
}

/// Reads a stored flag: `CorruptData` for every byte but 0 and 1.
pub fn decode_flag(byte: u8) -> (flag: Result<bool, EngineError>)
    ensures
        is_flag(byte) ==> flag == Ok::<bool, EngineError>(byte == 1),
        !is_flag(byte) ==> flag == Err::<bool, EngineError>(EngineError::CorruptData),
{
    if byte == 0 {
        Ok(false)
    } else if byte == 1 {
        Ok(true)
    } else {
        Err(EngineError::CorruptData)
    }
}

} // verus!
