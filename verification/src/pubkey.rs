//! Thirty-two byte keys that name accounts and programs.

use vstd::prelude::*;

verus! {

/// Number of bytes in a key.
pub const PUBKEY_BYTES: usize = 32;

/// The key of an account or of a program. Two keys are the same when all
/// thirty-two bytes agree.
#[derive(Clone, Copy, Debug, Eq, Hash)]
pub struct Pubkey {
    pub bytes: [u8; 32],
}

impl View for Pubkey {
    type V = Seq<u8>;

    open spec fn view(&self) -> Seq<u8> {
        self.bytes@
    }
}

/// The bytes that `bytes` holds from `at` on, as many as a key has.
pub open spec fn key_at(bytes: Seq<u8>, at: int) -> Seq<u8> {
    bytes.subrange(at, at + 32)
}

/// `bytes` with the thirty-two bytes from `at` on replaced by `key`.
pub open spec fn with_key_at(bytes: Seq<u8>, at: int, key: Seq<u8>) -> Seq<u8> {
    Seq::new(bytes.len(), |j: int| if at <= j < at + 32 { key[j - at] } else { bytes[j] })
}

impl Pubkey {
    /// The key made of the given bytes.
    pub fn new_from_array(bytes: [u8; 32]) -> (key: Pubkey)
        ensures
            key@ == bytes@,
    {
        Pubkey { bytes }
    }

    /// The key whose bytes are all zero, which fills unused roster seats.
    pub fn zeroed() -> (key: Pubkey)
        ensures
            key@ == Seq::new(32, |j: int| 0u8),
    {
        let key = Pubkey { bytes: [0u8; 32] };
        assert(key@ =~= Seq::new(32, |j: int| 0u8));
        key
    }

    /// The bytes of the key.
    pub fn to_bytes(&self) -> (bytes: [u8; 32])
        ensures
            bytes@ == self@,
    {
        self.bytes
    }

    /// Reads the key that `src` holds from `at` on.
    pub fn read_from(src: &[u8], at: usize) -> (key: Pubkey)
        requires
            at + 32 <= src.len(),
        ensures
            key@ == key_at(src@, at as int),
    {
        let mut bytes: [u8; 32] = [0u8; 32];
        let mut j: usize = 0;
        while j < 32
            invariant
                j <= 32,
                at + 32 <= src.len(),
                forall|k: int| 0 <= k < j ==> bytes@[k] == src@[at + k],
            decreases 32 - j,
        {
            bytes[j] = src[at + j];
            j += 1;
        }
        let key = Pubkey { bytes };
        assert(key@ =~= key_at(src@, at as int));
        key
    }

    /// Writes the key over the thirty-two bytes of `dst` from `at` on.
    pub fn write_to(&self, dst: &mut [u8], at: usize)
        requires
            at + 32 <= old(dst).len(),
        ensures
            final(dst)@ == with_key_at(old(dst)@, at as int, self@),
    {
        let mut j: usize = 0;
        while j < 32
            invariant
                j <= 32,
                dst.len() == old(dst).len(),
                at + 32 <= dst.len(),
                forall|k: int| 0 <= k < dst.len() ==> dst@[k] == (if at <= k < at + j {
                    self@[k - at]
                } else {
                    old(dst)@[k]
                }),
            decreases 32 - j,
        {
            dst[at + j] = self.bytes[j];
            j += 1;
        }
        assert(dst@ =~= with_key_at(old(dst)@, at as int, self@));
    }
}

/// `sol_memcmp` of the ledger runtime's program library, over the whole of two
/// keys. Trusted: the result is zero exactly when the two keys hold the same
/// bytes.
#[verifier::external_body]
fn key_memcmp(a: &[u8; 32], b: &[u8; 32]) -> (order: i32)
    ensures
        (order == 0) == (a@ == b@),
{
    solana_program::program_memory::sol_memcmp(a, b, 32)
}

/// Whether two keys are the same key.
pub fn cmp_pubkeys(a: &Pubkey, b: &Pubkey) -> (same: bool)
    ensures
        same == (a@ == b@),
{
    key_memcmp(&a.bytes, &b.bytes) == 0
}

impl PartialEq for Pubkey {
    fn eq(&self, other: &Pubkey) -> (same: bool) {
        cmp_pubkeys(self, other)
    }
}

impl vstd::std_specs::cmp::PartialEqSpecImpl for Pubkey {
    open spec fn obeys_eq_spec() -> bool {
        true
    }

    open spec fn eq_spec(&self, other: &Pubkey) -> bool {
        self@ == other@
    }
}

} // verus!
