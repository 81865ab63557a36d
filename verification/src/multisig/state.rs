//! The registry and the proposal, and the fixed layouts in which they are
//! stored.

use vstd::prelude::*;
use crate::codec::{
    decode_flag, encode_flag, flag_byte, is_flag, lemma_append_byte, lemma_append_key,
    overwrite_prefix,
};
use crate::error::EngineError;
use crate::multisig::instruction::MAX_SIGNERS;
use crate::pubkey::{key_at, Pubkey};

verus! {

/// Bytes reserved for every account that stores a registry or a proposal.
pub const ACCOUNT_LEN: usize = 1024;

/// Bytes of a stored proposal: two keys, two account descriptors of a key and
/// two flags each, the payload byte, eleven approval flags and two more flags.
pub const TRANSACTION_LEN: usize = 146;

/// Bytes of a stored registry: threshold, roster size, one flag and eleven keys.
pub const MULTISIG_LEN: usize = 355;

/// A registry: the roster of signers and the number of approvals that a
/// proposal needs.
#[derive(Clone, Copy, Debug, PartialEq, Eq)]
pub struct Multisig {
    /// Number of approvals required.
    pub m: u8,
    /// Number of occupied roster seats.
    pub n: u8,
    /// Whether the roster has been set.
    pub is_initialized: bool,
    /// The roster; seats from `n` on are unused.
    pub signers: [Pubkey; MAX_SIGNERS],
}

/// A registry as a value.
pub struct MultisigView {
    pub m: u8,
    pub n: u8,
    pub is_initialized: bool,
    pub signers: Seq<Seq<u8>>,
}

impl View for Multisig {
    type V = MultisigView;

    open spec fn view(&self) -> MultisigView {
        MultisigView {
            m: self.m,
            n: self.n,
            is_initialized: self.is_initialized,
            signers: Seq::new(11, |i: int| self.signers@[i]@),
        }
    }
}

impl MultisigView {
    /// The shape that every registry has: eleven seats of thirty-two bytes.
    pub open spec fn wf(self) -> bool {
        &&& self.signers.len() == 11
        &&& forall|i: int| 0 <= i < 11 ==> (#[trigger] self.signers[i]).len() == 32
    }

    /// What holds of a registry once its roster has been set: between one and
    /// eleven seats are occupied, the threshold lies in the same range, and
    /// the unused seats hold the zero key.
    pub open spec fn enrolled(self) -> bool {
        &&& self.is_initialized
        &&& 1 <= self.n <= 11
        &&& 1 <= self.m <= 11
        &&& forall|i: int| self.n <= i < 11 ==> #[trigger] self.signers[i] == Seq::new(32, |j: int| 0u8)
    }

    /// The eleven keys one after the other.
    pub open spec fn flat_signers(self) -> Seq<u8> {
        Seq::new(352, |j: int| self.signers[j / 32][j % 32])
    }

    /// The stored bytes of a registry, field after field.
    pub open spec fn encode(self) -> Seq<u8> {
        seq![self.m, self.n, flag_byte(self.is_initialized)] + self.flat_signers()
    }

    /// The registry that the first bytes of `bytes` store, or `CorruptData`
    /// where the flag is neither 0 nor 1.
    pub open spec fn decode(bytes: Seq<u8>) -> Result<MultisigView, EngineError>
        recommends
            bytes.len() >= 355,
    {
        if is_flag(bytes[2]) {
            Ok(
                MultisigView {
                    m: bytes[0],
                    n: bytes[1],
                    is_initialized: bytes[2] == 1,
                    signers: Seq::new(11, |i: int| key_at(bytes, 3 + 32 * i)),
                },
            )
        } else {
            Err(EngineError::CorruptData)
        }
    }

    /// What an account of `data` bytes is read as: `CorruptData` unless it has
    /// the reserved length and its flag is a flag.
    pub open spec fn load(data: Seq<u8>) -> Result<MultisigView, EngineError> {
        if data.len() != ACCOUNT_LEN {
            Err(EngineError::CorruptData)
        } else {
            Self::decode(data)
        }
    }

    /// The stored bytes of an account after the registry was written to it.
    pub open spec fn store(self, data: Seq<u8>) -> Seq<u8> {
        overwrite_prefix(data, self.encode())
    }
}

/// Number of true flags among the first `n` of `flags`.
pub open spec fn count_true(flags: Seq<bool>, n: int) -> int
    decreases n,
{
    if n <= 0 {
        0
    } else {
        count_true(flags, n - 1) + if flags[n - 1] {
            1int
        } else {
            0int
        }
    }
}

/// Where every flag that was true stays true, no fewer flags are true.
pub proof fn lemma_count_true_monotone(before: Seq<bool>, after: Seq<bool>, n: int)
    requires
        0 <= n,
        forall|i: int| 0 <= i < n && before[i] ==> after[i],
    ensures
        count_true(before, n) <= count_true(after, n),
    decreases n,
{
    if n > 0 {
        lemma_count_true_monotone(before, after, n - 1);
    }
}

/// The flags that are all false.
pub open spec fn no_flags() -> Seq<bool> {
    Seq::new(11, |i: int| false)
}

/// Counts the true flags among the first `n`.
pub fn count_flags(flags: &[bool; MAX_SIGNERS], n: usize) -> (count: u8)
    requires
        n <= MAX_SIGNERS,
    ensures
        count == count_true(flags@, n as int),
{
    let mut count: u8 = 0;
    let mut position: usize = 0;
    while position < n
        invariant
            position <= n <= MAX_SIGNERS,
            count == count_true(flags@, position as int),
            count <= position,
        decreases n - position,
    {
        if flags[position] {
            count += 1;
        }
        position += 1;
    }
    count
}

impl MultisigView {
    /// Whether roster seat `i` is occupied, and by `key`.
    pub open spec fn seats(self, i: int, key: Seq<u8>) -> bool {
        0 <= i < self.n && i < 11 && self.signers[i] == key
    }

    /// Whether `key` occupies a seat whose flag is still false.
    pub open spec fn has_open_seat(self, flags: Seq<bool>, key: Seq<u8>) -> bool {
        exists|i: int| self.seats(i, key) && !flags[i]
    }

    /// `flags` with the flag of every seat of `key` true.
    pub open spec fn marked(self, flags: Seq<bool>, key: Seq<u8>) -> Seq<bool> {
        Seq::new(11, |i: int| flags[i] || self.seats(i, key))
    }

    /// What marking the seats of `key` answers. A key with a seat still to
    /// mark must have signed the call; a key with none changes nothing, signed
    /// or not.
    pub open spec fn mark(self, flags: Seq<bool>, key: Seq<u8>, is_signer: bool) -> Result<
        Seq<bool>,
        EngineError,
    > {
        if self.has_open_seat(flags, key) && !is_signer {
            Err(EngineError::MissingRequiredSignature)
        } else {
            Ok(self.marked(flags, key))
        }
    }

    /// The registry that takes `keys` as its roster and `m` as its threshold:
    /// refused where the roster is already set, and where the number of keys
    /// or `m` lies outside `1..=11`. Seats behind the roster hold the zero key.
    pub open spec fn enroll(self, m: u8, keys: Seq<Seq<u8>>) -> Result<MultisigView, EngineError> {
        if self.is_initialized {
            Err(EngineError::AlreadyInitialized)
        } else if !(1 <= keys.len() <= 11) || !(1 <= m <= 11) {
            Err(EngineError::InvalidThreshold)
        } else {
            Ok(
                MultisigView {
                    m,
                    n: keys.len() as u8,
                    is_initialized: true,
                    signers: Seq::new(
                        11,
                        |i: int|
                            if i < keys.len() {
                                keys[i]
                            } else {
                                Seq::new(32, |j: int| 0u8)
                            },
                    ),
                },
            )
        }
    }
}

/// Reading a stored registry gives the registry back, whatever lies behind
/// its bytes.
pub proof fn lemma_multisig_round_trip(registry: MultisigView, rest: Seq<u8>)
    requires
        registry.wf(),
    ensures
        MultisigView::decode(registry.encode() + rest) == Ok::<MultisigView, EngineError>(registry),
{
    let bytes = registry.encode() + rest;
    let decoded = MultisigView::decode(bytes).unwrap();
    assert forall|i: int| 0 <= i < 11 implies #[trigger] decoded.signers[i] == registry.signers[i] by {
        assert(registry.signers[i].len() == 32);
        assert forall|j: int| 0 <= j < 32 implies key_at(bytes, 3 + 32 * i)[j] == registry.signers[i][j] by {
            let at = 32 * i + j;
            assert(bytes[3 + at] == registry.flat_signers()[at]);
            assert(at / 32 == i && at % 32 == j);
        }
        assert(key_at(bytes, 3 + 32 * i) =~= registry.signers[i]);
    }
    assert(decoded.signers =~= registry.signers);
}

/// Storing the registry that was read from some bytes writes the same bytes.
pub proof fn lemma_multisig_decode_encode(bytes: Seq<u8>)
    requires
        bytes.len() >= MULTISIG_LEN,
        MultisigView::decode(bytes).is_ok(),
    ensures
        MultisigView::decode(bytes).unwrap().wf(),
        MultisigView::decode(bytes).unwrap().encode() == bytes.take(MULTISIG_LEN as int),
        MultisigView::decode(bytes).unwrap().store(bytes) == bytes,
{
    let registry = MultisigView::decode(bytes).unwrap();
    assert forall|j: int| 0 <= j < 352 implies registry.flat_signers()[j] == bytes[3 + j] by {
        let i = j / 32;
        assert(registry.signers[i] == key_at(bytes, 3 + 32 * i));
        assert(32 * i + j % 32 == j);
    }
    assert(registry.encode() =~= bytes.take(MULTISIG_LEN as int));
    assert(registry.store(bytes) =~= bytes);
}

/// Storage that holds nothing but zero bytes reads as a registry whose
/// roster has not been set.
pub proof fn lemma_multisig_zeroed(bytes: Seq<u8>)
    requires
        bytes.len() >= MULTISIG_LEN,
        forall|i: int| 0 <= i < bytes.len() ==> bytes[i] == 0,
    ensures
        MultisigView::decode(bytes).is_ok(),
        !MultisigView::decode(bytes).unwrap().is_initialized,
        MultisigView::decode(bytes).unwrap().wf(),
{
}

impl Multisig {
    /// Every registry has the shape that `wf` describes.
    pub proof fn lemma_wf(&self)
        ensures
            self@.wf(),
            self@.encode().len() == MULTISIG_LEN,
    {
    }

    /// Whether the roster has been set.
    pub fn is_initialized(&self) -> (initialized: bool)
        ensures
            initialized == self@.is_initialized,
    {
        self.is_initialized
    }

    /// Marks in `flags` every roster seat that `key` occupies. Where a seat is
    /// still to mark and the key has not signed, nothing is marked and the
    /// call is refused.
    pub fn mark_seats(&self, flags: &mut [bool; MAX_SIGNERS], key: &Pubkey, is_signer: bool) -> (marked:
        Result<(), EngineError>)
        requires
            self.n <= MAX_SIGNERS,
        ensures
            match self@.mark(old(flags)@, key@, is_signer) {
                Ok(after) => marked.is_ok() && final(flags)@ == after,
                Err(e) => marked == Err::<(), EngineError>(e) && final(flags)@ == old(flags)@,
            },
    {
        let n: usize = self.n as usize;
        let mut position: usize = 0;
        while position < n
            invariant
                position <= n <= MAX_SIGNERS,
                n == self.n,
                forall|k: int|
                    0 <= k < position ==> flags@[k] == (old(flags)@[k] || self@.seats(k, key@)),
                forall|k: int| position <= k < 11 ==> flags@[k] == old(flags)@[k],
                !is_signer ==> forall|k: int|
                    0 <= k < position ==> !(self@.seats(k, key@) && !old(flags)@[k]),
            decreases n - position,
        {
            if self.signers[position] == *key && !flags[position] {
                if !is_signer {
                    assert(self@.seats(position as int, key@) && !old(flags)@[position as int]);
                    assert(flags@ =~= old(flags)@);
                    return Err(EngineError::MissingRequiredSignature);
                }
                flags[position] = true;
            }
            position += 1;
        }
        assert(flags@ =~= self@.marked(old(flags)@, key@));
        Ok(())
    }

    /// Reads the registry stored in the first 355 bytes of `src`.
    pub fn unpack_from_slice(src: &[u8]) -> (unpacked: Result<Multisig, EngineError>)
        requires
            src.len() >= MULTISIG_LEN,
        ensures
            match unpacked {
                Ok(multisig) => MultisigView::decode(src@) == Ok::<MultisigView, EngineError>(multisig@),
                Err(e) => MultisigView::decode(src@) == Err::<MultisigView, EngineError>(e),
            },
    {
        let m = src[0];
        let n = src[1];
        let is_initialized = decode_flag(src[2])?;
        let mut signers: [Pubkey; MAX_SIGNERS] = [Pubkey::zeroed(); MAX_SIGNERS];
        let mut i: usize = 0;
        while i < MAX_SIGNERS
            invariant
                i <= MAX_SIGNERS,
                src.len() >= MULTISIG_LEN,
                forall|k: int| 0 <= k < i ==> (#[trigger] signers@[k])@ == key_at(src@, 3 + 32 * k),
            decreases MAX_SIGNERS - i,
        {
            signers[i] = Pubkey::read_from(src, 3 + 32 * i);
            i += 1;
        }
        let multisig = Multisig { m, n, is_initialized, signers };
        assert(multisig@.signers =~= MultisigView::decode(src@).unwrap().signers);
        Ok(multisig)
    }

    /// Writes the registry over the first 355 bytes of `dst`.
    pub fn pack_into_slice(&self, dst: &mut [u8])
        requires
            old(dst).len() >= MULTISIG_LEN,
        ensures
            final(dst)@ == self@.store(old(dst)@),
    {
        let ghost data = dst@;
        let ghost mut image = Seq::<u8>::empty();
        assert(dst@ =~= overwrite_prefix(data, image));
        dst[0] = self.m;
        proof {
            lemma_append_byte(data, image, self.m);
            image = image + seq![self.m];
        }
        dst[1] = self.n;
        proof {
            lemma_append_byte(data, image, self.n);
            image = image + seq![self.n];
        }
        dst[2] = encode_flag(self.is_initialized);
        proof {
            lemma_append_byte(data, image, flag_byte(self.is_initialized));
            image = image + seq![flag_byte(self.is_initialized)];
        }
        let ghost head = image;
        let ghost flat = self@.flat_signers();
        assert(head =~= seq![self.m, self.n, flag_byte(self.is_initialized)]);
        assert(image =~= head + flat.take(0));
        let mut i: usize = 0;
        while i < MAX_SIGNERS
            invariant
                i <= MAX_SIGNERS,
                dst.len() == data.len(),
                dst.len() >= MULTISIG_LEN,
                head.len() == 3,
                flat == self@.flat_signers(),
                image == head + flat.take(32 * i),
                dst@ == overwrite_prefix(data, image),
            decreases MAX_SIGNERS - i,
        {
            self.signers[i].write_to(dst, 3 + 32 * i);
            proof {
                lemma_append_key(data, image, self.signers@[i as int]@);
                assert(image + self.signers@[i as int]@ =~= head + flat.take(32 * (i + 1)));
                image = head + flat.take(32 * (i + 1));
            }
            i += 1;
        }
        assert(flat.take(352) =~= flat);
    }

    /// Reads the registry that an account stores.
    pub fn unpack_unchecked(input: &[u8]) -> (unpacked: Result<Multisig, EngineError>)
        ensures
            match unpacked {
                Ok(multisig) => MultisigView::load(input@) == Ok::<MultisigView, EngineError>(multisig@),
                Err(e) => MultisigView::load(input@) == Err::<MultisigView, EngineError>(e),
            },
    {
        if input.len() != ACCOUNT_LEN {
            return Err(EngineError::CorruptData);
        }
        Multisig::unpack_from_slice(input)
    }

    /// Writes the registry to an account, which must have the reserved length.
    pub fn pack(&self, dst: &mut [u8]) -> (packed: Result<(), EngineError>)
        ensures
            old(dst).len() == ACCOUNT_LEN ==> packed.is_ok() && final(dst)@ == self@.store(old(dst)@),
            old(dst).len() != ACCOUNT_LEN ==> packed == Err::<(), EngineError>(EngineError::CorruptData)
                && final(dst)@ == old(dst)@,
    {
        if dst.len() != ACCOUNT_LEN {
            return Err(EngineError::CorruptData);
        }
        self.pack_into_slice(dst);
        Ok(())
    }
}

/// An account that the proposed call names, with what the call is granted on it.
#[derive(Clone, Copy, Debug, PartialEq, Eq)]
pub struct TransactionAccount {
    pub pubkey: Pubkey,
    pub is_signer: bool,
    pub is_writable: bool,
}

/// A `TransactionAccount` as a value.
pub struct TransactionAccountView {
    pub pubkey: Seq<u8>,
    pub is_signer: bool,
    pub is_writable: bool,
}

impl View for TransactionAccount {
    type V = TransactionAccountView;

    open spec fn view(&self) -> TransactionAccountView {
        TransactionAccountView {
            pubkey: self.pubkey@,
            is_signer: self.is_signer,
            is_writable: self.is_writable,
        }
    }
}

impl TransactionAccountView {
    /// The thirty-four stored bytes: the key, then the two flags.
    pub open spec fn encode(self) -> Seq<u8> {
        self.pubkey + seq![flag_byte(self.is_signer), flag_byte(self.is_writable)]
    }
}

/// A proposal: one call into another program that waits for the roster's
/// approval.
#[derive(Clone, Copy, Debug, PartialEq, Eq)]
pub struct Transaction {
    /// The registry that this proposal belongs to.
    pub multisig: Pubkey,
    /// The program to call.
    pub program_id: Pubkey,
    /// The accounts handed to that program.
    pub accounts: [TransactionAccount; 2],
    /// The payload of the call.
    pub data: u8,
    /// `signers[i]` is true once roster seat `i` has approved.
    pub signers: [bool; MAX_SIGNERS],
    /// Whether the call has been made.
    pub did_execute: bool,
    /// Whether the slot holds a proposal at all.
    pub is_initialized: bool,
}

/// A proposal as a value.
pub struct TransactionView {
    pub multisig: Seq<u8>,
    pub program_id: Seq<u8>,
    pub accounts: Seq<TransactionAccountView>,
    pub data: u8,
    pub signers: Seq<bool>,
    pub did_execute: bool,
    pub is_initialized: bool,
}

impl View for Transaction {
    type V = TransactionView;

    open spec fn view(&self) -> TransactionView {
        TransactionView {
            multisig: self.multisig@,
            program_id: self.program_id@,
            accounts: Seq::new(2, |i: int| self.accounts@[i]@),
            data: self.data,
            signers: self.signers@,
            did_execute: self.did_execute,
            is_initialized: self.is_initialized,
        }
    }
}

impl TransactionView {
    /// The shape that every proposal has: keys of thirty-two bytes, two
    /// account descriptors, eleven approval flags.
    pub open spec fn wf(self) -> bool {
        &&& self.multisig.len() == 32
        &&& self.program_id.len() == 32
        &&& self.accounts.len() == 2
        &&& self.accounts[0].pubkey.len() == 32
        &&& self.accounts[1].pubkey.len() == 32
        &&& self.signers.len() == 11
    }

    /// The stored bytes of a proposal, field after field.
    pub open spec fn encode(self) -> Seq<u8> {
        self.multisig + self.program_id + self.accounts[0].encode() + self.accounts[1].encode()
            + seq![self.data] + Seq::new(11, |i: int| flag_byte(self.signers[i])) + seq![
            flag_byte(self.did_execute),
            flag_byte(self.is_initialized),
        ]
    }

    /// Whether every flag among the first bytes of `bytes` is 0 or 1.
    pub open spec fn flags_ok(bytes: Seq<u8>) -> bool {
        &&& is_flag(bytes[96])
        &&& is_flag(bytes[97])
        &&& is_flag(bytes[130])
        &&& is_flag(bytes[131])
        &&& forall|i: int| 133 <= i < 144 ==> is_flag(#[trigger] bytes[i])
        &&& is_flag(bytes[144])
        &&& is_flag(bytes[145])
    }

    /// The proposal that the first bytes of `bytes` store, or `CorruptData`
    /// where a flag is neither 0 nor 1.
    pub open spec fn decode(bytes: Seq<u8>) -> Result<TransactionView, EngineError>
        recommends
            bytes.len() >= 146,
    {
        if Self::flags_ok(bytes) {
            Ok(
                TransactionView {
                    multisig: key_at(bytes, 0),
                    program_id: key_at(bytes, 32),
                    accounts: seq![
                        TransactionAccountView {
                            pubkey: key_at(bytes, 64),
                            is_signer: bytes[96] == 1,
                            is_writable: bytes[97] == 1,
                        },
                        TransactionAccountView {
                            pubkey: key_at(bytes, 98),
                            is_signer: bytes[130] == 1,
                            is_writable: bytes[131] == 1,
                        },
                    ],
                    data: bytes[132],
                    signers: Seq::new(11, |i: int| bytes[133 + i] == 1),
                    did_execute: bytes[144] == 1,
                    is_initialized: bytes[145] == 1,
                },
            )
        } else {
            Err(EngineError::CorruptData)
        }
    }

    /// What an account of `data` bytes is read as: `CorruptData` unless it has
    /// the reserved length and its flags are flags.
    pub open spec fn load(data: Seq<u8>) -> Result<TransactionView, EngineError> {
        if data.len() != ACCOUNT_LEN {
            Err(EngineError::CorruptData)
        } else {
            Self::decode(data)
        }
    }

    /// The stored bytes of an account after the proposal was written to it.
    pub open spec fn store(self, data: Seq<u8>) -> Seq<u8> {
        overwrite_prefix(data, self.encode())
    }
}

impl TransactionView {
    /// The proposal after `key` approved it: the flags of the key's seats in
    /// `registry` are true, and nothing else has changed.
    pub open spec fn approve(self, registry: MultisigView, key: Seq<u8>, is_signer: bool) -> Result<
        TransactionView,
        EngineError,
    > {
        match registry.mark(self.signers, key, is_signer) {
            Ok(signers) => Ok(TransactionView { signers, ..self }),
            Err(e) => Err(e),
        }
    }

    /// Number of occupied seats of `registry` that have approved.
    pub open spec fn approvals(self, registry: MultisigView) -> int {
        count_true(self.signers, registry.n as int)
    }

    /// Whether enough seats of `registry` have approved.
    pub open spec fn has_quorum(self, registry: MultisigView) -> bool {
        self.approvals(registry) >= registry.m
    }

    /// The proposal marked as carried out.
    pub open spec fn executed(self) -> TransactionView {
        TransactionView { did_execute: true, ..self }
    }
}

/// Reading a stored proposal gives the proposal back, whatever lies behind
/// its bytes.
pub proof fn lemma_transaction_round_trip(proposal: TransactionView, rest: Seq<u8>)
    requires
        proposal.wf(),
    ensures
        TransactionView::decode(proposal.encode() + rest) == Ok::<TransactionView, EngineError>(
            proposal,
        ),
{
    let bytes = proposal.encode() + rest;
    assert(bytes[96] == flag_byte(proposal.accounts[0].is_signer));
    assert(bytes[97] == flag_byte(proposal.accounts[0].is_writable));
    assert(bytes[130] == flag_byte(proposal.accounts[1].is_signer));
    assert(bytes[131] == flag_byte(proposal.accounts[1].is_writable));
    assert(bytes[132] == proposal.data);
    assert forall|i: int| 133 <= i < 144 implies #[trigger] bytes[i] == flag_byte(
        proposal.signers[i - 133],
    ) by {}
    assert(bytes[144] == flag_byte(proposal.did_execute));
    assert(bytes[145] == flag_byte(proposal.is_initialized));
    assert(TransactionView::flags_ok(bytes));
    let decoded = TransactionView::decode(bytes).unwrap();
    assert(decoded.multisig =~= proposal.multisig);
    assert(decoded.program_id =~= proposal.program_id);
    assert(decoded.accounts[0].pubkey =~= proposal.accounts[0].pubkey);
    assert(decoded.accounts[1].pubkey =~= proposal.accounts[1].pubkey);
    assert(decoded.accounts =~= proposal.accounts);
    assert forall|i: int| 0 <= i < 11 implies decoded.signers[i] == proposal.signers[i] by {
        assert(bytes[133 + i] == flag_byte(proposal.signers[133 + i - 133]));
    }
    assert(decoded.signers =~= proposal.signers);
}

/// Storing the proposal that was read from some bytes writes the same bytes.
pub proof fn lemma_transaction_decode_encode(bytes: Seq<u8>)
    requires
        bytes.len() >= TRANSACTION_LEN,
        TransactionView::decode(bytes).is_ok(),
    ensures
        TransactionView::decode(bytes).unwrap().wf(),
        TransactionView::decode(bytes).unwrap().encode() == bytes.take(TRANSACTION_LEN as int),
        TransactionView::decode(bytes).unwrap().store(bytes) == bytes,
{
    let proposal = TransactionView::decode(bytes).unwrap();
    assert(proposal.encode() =~= bytes.take(TRANSACTION_LEN as int));
    assert(proposal.store(bytes) =~= bytes);
}

/// Storage that holds nothing but zero bytes reads as an empty proposal
/// slot.
pub proof fn lemma_transaction_zeroed(bytes: Seq<u8>)
    requires
        bytes.len() >= TRANSACTION_LEN,
        forall|i: int| 0 <= i < bytes.len() ==> bytes[i] == 0,
    ensures
        TransactionView::decode(bytes).is_ok(),
        !TransactionView::decode(bytes).unwrap().is_initialized,
        !TransactionView::decode(bytes).unwrap().did_execute,
        TransactionView::decode(bytes).unwrap().wf(),
{
}

impl Transaction {
    /// Every proposal has the shape that `wf` describes.
    pub proof fn lemma_wf(&self)
        ensures
            self@.wf(),
            self@.encode().len() == TRANSACTION_LEN,
    {
    }

    /// Whether the slot holds a proposal.
    pub fn is_initialized(&self) -> (initialized: bool)
        ensures
            initialized == self@.is_initialized,
    {
        self.is_initialized
    }

    /// Reads the proposal stored in the first 146 bytes of `src`.
    pub fn unpack_from_slice(src: &[u8]) -> (unpacked: Result<Transaction, EngineError>)
        requires
            src.len() >= TRANSACTION_LEN,
        ensures
            match unpacked {
                Ok(transaction) => TransactionView::decode(src@) == Ok::<TransactionView, EngineError>(
                    transaction@,
                ),
                Err(e) => TransactionView::decode(src@) == Err::<TransactionView, EngineError>(e),
            },
    {
        let multisig = Pubkey::read_from(src, 0);
        let program_id = Pubkey::read_from(src, 32);
        let pubkey1 = Pubkey::read_from(src, 64);
        let is_signer1 = decode_flag(src[96])?;
        let is_writable1 = decode_flag(src[97])?;
        let pubkey2 = Pubkey::read_from(src, 98);
        let is_signer2 = decode_flag(src[130])?;
        let is_writable2 = decode_flag(src[131])?;
        let data = src[132];
        let mut signers: [bool; MAX_SIGNERS] = [false; MAX_SIGNERS];
        let mut i: usize = 0;
        while i < MAX_SIGNERS
            invariant
                i <= MAX_SIGNERS,
                src.len() >= TRANSACTION_LEN,
                forall|k: int| 0 <= k < i ==> is_flag(#[trigger] src@[133 + k]),
                forall|k: int| 0 <= k < i ==> signers@[k] == (src@[133 + k] == 1),
            ensures
                i == MAX_SIGNERS,
            decreases MAX_SIGNERS - i,
        {
            let flag = decode_flag(src[133 + i]);
            match flag {
                Ok(approved) => {
                    signers[i] = approved;
                },
                Err(e) => {
                    assert(!is_flag(src@[133 + i]));
                    return Err(e);
                },
            }
            i += 1;
        }
        let did_execute = decode_flag(src[144])?;
        let is_initialized = decode_flag(src[145])?;
        let transaction = Transaction {
            multisig,
            program_id,
            accounts: [
                TransactionAccount { pubkey: pubkey1, is_signer: is_signer1, is_writable: is_writable1 },
                TransactionAccount { pubkey: pubkey2, is_signer: is_signer2, is_writable: is_writable2 },
            ],
            data,
            signers,
            did_execute,
            is_initialized,
        };
        proof {
            assert forall|k: int| 133 <= k < 144 implies is_flag(#[trigger] src@[k]) by {
                assert(is_flag(src@[133 + (k - 133)]));
            }
            let decoded = TransactionView::decode(src@).unwrap();
            assert(transaction@.accounts =~= decoded.accounts);
            assert(transaction@.signers =~= decoded.signers);
        }
        Ok(transaction)
    }

    /// Writes the proposal over the first 146 bytes of `dst`.
    pub fn pack_into_slice(&self, dst: &mut [u8])
        requires
            old(dst).len() >= TRANSACTION_LEN,
        ensures
            final(dst)@ == self@.store(old(dst)@),
    {
        let ghost data = dst@;
        let ghost mut image = Seq::<u8>::empty();
        assert(dst@ =~= overwrite_prefix(data, image));
        self.multisig.write_to(dst, 0);
        proof {
            lemma_append_key(data, image, self.multisig@);
            image = image + self.multisig@;
        }
        self.program_id.write_to(dst, 32);
        proof {
            lemma_append_key(data, image, self.program_id@);
            image = image + self.program_id@;
        }
        let mut a: usize = 0;
        while a < 2
            invariant
                a <= 2,
                dst.len() == data.len(),
                dst.len() >= TRANSACTION_LEN,
                image.len() == 64 + 34 * a,
                dst@ == overwrite_prefix(data, image),
                a == 0 ==> image == self@.multisig + self@.program_id,
                a == 1 ==> image == self@.multisig + self@.program_id + self@.accounts[0].encode(),
                a == 2 ==> image == self@.multisig + self@.program_id + self@.accounts[0].encode()
                    + self@.accounts[1].encode(),
            decreases 2 - a,
        {
            let ghost head = image;
            let account = &self.accounts[a];
            account.pubkey.write_to(dst, 64 + 34 * a);
            proof {
                lemma_append_key(data, image, account.pubkey@);
                image = image + account.pubkey@;
            }
            dst[96 + 34 * a] = encode_flag(account.is_signer);
            proof {
                lemma_append_byte(data, image, flag_byte(account.is_signer));
                image = image + seq![flag_byte(account.is_signer)];
            }
            dst[97 + 34 * a] = encode_flag(account.is_writable);
            proof {
                lemma_append_byte(data, image, flag_byte(account.is_writable));
                image = image + seq![flag_byte(account.is_writable)];
                assert(image =~= head + account@.encode());
            }
            a += 1;
        }
        dst[132] = self.data;
        proof {
            lemma_append_byte(data, image, self.data);
            image = image + seq![self.data];
        }
        let ghost head = image;
        let ghost flags = Seq::new(11, |k: int| flag_byte(self@.signers[k]));
        assert(image =~= head + flags.take(0));
        let mut i: usize = 0;
        while i < MAX_SIGNERS
            invariant
                i <= MAX_SIGNERS,
                dst.len() == data.len(),
                dst.len() >= TRANSACTION_LEN,
                head.len() == 133,
                flags == Seq::new(11, |k: int| flag_byte(self@.signers[k])),
                image == head + flags.take(i as int),
                dst@ == overwrite_prefix(data, image),
            decreases MAX_SIGNERS - i,
        {
            dst[133 + i] = encode_flag(self.signers[i]);
            proof {
                lemma_append_byte(data, image, flag_byte(self.signers@[i as int]));
                assert(image + seq![flag_byte(self.signers@[i as int])] =~= head + flags.take(i + 1));
                image = head + flags.take(i + 1);
            }
            i += 1;
        }
        assert(flags.take(11) =~= flags);
        dst[144] = encode_flag(self.did_execute);
        proof {
            lemma_append_byte(data, image, flag_byte(self.did_execute));
            image = image + seq![flag_byte(self.did_execute)];
        }
        dst[145] = encode_flag(self.is_initialized);
        proof {
            lemma_append_byte(data, image, flag_byte(self.is_initialized));
            image = image + seq![flag_byte(self.is_initialized)];
            assert(image =~= self@.encode());
        }
    }

    /// Reads the proposal that an account stores.
    pub fn unpack_unchecked(input: &[u8]) -> (unpacked: Result<Transaction, EngineError>)
        ensures
            match unpacked {
                Ok(transaction) => TransactionView::load(input@) == Ok::<TransactionView, EngineError>(
                    transaction@,
                ),
                Err(e) => TransactionView::load(input@) == Err::<TransactionView, EngineError>(e),
            },
    {
        if input.len() != ACCOUNT_LEN {
            return Err(EngineError::CorruptData);
        }
        Transaction::unpack_from_slice(input)
    }

    /// Writes the proposal to an account, which must have the reserved length.
    pub fn pack(&self, dst: &mut [u8]) -> (packed: Result<(), EngineError>)
        ensures
            old(dst).len() == ACCOUNT_LEN ==> packed.is_ok() && final(dst)@ == self@.store(old(dst)@),
            old(dst).len() != ACCOUNT_LEN ==> packed == Err::<(), EngineError>(EngineError::CorruptData)
                && final(dst)@ == old(dst)@,
    {
        if dst.len() != ACCOUNT_LEN {
            return Err(EngineError::CorruptData);
        }
        self.pack_into_slice(dst);
        Ok(())
    }
}

} // verus!
