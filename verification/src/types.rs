//! Plain data types shared by the whole crate.
//!
//! Addresses and hashes are carried as integers; transactions carry the few
//! fields the engine actually reads (sender, recipient, value, intrinsic
//! nonce, gas limit and whether the transaction is a deposit).

use vstd::prelude::*;

verus! {

/// Canonical account state at the engine's anchor height.
#[derive(Clone, Copy, Debug, PartialEq, Eq, Structural)]
pub struct Account {
    pub balance: u128,
    pub nonce: u64,
}

/// Speculative per-address delta layered over canonical state.
///
/// `balance` and `code_hash` are absolute replacement values when present;
/// `nonce_delta` is the number of pending-sequence transactions sent by the
/// address, recomputed from the transaction list on every merge.
#[derive(Clone, Copy, Debug)]
pub struct AccountOverride {
    pub balance: Option<u128>,
    pub nonce_delta: u64,
    pub code_hash: Option<u64>,
}

/// A transaction as the engine sees it: the decoded fields its logic reads.
#[derive(Clone, Copy, Debug, PartialEq, Eq, Structural)]
pub struct Tx {
    pub hash: u64,
    pub from: u64,
    pub to: u64,
    pub value: u128,
    /// The intrinsic nonce carried by the transaction itself.
    pub nonce: u64,
    pub gas_limit: u64,
    /// Deposit transactions mint their value instead of debiting the sender.
    pub is_deposit: bool,
}

/// An execution receipt, keyed by transaction hash inside a fragment.
#[derive(Clone, Copy, Debug)]
pub struct TxReceipt {
    pub tx_hash: u64,
    pub status: bool,
    pub cumulative_gas_used: u64,
    pub deposit_nonce: Option<u64>,
}

/// Header fields carried only by an index-0 fragment: everything needed to
/// synthesize a pending header before any canonical execution has happened.
#[derive(Clone, Copy, Debug, PartialEq, Eq, Structural)]
pub struct ExecutionPayloadBase {
    pub parent_hash: u64,
    pub fee_recipient: u64,
    pub block_number: u64,
    pub gas_limit: u64,
    pub timestamp: u64,
    pub base_fee_per_gas: u128,
}

/// The per-fragment delta: transactions to append plus best-effort header
/// fields reflecting the state after this fragment.
#[derive(Debug)]
pub struct FlashblockDelta {
    pub state_root: u64,
    pub block_hash: u64,
    pub gas_used: u64,
    pub transactions: Vec<Tx>,
}

/// Fragment metadata: the target canonical height this fragment builds
/// toward, and an optional receipt map.  Receipts are optional; their
/// absence never blocks block assembly.
#[derive(Debug)]
pub struct Metadata {
    pub block_number: u64,
    pub receipts: Option<Vec<TxReceipt>>,
}

/// One partial block fragment ("flashblock").  Index 0 carries the base
/// payload; later indices append transactions to the sequence.
#[derive(Debug)]
pub struct Flashblock {
    pub payload_id: u64,
    pub index: u64,
    pub base: Option<ExecutionPayloadBase>,
    pub diff: FlashblockDelta,
    pub metadata: Metadata,
}

/// A committed (or reorged-in) canonical block, as delivered by the chain.
#[derive(Debug)]
pub struct CanonicalBlock {
    pub number: u64,
    pub hash: u64,
    pub parent_hash: u64,
    pub fee_recipient: u64,
    pub gas_limit: u64,
    pub gas_used: u64,
    pub timestamp: u64,
    pub base_fee_per_gas: u128,
    pub state_root: u64,
    pub transactions: Vec<Tx>,
}

/// A block number together with its hash.
#[derive(Clone, Copy, Debug, PartialEq, Eq, Structural)]
pub struct BlockNumHash {
    pub number: u64,
    pub hash: u64,
}

/// The synthesized pending view served to readers.
#[derive(Debug)]
pub struct PendingBlock {
    pub number: u64,
    pub parent_hash: u64,
    pub fee_recipient: u64,
    pub gas_limit: u64,
    pub timestamp: u64,
    pub base_fee_per_gas: u128,
    pub gas_used: u64,
    pub state_root: u64,
    pub block_hash: u64,
    pub transactions: Vec<Tx>,
}

/// How the engine disposed of an ingested fragment.  Every disposition is a
/// successful ingestion: sequencing anomalies are resolved by state
/// transition, never surfaced as errors.
#[derive(Clone, Copy, Debug, PartialEq, Eq, Structural)]
pub enum IngestOutcome {
    /// The fragment was byte-identical to one already applied at its index.
    Duplicate,
    /// An index-0 fragment started (or restarted) a pending sequence.
    Started,
    /// The fragment extended the live sequence at the expected next index.
    Extended,
    /// The fragment did not fit the live sequence, which was discarded.
    Invalidated,
    /// No live sequence exists and the fragment could not start one.
    Ignored,
}

/// Mathematical view of a [`Flashblock`], with the delta and metadata
/// flattened.
#[verifier::ext_equal]
pub ghost struct FlashblockModel {
    pub payload_id: u64,
    pub index: u64,
    pub base: Option<ExecutionPayloadBase>,
    pub state_root: u64,
    pub block_hash: u64,
    pub gas_used: u64,
    pub transactions: Seq<Tx>,
    pub block_number: u64,
    pub receipts: Option<Seq<TxReceipt>>,
}

/// Mathematical view of a [`CanonicalBlock`].
#[verifier::ext_equal]
pub ghost struct CanonicalBlockModel {
    pub number: u64,
    pub hash: u64,
    pub parent_hash: u64,
    pub fee_recipient: u64,
    pub gas_limit: u64,
    pub gas_used: u64,
    pub timestamp: u64,
    pub base_fee_per_gas: u128,
    pub state_root: u64,
    pub transactions: Seq<Tx>,
}

/// Mathematical view of a [`PendingBlock`].
#[verifier::ext_equal]
pub ghost struct PendingBlockModel {
    pub number: u64,
    pub parent_hash: u64,
    pub fee_recipient: u64,
    pub gas_limit: u64,
    pub timestamp: u64,
    pub base_fee_per_gas: u128,
    pub gas_used: u64,
    pub state_root: u64,
    pub block_hash: u64,
    pub transactions: Seq<Tx>,
}

impl View for Flashblock {
    type V = FlashblockModel;

    open spec fn view(&self) -> FlashblockModel {
        FlashblockModel {
            payload_id: self.payload_id,
            index: self.index,
            base: self.base,
            state_root: self.diff.state_root,
            block_hash: self.diff.block_hash,
            gas_used: self.diff.gas_used,
            transactions: self.diff.transactions@,
            block_number: self.metadata.block_number,
            receipts: match self.metadata.receipts {
                Some(v) => Some(v@),
                None => None,
            },
        }
    }
}

impl View for CanonicalBlock {
    type V = CanonicalBlockModel;

    open spec fn view(&self) -> CanonicalBlockModel {
        CanonicalBlockModel {
            number: self.number,
            hash: self.hash,
            parent_hash: self.parent_hash,
            fee_recipient: self.fee_recipient,
            gas_limit: self.gas_limit,
            gas_used: self.gas_used,
            timestamp: self.timestamp,
            base_fee_per_gas: self.base_fee_per_gas,
            state_root: self.state_root,
            transactions: self.transactions@,
        }
    }
}

impl View for PendingBlock {
    type V = PendingBlockModel;

    open spec fn view(&self) -> PendingBlockModel {
        PendingBlockModel {
            number: self.number,
            parent_hash: self.parent_hash,
            fee_recipient: self.fee_recipient,
            gas_limit: self.gas_limit,
            timestamp: self.timestamp,
            base_fee_per_gas: self.base_fee_per_gas,
            gas_used: self.gas_used,
            state_root: self.state_root,
            block_hash: self.block_hash,
            transactions: self.transactions@,
        }
    }
}

/// Saturating increment, used wherever a "next height" is computed.
pub open spec fn spec_inc_u64(x: u64) -> u64 {
    if x == u64::MAX { u64::MAX } else { (x + 1) as u64 }
}

pub fn inc_u64(x: u64) -> (r: u64)
    ensures
        r == spec_inc_u64(x),
{
    if x == u64::MAX { u64::MAX } else { x + 1 }
}

pub open spec fn spec_max_u64(a: u64, b: u64) -> u64 {
    if a >= b { a } else { b }
}

pub fn max_u64(a: u64, b: u64) -> (r: u64)
    ensures
        r == spec_max_u64(a, b),
{
    if a >= b { a } else { b }
}

/// An element-wise copy of a transaction list.
pub fn copy_txs(v: &Vec<Tx>) -> (r: Vec<Tx>)
    ensures
        r@ == v@,
{
    let mut r: Vec<Tx> = Vec::new();
    let n = v.len();
    for i in 0..n
        invariant
            n == v@.len(),
            r@ == v@.take(i as int),
    {
        r.push(v[i]);
        proof {
            assert(v@.take(i + 1).drop_last() =~= v@.take(i as int));
            assert(r@ =~= v@.take(i + 1));
        }
    }
    proof {
        assert(v@.take(n as int) =~= v@);
    }
    r
}

/// A copy of a canonical block with the same view.
pub fn copy_block(b: &CanonicalBlock) -> (r: CanonicalBlock)
    ensures
        r@ == b@,
{
    let r = CanonicalBlock {
        number: b.number,
        hash: b.hash,
        parent_hash: b.parent_hash,
        fee_recipient: b.fee_recipient,
        gas_limit: b.gas_limit,
        gas_used: b.gas_used,
        timestamp: b.timestamp,
        base_fee_per_gas: b.base_fee_per_gas,
        state_root: b.state_root,
        transactions: copy_txs(&b.transactions),
    };
    proof {
        assert(r@ =~= b@);
    }
    r
}

/// Structural equality of two optional base payloads.
pub fn eq_opt_base(a: &Option<ExecutionPayloadBase>, b: &Option<ExecutionPayloadBase>) -> (r: bool)
    ensures
        r == (*a == *b),
{
    match (a, b) {
        (None, None) => true,
        (Some(x), Some(y)) => *x == *y,
        _ => false,
    }
}

/// Structural equality of two receipts.
pub fn eq_receipt(a: &TxReceipt, b: &TxReceipt) -> (r: bool)
    ensures
        r == (*a == *b),
{
    let nonce_eq = match (&a.deposit_nonce, &b.deposit_nonce) {
        (None, None) => true,
        (Some(x), Some(y)) => *x == *y,
        _ => false,
    };
    a.tx_hash == b.tx_hash && a.status == b.status && a.cumulative_gas_used == b.cumulative_gas_used
        && nonce_eq
}

/// Element-wise equality of two transaction lists.
pub fn eq_tx_vec(a: &Vec<Tx>, b: &Vec<Tx>) -> (r: bool)
    ensures
        r == (a@ == b@),
{
    if a.len() != b.len() {
        proof {
            assert(a@.len() != b@.len());
        }
        return false;
    }
    let n = a.len();
    for i in 0..n
        invariant
            n == a@.len(),
            n == b@.len(),
            forall|j: int| 0 <= j < i ==> a@[j] == b@[j],
    {
        if !(a[i] == b[i]) {
            return false;
        }
    }
    proof {
        assert(a@ =~= b@);
    }
    true
}

/// Element-wise equality of two receipt lists.
pub fn eq_receipt_vec(a: &Vec<TxReceipt>, b: &Vec<TxReceipt>) -> (r: bool)
    ensures
        r == (a@ == b@),
{
    if a.len() != b.len() {
        proof {
            assert(a@.len() != b@.len());
        }
        return false;
    }
    let n = a.len();
    for i in 0..n
        invariant
            n == a@.len(),
            n == b@.len(),
            forall|j: int| 0 <= j < i ==> a@[j] == b@[j],
    {
        if !eq_receipt(&a[i], &b[i]) {
            return false;
        }
    }
    proof {
        assert(a@ =~= b@);
    }
    true
}

/// Equality of two optional receipt maps.
pub fn eq_receipts(a: &Option<Vec<TxReceipt>>, b: &Option<Vec<TxReceipt>>) -> (r: bool)
    ensures
        r == (match (a, b) {
            (Some(x), Some(y)) => x@ == y@,
            (None, None) => true,
            _ => false,
        }),
{
    match (a, b) {
        (None, None) => true,
        (Some(x), Some(y)) => eq_receipt_vec(x, y),
        _ => false,
    }
}

/// Content equality of two fragments: true exactly when their mathematical
/// views coincide.  This is the engine's notion of a byte-identical replay.
pub fn eq_flashblock(a: &Flashblock, b: &Flashblock) -> (r: bool)
    ensures
        r == (a@ == b@),
{
    let r = a.payload_id == b.payload_id && a.index == b.index && eq_opt_base(&a.base, &b.base)
        && a.diff.state_root == b.diff.state_root && a.diff.block_hash == b.diff.block_hash
        && a.diff.gas_used == b.diff.gas_used && eq_tx_vec(&a.diff.transactions, &b.diff.transactions)
        && a.metadata.block_number == b.metadata.block_number
        && eq_receipts(&a.metadata.receipts, &b.metadata.receipts);
    proof {
        if r {
            assert(a@ =~= b@);
        }
    }
    r
}

} // verus!
