//! The pending-state reconciliation engine.
//!
//! [`FlashblocksState`] ingests an ordered stream of block fragments and
//! canonical block events, merges them into a single coherent "pending block
//! plus state overrides" snapshot, and serves that snapshot through
//! read-only queries.  Sequencing anomalies are resolved by state
//! transition — an unusable fragment discards the live sequence — never by
//! surfacing an error to readers.

use vstd::prelude::*;
use crate::assoc::AssocMap;
use crate::overrides::AccountMap;
use crate::overrides::OverrideMap;
use crate::overrides::acct_get;
use crate::overrides::ovr_get;
use crate::step::apply_block_range;
use crate::step::apply_block_txs;
use crate::step::apply_range;
use crate::step::apply_txs;
use crate::step::count_from;
use crate::step::count_from_prefix;
use crate::types::Account;
use crate::types::AccountOverride;
use crate::types::CanonicalBlock;
use crate::types::CanonicalBlockModel;
use crate::types::ExecutionPayloadBase;
use crate::types::Flashblock;
use crate::types::FlashblockModel;
use crate::types::IngestOutcome;
use crate::types::PendingBlock;
use crate::types::PendingBlockModel;
use crate::types::Tx;
use crate::types::copy_txs;
use crate::types::eq_flashblock;
use crate::types::inc_u64;
use crate::types::max_u64;
use crate::types::spec_inc_u64;
use crate::types::spec_max_u64;

verus! {

/// Mathematical view of the live pending sequence.
#[verifier::ext_equal]
pub ghost struct PendingModel {
    /// The canonical height this sequence is building toward.
    pub target: u64,
    /// The fragments applied so far, in index order.
    pub frags: Seq<FlashblockModel>,
    /// The concatenation of the fragments' transaction lists.
    pub txs: Seq<Tx>,
    /// Speculative account deltas produced by executing `txs`.
    pub overrides: Map<u64, AccountOverride>,
    /// The base payload carried by fragment 0, once applied.
    pub base: Option<ExecutionPayloadBase>,
    /// Best-effort header fields from the most recent fragment.
    pub gas_used: u64,
    pub state_root: u64,
    pub block_hash: u64,
    /// How many canonical catch-ups the override map has been carried across.
    pub depth: u64,
}

/// Mathematical view of the whole engine.
#[verifier::ext_equal]
pub ghost struct StateModel {
    /// Canonical account state at the anchor.
    pub accounts: Map<u64, Account>,
    /// The highest canonical block incorporated so far.
    pub anchor_number: u64,
    pub anchor_hash: u64,
    /// The most recent canonical block, used as the fallback pending view.
    pub latest: Option<CanonicalBlockModel>,
    /// The live pending sequence, if any.
    pub pending: Option<PendingModel>,
    /// How much carried-over speculative state is retained before forcing
    /// a fresh override map.
    pub max_depth: u64,
}

/// The transactions of a fragment sequence, concatenated in index order.
pub open spec fn concat_txs(frags: Seq<FlashblockModel>) -> Seq<Tx>
    decreases frags.len(),
{
    if frags.len() == 0 {
        Seq::empty()
    } else {
        concat_txs(frags.drop_last()) + frags.last().transactions
    }
}

impl PendingModel {
    /// Structural invariant of a live sequence: fragment `i` sits at index
    /// `i`, the transaction list is the concatenation of the fragments'
    /// lists, fragment 0 carries the base payload, and every later fragment
    /// extends this sequence's target with no base of its own.
    pub open spec fn wf(self) -> bool {
        &&& forall|i: int| 0 <= i < self.frags.len() ==> (#[trigger] self.frags[i]).index == i
        &&& self.txs == concat_txs(self.frags)
        &&& (self.frags.len() == 0 ==> self.base is None)
        &&& (self.frags.len() > 0 ==> self.frags[0].base is Some && self.base == self.frags[0].base)
        &&& forall|i: int|
            1 <= i < self.frags.len() ==> (#[trigger] self.frags[i]).base is None
                && self.frags[i].block_number == self.target
    }
}

/// Engine-wide invariant at the model level.
pub open spec fn wf_state(s: StateModel) -> bool {
    match s.pending {
        Some(p) => p.wf(),
        None => true,
    }
}

/// An index-0 fragment carries a base payload; later fragments do not.
pub open spec fn spec_shape_ok(f: FlashblockModel) -> bool {
    (f.index == 0) <==> (f.base is Some)
}

/// The height a new sequence started by `f` builds toward: the fragment's
/// stated target, but never below the next canonical height.
pub open spec fn spec_new_target(s: StateModel, f: FlashblockModel) -> u64 {
    spec_max_u64(f.block_number, spec_inc_u64(s.anchor_number))
}

/// The override map a new sequence starts from: carried forward on a
/// rebase of the same target height, empty otherwise.
pub open spec fn spec_carry_overrides(s: StateModel, new_target: u64) -> Map<u64, AccountOverride> {
    match s.pending {
        Some(p) => if p.target == new_target {
            p.overrides
        } else {
            Map::empty()
        },
        None => Map::empty(),
    }
}

pub open spec fn spec_carry_depth(s: StateModel, new_target: u64) -> u64 {
    match s.pending {
        Some(p) => if p.target == new_target {
            p.depth
        } else {
            0u64
        },
        None => 0u64,
    }
}

/// Start a fresh sequence from an index-0 fragment.
pub open spec fn spec_start_new(s: StateModel, f: FlashblockModel) -> StateModel {
    let new_target = spec_new_target(s, f);
    let ovr0 = spec_carry_overrides(s, new_target);
    let p0 = PendingModel {
        target: new_target,
        frags: seq![f],
        txs: f.transactions,
        overrides: apply_range(s.accounts, ovr0, f.transactions, 0, f.transactions.len() as int),
        base: f.base,
        gas_used: f.gas_used,
        state_root: f.state_root,
        block_hash: f.block_hash,
        depth: spec_carry_depth(s, new_target),
    };
    StateModel { pending: Some(p0), ..s }
}

/// Extend the live sequence with the expected next fragment.
pub open spec fn spec_extend(s: StateModel, p: PendingModel, f: FlashblockModel) -> PendingModel {
    let txs2 = p.txs + f.transactions;
    PendingModel {
        target: p.target,
        frags: p.frags.push(f),
        txs: txs2,
        overrides: apply_range(s.accounts, p.overrides, txs2, p.txs.len() as int, txs2.len() as int),
        base: p.base,
        gas_used: f.gas_used,
        state_root: f.state_root,
        block_hash: f.block_hash,
        depth: p.depth,
    }
}

/// The engine after ingesting one fragment.
///
/// A byte-identical replay of an applied fragment is a no-op; an index-0
/// fragment starts (or rebases) a sequence; the expected next index extends
/// the live sequence; anything else discards it, and with no live sequence
/// a non-base fragment is ignored.
pub open spec fn spec_ingest(s: StateModel, f: FlashblockModel) -> StateModel {
    match s.pending {
        Some(p) => {
            if f.index < p.frags.len() && f == p.frags[f.index as int] {
                s
            } else if !spec_shape_ok(f) {
                StateModel { pending: None, ..s }
            } else if f.index == 0 {
                spec_start_new(s, f)
            } else if f.index == p.frags.len() && f.block_number == p.target {
                StateModel { pending: Some(spec_extend(s, p, f)), ..s }
            } else {
                StateModel { pending: None, ..s }
            }
        },
        None => {
            if f.index == 0 && spec_shape_ok(f) {
                spec_start_new(s, f)
            } else {
                s
            }
        },
    }
}

/// The disposition reported for one ingested fragment.
pub open spec fn spec_outcome(s: StateModel, f: FlashblockModel) -> IngestOutcome {
    match s.pending {
        Some(p) => {
            if f.index < p.frags.len() && f == p.frags[f.index as int] {
                IngestOutcome::Duplicate
            } else if !spec_shape_ok(f) {
                IngestOutcome::Invalidated
            } else if f.index == 0 {
                IngestOutcome::Started
            } else if f.index == p.frags.len() && f.block_number == p.target {
                IngestOutcome::Extended
            } else {
                IngestOutcome::Invalidated
            }
        },
        None => {
            if f.index == 0 && spec_shape_ok(f) {
                IngestOutcome::Started
            } else {
                IngestOutcome::Ignored
            }
        },
    }
}

/// The live sequence after the canonical chain caught up with its target:
/// assembly restarts for the next height, while the override map is carried
/// forward as the seed of the next height's deltas — unless it has already
/// been carried across `max_depth` catch-ups, in which case it is dropped.
pub open spec fn spec_reset(p: PendingModel, number: u64, max_depth: u64) -> PendingModel {
    let keep = p.depth < max_depth;
    PendingModel {
        target: spec_inc_u64(number),
        frags: Seq::empty(),
        txs: Seq::empty(),
        overrides: if keep {
            p.overrides
        } else {
            Map::empty()
        },
        base: None,
        gas_used: 0,
        state_root: 0,
        block_hash: 0,
        depth: if keep {
            (p.depth + 1) as u64
        } else {
            0u64
        },
    }
}

/// The engine after one canonical block: canonical account state absorbs
/// the block, the anchor advances, and the live sequence is reconciled
/// (carried forward on a target match, discarded otherwise).
pub open spec fn spec_on_canonical(s: StateModel, b: CanonicalBlockModel) -> StateModel {
    StateModel {
        accounts: apply_block_range(s.accounts, b.transactions, b.transactions.len() as int),
        anchor_number: b.number,
        anchor_hash: b.hash,
        latest: Some(b),
        pending: match s.pending {
            Some(p) => if p.target == b.number {
                Some(spec_reset(p, b.number, s.max_depth))
            } else {
                None
            },
            None => None,
        },
        max_depth: s.max_depth,
    }
}

/// The pending block synthesized from a live sequence with at least one
/// applied fragment.
pub open spec fn spec_assemble(p: PendingModel) -> PendingBlockModel {
    match p.base {
        Some(b) => PendingBlockModel {
            number: p.target,
            parent_hash: b.parent_hash,
            fee_recipient: b.fee_recipient,
            gas_limit: b.gas_limit,
            timestamp: b.timestamp,
            base_fee_per_gas: b.base_fee_per_gas,
            gas_used: p.gas_used,
            state_root: p.state_root,
            block_hash: p.block_hash,
            transactions: p.txs,
        },
        None => PendingBlockModel {
            number: p.target,
            parent_hash: 0,
            fee_recipient: 0,
            gas_limit: 0,
            timestamp: 0,
            base_fee_per_gas: 0,
            gas_used: p.gas_used,
            state_root: p.state_root,
            block_hash: p.block_hash,
            transactions: p.txs,
        },
    }
}

/// The latest canonical block re-labelled as the pending view.
pub open spec fn spec_fallback_block(b: CanonicalBlockModel) -> PendingBlockModel {
    PendingBlockModel {
        number: b.number,
        parent_hash: b.parent_hash,
        fee_recipient: b.fee_recipient,
        gas_limit: b.gas_limit,
        timestamp: b.timestamp,
        base_fee_per_gas: b.base_fee_per_gas,
        gas_used: b.gas_used,
        state_root: b.state_root,
        block_hash: b.hash,
        transactions: b.transactions,
    }
}

pub open spec fn spec_fallback(s: StateModel, allow_fallback: bool) -> Option<PendingBlockModel> {
    if allow_fallback {
        match s.latest {
            Some(b) => Some(spec_fallback_block(b)),
            None => None,
        }
    } else {
        None
    }
}

/// The block served to readers: the assembled pending block when a live
/// sequence has at least one applied fragment, else the canonical fallback
/// when allowed, else nothing.
pub open spec fn spec_get_block(s: StateModel, allow_fallback: bool) -> Option<PendingBlockModel> {
    match s.pending {
        Some(p) => if p.frags.len() > 0 {
            Some(spec_assemble(p))
        } else {
            spec_fallback(s, allow_fallback)
        },
        None => spec_fallback(s, allow_fallback),
    }
}

/// The number of pending-sequence transactions sent by an address,
/// re-derived from the live transaction list.
pub open spec fn spec_tx_count(s: StateModel, a: u64) -> nat {
    match s.pending {
        Some(p) => count_from(p.txs, a),
        None => 0,
    }
}

/// The override balance served for an address, when one exists.
pub open spec fn spec_balance(s: StateModel, a: u64) -> Option<u128> {
    match s.pending {
        Some(p) => ovr_get(p.overrides, a).balance,
        None => None,
    }
}

/// Ingesting a fragment preserves the engine invariant.
pub proof fn lemma_ingest_preserves_wf(s: StateModel, f: FlashblockModel)
    requires
        wf_state(s),
    ensures
        wf_state(spec_ingest(s, f)),
{
    let s2 = spec_ingest(s, f);
    match s.pending {
        Some(p) => {
            if f.index < p.frags.len() && f == p.frags[f.index as int] {
            } else if !spec_shape_ok(f) {
            } else if f.index == 0 {
                lemma_start_new_wf(s, f);
            } else if f.index == p.frags.len() && f.block_number == p.target {
                let p2 = spec_extend(s, p, f);
                assert(p2.frags.drop_last() =~= p.frags);
                assert(p2.txs =~= concat_txs(p2.frags));
            } else {
            }
        },
        None => {
            if f.index == 0 && spec_shape_ok(f) {
                lemma_start_new_wf(s, f);
            }
        },
    }
}

proof fn lemma_start_new_wf(s: StateModel, f: FlashblockModel)
    requires
        f.index == 0,
        f.base is Some,
    ensures
        wf_state(spec_start_new(s, f)),
{
    let p0 = match spec_start_new(s, f).pending {
        Some(p0) => p0,
        None => arbitrary(),
    };
    assert(p0.frags.drop_last() =~= Seq::<FlashblockModel>::empty());
    assert(concat_txs(Seq::<FlashblockModel>::empty()) =~= Seq::<Tx>::empty());
    assert(concat_txs(p0.frags) =~= concat_txs(p0.frags.drop_last()) + p0.frags.last().transactions);
    assert(p0.txs =~= concat_txs(p0.frags));
}

/// A canonical block event preserves the engine invariant.
pub proof fn lemma_on_canonical_preserves_wf(s: StateModel, b: CanonicalBlockModel)
    requires
        wf_state(s),
    ensures
        wf_state(spec_on_canonical(s, b)),
{
    match s.pending {
        Some(p) => {
            if p.target == b.number {
                let p2 = spec_reset(p, b.number, s.max_depth);
                assert(p2.txs =~= concat_txs(p2.frags));
            }
        },
        None => {},
    }
}

/// The engine's starting state over a provider: anchored at the provider's
/// head block (height 0 with no head), with no pending sequence.
pub open spec fn initial_state(pr: ProviderModel, max_depth: u64) -> StateModel {
    StateModel {
        accounts: pr.accounts,
        anchor_number: match pr.latest {
            Some(b) => b.number,
            None => 0u64,
        },
        anchor_hash: match pr.latest {
            Some(b) => b.hash,
            None => 0u64,
        },
        latest: pr.latest,
        pending: None,
        max_depth,
    }
}

/// Mathematical view of a [`StateProvider`].
#[verifier::ext_equal]
pub ghost struct ProviderModel {
    pub accounts: Map<u64, Account>,
    pub latest: Option<CanonicalBlockModel>,
}

/// Read-only canonical chain data handed to the engine at construction:
/// account states at the current head, and the head block itself.
#[derive(Debug)]
pub struct StateProvider {
    pub accounts: AccountMap,
    pub latest: Option<CanonicalBlock>,
}

impl View for StateProvider {
    type V = ProviderModel;

    open spec fn view(&self) -> ProviderModel {
        ProviderModel {
            accounts: self.accounts@,
            latest: match self.latest {
                Some(b) => Some(b@),
                None => None,
            },
        }
    }
}

impl StateProvider {
    pub open spec fn wf(self) -> bool {
        self.accounts.wf()
    }

    /// An empty provider: no accounts, no head block.
    pub fn new() -> (r: Self)
        ensures
            r.wf(),
            r@.accounts == Map::<u64, Account>::empty(),
            r@.latest is None,
    {
        StateProvider { accounts: AssocMap::new(), latest: None }
    }

    /// Record the canonical state of one account.
    pub fn set_account(&mut self, address: u64, balance: u128, nonce: u64)
        requires
            old(self).wf(),
        ensures
            final(self).wf(),
            final(self)@.accounts == old(self)@.accounts.insert(
                address,
                Account { balance, nonce },
            ),
            final(self)@.latest == old(self)@.latest,
    {
        self.accounts.insert(address, Account { balance, nonce });
    }

    /// Record the current canonical head block.
    pub fn set_latest(&mut self, block: CanonicalBlock)
        requires
            old(self).wf(),
        ensures
            final(self).wf(),
            final(self)@.accounts == old(self)@.accounts,
            final(self)@.latest == Some(block@),
    {
        self.latest = Some(block);
    }
}

/// The live pending sequence owned by the engine.
#[derive(Debug)]
pub struct PendingSequence {
    target_number: u64,
    fragments: Vec<Flashblock>,
    transactions: Vec<Tx>,
    overrides: OverrideMap,
    base: Option<ExecutionPayloadBase>,
    gas_used: u64,
    state_root: u64,
    block_hash: u64,
    carried_depth: u64,
}

impl View for PendingSequence {
    type V = PendingModel;

    closed spec fn view(&self) -> PendingModel {
        PendingModel {
            target: self.target_number,
            frags: self.fragments@.map_values(|fr: Flashblock| fr@),
            txs: self.transactions@,
            overrides: self.overrides@,
            base: self.base,
            gas_used: self.gas_used,
            state_root: self.state_root,
            block_hash: self.block_hash,
            depth: self.carried_depth,
        }
    }
}

/// The pending-state reconciliation engine.
///
/// One writer ingests fragments and canonical events; readers query the
/// current snapshot.  Constructed once from a [`StateProvider`] and the
/// maximum number of canonical catch-ups speculative overrides may be
/// carried across.
#[derive(Debug)]
pub struct FlashblocksState {
    accounts: AccountMap,
    anchor_number: u64,
    anchor_hash: u64,
    latest: Option<CanonicalBlock>,
    pending: Option<PendingSequence>,
    max_depth: u64,
}

impl View for FlashblocksState {
    type V = StateModel;

    closed spec fn view(&self) -> StateModel {
        StateModel {
            accounts: self.accounts@,
            anchor_number: self.anchor_number,
            anchor_hash: self.anchor_hash,
            latest: match self.latest {
                Some(b) => Some(b@),
                None => None,
            },
            pending: match self.pending {
                Some(p) => Some(p@),
                None => None,
            },
            max_depth: self.max_depth,
        }
    }
}

impl FlashblocksState {
    /// Executable-level invariant: the maps are well formed and the model
    /// invariant holds.
    pub closed spec fn wf(self) -> bool {
        &&& self.accounts.wf()
        &&& match self.pending {
            Some(p) => p.overrides.wf(),
            None => true,
        }
        &&& wf_state(self@)
    }

    /// Build the engine over a canonical-state provider; the anchor starts
    /// at the provider's head block, or at height 0 with no head.
    pub fn new(provider: StateProvider, max_pending_blocks_depth: u64) -> (r: Self)
        requires
            provider.wf(),
        ensures
            r.wf(),
            r@ == initial_state(provider@, max_pending_blocks_depth),
    {
        let (anchor_number, anchor_hash) = match &provider.latest {
            Some(b) => (b.number, b.hash),
            None => (0u64, 0u64),
        };
        let r = FlashblocksState {
            accounts: provider.accounts,
            anchor_number,
            anchor_hash,
            latest: provider.latest,
            pending: None,
            max_depth: max_pending_blocks_depth,
        };
        proof {
            assert(r@ =~~= initial_state(provider@, max_pending_blocks_depth));
        }
        r
    }

    /// True when no live pending sequence exists.
    pub fn is_none(&self) -> (r: bool)
        ensures
            r == (self@.pending is None),
    {
        self.pending.is_none()
    }

    /// The canonical anchor: the highest block incorporated so far.
    /// Readers deriving a pending nonce must read the canonical nonce at
    /// this height, not at an independently observed chain head.
    pub fn get_canonical_block_number(&self) -> (r: u64)
        ensures
            r == self@.anchor_number,
    {
        self.anchor_number
    }

    /// The number of pending-sequence transactions sent by `address`,
    /// re-derived from the live transaction list.
    pub fn get_transaction_count(&self, address: u64) -> (r: u64)
        requires
            self.wf(),
        ensures
            r == spec_tx_count(self@, address),
    {
        match &self.pending {
            Some(p) => {
                let n = p.transactions.len();
                let c = count_from_prefix(&p.transactions, n, address);
                proof {
                    assert(p.transactions@.take(n as int) =~= p.transactions@);
                }
                c
            },
            None => 0,
        }
    }

    /// The override balance for `address`, if the live sequence has one.
    /// `None` means the caller must fall back to canonical state.
    pub fn get_balance(&self, address: u64) -> (r: Option<u128>)
        requires
            self.wf(),
        ensures
            r == spec_balance(self@, address),
    {
        match &self.pending {
            Some(p) => p.overrides.override_at(address).balance,
            None => None,
        }
    }

    /// The live override map: `Some` exactly when a live sequence exists,
    /// even if the map is empty.
    pub fn get_state_overrides(&self) -> (r: Option<&OverrideMap>)
        requires
            self.wf(),
        ensures
            match r {
                Some(m) => self@.pending matches Some(p) && m@ == p.overrides && m.wf(),
                None => self@.pending is None,
            },
    {
        match &self.pending {
            Some(p) => Some(&p.overrides),
            None => None,
        }
    }

    /// The pending view: the assembled block when a live sequence has at
    /// least one applied fragment; otherwise, when allowed, the latest
    /// canonical block re-labelled; otherwise nothing.
    pub fn get_block(&self, allow_fallback: bool) -> (r: Option<PendingBlock>)
        requires
            self.wf(),
        ensures
            match r {
                Some(b) => spec_get_block(self@, allow_fallback) == Some(b@),
                None => spec_get_block(self@, allow_fallback) is None,
            },
    {
        let has_frags = match &self.pending {
            Some(p) => p.fragments.len() > 0,
            None => false,
        };
        if has_frags {
            let p = self.pending.as_ref().unwrap();
            let base = p.base.unwrap();
            let b = PendingBlock {
                number: p.target_number,
                parent_hash: base.parent_hash,
                fee_recipient: base.fee_recipient,
                gas_limit: base.gas_limit,
                timestamp: base.timestamp,
                base_fee_per_gas: base.base_fee_per_gas,
                gas_used: p.gas_used,
                state_root: p.state_root,
                block_hash: p.block_hash,
                transactions: copy_txs(&p.transactions),
            };
            proof {
                assert(b@ =~= spec_assemble(p@));
            }
            Some(b)
        } else if allow_fallback {
            match &self.latest {
                Some(lb) => {
                    let b = PendingBlock {
                        number: lb.number,
                        parent_hash: lb.parent_hash,
                        fee_recipient: lb.fee_recipient,
                        gas_limit: lb.gas_limit,
                        timestamp: lb.timestamp,
                        base_fee_per_gas: lb.base_fee_per_gas,
                        gas_used: lb.gas_used,
                        state_root: lb.state_root,
                        block_hash: lb.hash,
                        transactions: copy_txs(&lb.transactions),
                    };
                    proof {
                        assert(b@ =~= spec_fallback_block(lb@));
                    }
                    Some(b)
                },
                None => None,
            }
        } else {
            None
        }
    }

    /// Ingest one fragment and report its disposition.
    pub fn ingest(&mut self, f: Flashblock) -> (r: IngestOutcome)
        requires
            old(self).wf(),
        ensures
            final(self).wf(),
            final(self)@ == spec_ingest(old(self)@, f@),
            r == spec_outcome(old(self)@, f@),
    {
        proof {
            lemma_ingest_preserves_wf(old(self)@, f@);
        }
        let shape_ok = (f.index == 0) == f.base.is_some();
        let has_pending = self.pending.is_some();
        if !has_pending {
            if f.index == 0 && shape_ok {
                self.start_new(f);
                return IngestOutcome::Started;
            } else {
                return IngestOutcome::Ignored;
            }
        }
        let (frag_count, target) = {
            let p = self.pending.as_ref().unwrap();
            (p.fragments.len(), p.target_number)
        };
        let is_dup = if f.index < frag_count as u64 {
            let p = self.pending.as_ref().unwrap();
            eq_flashblock(&f, &p.fragments[f.index as usize])
        } else {
            false
        };
        if is_dup {
            return IngestOutcome::Duplicate;
        }
        if !shape_ok {
            self.pending = None;
            proof {
                assert(self@ =~~= spec_ingest(old(self)@, f@));
            }
            return IngestOutcome::Invalidated;
        }
        if f.index == 0 {
            self.start_new(f);
            return IngestOutcome::Started;
        }
        if f.index == frag_count as u64 && f.metadata.block_number == target {
            self.apply_fragment(f);
            return IngestOutcome::Extended;
        }
        self.pending = None;
        proof {
            assert(self@ =~~= spec_ingest(old(self)@, f@));
        }
        IngestOutcome::Invalidated
    }

    /// Start a fresh sequence from an index-0 fragment, carrying the
    /// override map forward when the target height is unchanged.
    fn start_new(&mut self, f: Flashblock)
        requires
            old(self).wf(),
            f@.index == 0,
            f@.base is Some,
        ensures
            final(self).wf(),
            final(self)@ == spec_start_new(old(self)@, f@),
    {
        let new_target = max_u64(f.metadata.block_number, inc_u64(self.anchor_number));
        let mut overrides: OverrideMap;
        let depth: u64;
        match &self.pending {
            Some(p) if p.target_number == new_target => {
                overrides = p.overrides.duplicate();
                depth = p.carried_depth;
            },
            _ => {
                overrides = AssocMap::new();
                depth = 0;
            },
        }
        let transactions = copy_txs(&f.diff.transactions);
        apply_txs(&self.accounts, &mut overrides, &transactions, 0);
        let base = f.base;
        let gas_used = f.diff.gas_used;
        let state_root = f.diff.state_root;
        let block_hash = f.diff.block_hash;
        let ghost fm = f@;
        let mut fragments: Vec<Flashblock> = Vec::new();
        fragments.push(f);
        let p = PendingSequence {
            target_number: new_target,
            fragments,
            transactions,
            overrides,
            base,
            gas_used,
            state_root,
            block_hash,
            carried_depth: depth,
        };
        proof {
            assert(p@.frags =~= seq![fm]);
        }
        self.pending = Some(p);
        proof {
            assert(self@ =~~= spec_start_new(old(self)@, fm));
            lemma_start_new_wf(old(self)@, fm);
        }
    }

    /// Append the expected next fragment to the live sequence and execute
    /// its transactions against the overlaid state.
    fn apply_fragment(&mut self, f: Flashblock)
        requires
            old(self).wf(),
            old(self)@.pending is Some,
            f@.index == match old(self)@.pending {
                Some(p) => p.frags.len(),
                None => 0nat,
            },
            f@.index > 0,
            f@.base is None,
            f@.block_number == match old(self)@.pending {
                Some(p) => p.target,
                None => 0u64,
            },
        ensures
            final(self).wf(),
            final(self)@ == (StateModel {
                pending: Some(
                    spec_extend(
                        old(self)@,
                        match old(self)@.pending {
                            Some(p) => p,
                            None => arbitrary(),
                        },
                        f@,
                    ),
                ),
                ..old(self)@
            }),
    {
        let ghost pm = match old(self)@.pending {
            Some(p) => p,
            None => arbitrary(),
        };
        let mut p = self.pending.take().unwrap();
        proof {
            assert(p@ == pm);
            assert(p.transactions@ == pm.txs);
        }
        let ghost p0 = p;
        let start = p.transactions.len();
        let n = f.diff.transactions.len();
        for j in 0..n
            invariant
                n == f.diff.transactions@.len(),
                start == pm.txs.len(),
                p.transactions@ == pm.txs + f.diff.transactions@.take(j as int),
                p.fragments == p0.fragments,
                p.overrides == p0.overrides,
                p.target_number == p0.target_number,
                p.base == p0.base,
                p.carried_depth == p0.carried_depth,
        {
            p.transactions.push(f.diff.transactions[j]);
            proof {
                assert(f.diff.transactions@.take(j + 1).drop_last() =~= f.diff.transactions@.take(
                    j as int,
                ));
                assert(p.transactions@ =~= pm.txs + f.diff.transactions@.take(j + 1));
            }
        }
        proof {
            assert(f.diff.transactions@.take(n as int) =~= f.diff.transactions@);
            assert(p.transactions@ =~= pm.txs + f@.transactions);
        }
        apply_txs(&self.accounts, &mut p.overrides, &p.transactions, start);
        p.gas_used = f.diff.gas_used;
        p.state_root = f.diff.state_root;
        p.block_hash = f.diff.block_hash;
        let ghost fm = f@;
        p.fragments.push(f);
        proof {
            assert(p@.frags =~= pm.frags.push(fm));
        }
        self.pending = Some(p);
        proof {
            assert(self@.pending matches Some(q) && q =~= spec_extend(old(self)@, pm, fm));
            assert(self@ =~~= (StateModel {
                pending: Some(spec_extend(old(self)@, pm, fm)),
                ..old(self)@
            }));
            lemma_ingest_preserves_wf(old(self)@, fm);
            assert(spec_ingest(old(self)@, fm) == (StateModel {
                pending: Some(spec_extend(old(self)@, pm, fm)),
                ..old(self)@
            }));
        }
    }

    /// Incorporate one canonical block, delivered in chain order: advance
    /// the anchor, absorb the block into canonical account state, and
    /// reconcile or discard the live sequence.
    pub fn on_canonical_block_received(&mut self, block: CanonicalBlock)
        requires
            old(self).wf(),
        ensures
            final(self).wf(),
            final(self)@ == spec_on_canonical(old(self)@, block@),
    {
        proof {
            lemma_on_canonical_preserves_wf(old(self)@, block@);
        }
        let ghost bm = block@;
        apply_block_txs(&mut self.accounts, &block.transactions);
        self.anchor_number = block.number;
        self.anchor_hash = block.hash;
        let reset_needed = match &self.pending {
            Some(p) => p.target_number == block.number,
            None => false,
        };
        if reset_needed {
            let p = self.pending.take().unwrap();
            let keep = p.carried_depth < self.max_depth;
            let overrides = if keep {
                p.overrides
            } else {
                AssocMap::new()
            };
            let depth = if keep {
                p.carried_depth + 1
            } else {
                0
            };
            self.pending = Some(
                PendingSequence {
                    target_number: inc_u64(block.number),
                    fragments: Vec::new(),
                    transactions: Vec::new(),
                    overrides,
                    base: None,
                    gas_used: 0,
                    state_root: 0,
                    block_hash: 0,
                    carried_depth: depth,
                },
            );
        } else {
            self.pending = None;
        }
        self.latest = Some(block);
        proof {
            assert(self@ =~~= spec_on_canonical(old(self)@, bm));
        }
    }
}

} // verus!
