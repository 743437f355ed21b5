//! Wiring of the engine to a canonical notification feed.
//!
//! [`FlashblocksCanonExtension`] owns the shared engine and decides, for
//! each canonical chain notification, which blocks the engine incorporates
//! and which height is acknowledged back to the feed.  The surrounding
//! event loop performs the waiting and the acknowledgement; the decisions
//! live here.

use vstd::prelude::*;
use crate::engine::FlashblocksState;
use crate::engine::StateProvider;
use crate::engine::initial_state;
use crate::engine::spec_on_canonical;
use crate::types::BlockNumHash;
use crate::types::CanonicalBlock;
use crate::types::CanonicalBlockModel;
use crate::types::copy_block;

verus! {

/// Flashblocks configuration: how many canonical catch-ups speculative
/// overrides may be carried across before being dropped.
#[derive(Clone, Copy, Debug, PartialEq, Eq, Structural)]
pub struct FlashblocksConfig {
    pub max_pending_blocks_depth: u64,
}

/// The node configuration the extension is built from.  Flashblocks
/// support is optional; with `None` the extension stays inert.
#[derive(Clone, Copy, Debug, PartialEq, Eq, Structural)]
pub struct BaseNodeConfig {
    pub flashblocks: Option<FlashblocksConfig>,
}

/// A canonical chain notification: a committed or reorged-in chain segment
/// carrying its blocks in ascending order, or a reverted segment carrying
/// only the old tip.
#[derive(Debug)]
pub enum CanonicalNotification {
    ChainCommitted { new: Vec<CanonicalBlock> },
    ChainReorged { new: Vec<CanonicalBlock> },
    ChainReverted { old_tip: BlockNumHash },
}

/// The blocks the engine incorporates for a notification: the new chain's
/// blocks for a commit or a reorg, nothing for a plain revert.
pub open spec fn note_blocks(note: CanonicalNotification) -> Seq<CanonicalBlockModel> {
    match note {
        CanonicalNotification::ChainCommitted { new } => new@.map_values(
            |b: CanonicalBlock| b@,
        ),
        CanonicalNotification::ChainReorged { new } => new@.map_values(|b: CanonicalBlock| b@),
        CanonicalNotification::ChainReverted { .. } => Seq::empty(),
    }
}

/// The height acknowledged for a notification: the new tip for a commit or
/// a reorg, the old tip for a revert, nothing for an empty segment.
pub open spec fn note_tip(note: CanonicalNotification) -> Option<BlockNumHash> {
    match note {
        CanonicalNotification::ChainCommitted { new } => if new@.len() > 0 {
            Some(BlockNumHash { number: new@.last().number, hash: new@.last().hash })
        } else {
            None
        },
        CanonicalNotification::ChainReorged { new } => if new@.len() > 0 {
            Some(BlockNumHash { number: new@.last().number, hash: new@.last().hash })
        } else {
            None
        },
        CanonicalNotification::ChainReverted { old_tip } => Some(old_tip),
    }
}

/// The engine after incorporating the first `n` blocks of a segment.
pub open spec fn spec_apply_chain(
    s: crate::engine::StateModel,
    blocks: Seq<CanonicalBlockModel>,
    n: int,
) -> crate::engine::StateModel
    decreases n,
{
    if n <= 0 {
        s
    } else {
        spec_on_canonical(spec_apply_chain(s, blocks, n - 1), blocks[n - 1])
    }
}

/// Owns the flashblocks engine and drives it from canonical notifications.
#[derive(Debug)]
pub struct FlashblocksCanonExtension {
    /// The shared engine, initialized on installation when configured.
    pub cell: Option<FlashblocksState>,
    /// Optional flashblocks configuration.
    pub config: Option<FlashblocksConfig>,
}

impl FlashblocksCanonExtension {
    /// Every engine the extension holds satisfies the engine invariant.
    pub open spec fn wf(self) -> bool {
        match self.cell {
            Some(e) => e.wf(),
            None => true,
        }
    }

    /// Create a new extension helper; the engine is not built yet.
    pub fn new(config: &BaseNodeConfig) -> (r: Self)
        ensures
            r.cell is None,
            r.config == config.flashblocks,
            r.wf(),
    {
        FlashblocksCanonExtension { cell: None, config: config.flashblocks }
    }

    /// Build the extension from the node configuration.
    pub fn build(config: &BaseNodeConfig) -> (r: Self)
        ensures
            r.cell is None,
            r.config == config.flashblocks,
            r.wf(),
    {
        Self::new(config)
    }

    /// Initialize the shared engine over the given provider, once, and only
    /// when flashblocks are configured.  Later calls leave the engine as it
    /// is.
    pub fn install(&mut self, provider: StateProvider)
        requires
            old(self).wf(),
            provider.wf(),
        ensures
            final(self).wf(),
            final(self).config == old(self).config,
            old(self).cell is Some ==> final(self).cell == old(self).cell,
            old(self).cell is None ==> (match old(self).config {
                Some(c) => final(self).cell matches Some(e) && e@ == initial_state(
                    provider@,
                    c.max_pending_blocks_depth,
                ),
                None => final(self).cell is None,
            }),
    {
        if self.cell.is_none() {
            match &self.config {
                Some(c) => {
                    self.cell = Some(FlashblocksState::new(provider, c.max_pending_blocks_depth));
                },
                None => {},
            }
        }
    }

    /// Handle one canonical notification: feed every committed or
    /// reorged-in block to the engine, in order, and return the height to
    /// acknowledge.  With no engine installed nothing happens.
    pub fn apply(&mut self, note: &CanonicalNotification) -> (tip: Option<BlockNumHash>)
        requires
            old(self).wf(),
        ensures
            final(self).wf(),
            final(self).config == old(self).config,
            old(self).cell is None ==> final(self).cell is None && tip is None,
            old(self).cell matches Some(e) ==> (final(self).cell matches Some(e2) && e2@
                == spec_apply_chain(e@, note_blocks(*note), note_blocks(*note).len() as int) && tip
                == note_tip(*note)),
    {
        let cell = self.cell.take();
        let mut e = match cell {
            Some(e) => e,
            None => {
                return None;
            },
        };
        let tip = match note {
            CanonicalNotification::ChainCommitted { new } => Self::apply_blocks(&mut e, new),
            CanonicalNotification::ChainReorged { new } => Self::apply_blocks(&mut e, new),
            CanonicalNotification::ChainReverted { old_tip } => Some(*old_tip),
        };
        self.cell = Some(e);
        tip
    }

    /// Feed a chain segment to the engine, block by block, in ascending
    /// order, and return its tip.
    fn apply_blocks(e: &mut FlashblocksState, new: &Vec<CanonicalBlock>) -> (tip: Option<
        BlockNumHash,
    >)
        requires
            old(e).wf(),
        ensures
            final(e).wf(),
            final(e)@ == spec_apply_chain(
                old(e)@,
                new@.map_values(|b: CanonicalBlock| b@),
                new@.len() as int,
            ),
            tip == (if new@.len() > 0 {
                Some(BlockNumHash { number: new@.last().number, hash: new@.last().hash })
            } else {
                None::<BlockNumHash>
            }),
    {
        let ghost blocks = new@.map_values(|b: CanonicalBlock| b@);
        let n = new.len();
        for i in 0..n
            invariant
                n == new@.len(),
                blocks == new@.map_values(|b: CanonicalBlock| b@),
                e.wf(),
                e@ == spec_apply_chain(old(e)@, blocks, i as int),
        {
            let b = copy_block(&new[i]);
            e.on_canonical_block_received(b);
        }
        if n > 0 {
            let last = n - 1;
            Some(BlockNumHash { number: new[last].number, hash: new[last].hash })
        } else {
            None
        }
    }
}

} // verus!
