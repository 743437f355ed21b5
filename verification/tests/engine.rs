use flashblocks::FlashblocksState;
use flashblocks::StateProvider;
use flashblocks::flashblock_builder::FlashblockBuilder;
use flashblocks::flashblock_builder::ParentBlockInfo;
use flashblocks::types::CanonicalBlock;
use flashblocks::types::Flashblock;
use flashblocks::types::IngestOutcome;
use flashblocks::types::Tx;

const ALICE: u64 = 0xa11ce;
const BOB: u64 = 0xb0b;

fn parent(number: u64) -> ParentBlockInfo {
    ParentBlockInfo { number, hash: number, gas_limit: 30_000_000, timestamp: 0 }
}

fn payment(hash: u64, from: u64, to: u64, value: u128, nonce: u64) -> Tx {
    Tx { hash, from, to, value, nonce, gas_limit: 21_000, is_deposit: false }
}

fn provider_with_alice() -> StateProvider {
    let mut provider = StateProvider::new();
    provider.set_account(ALICE, 1_000_000, 0);
    provider
}

fn base_fragment(parent_number: u64) -> Flashblock {
    FlashblockBuilder::new_base(&parent(parent_number)).build()
}

fn delta_fragment(parent_number: u64, index: u64, txs: Vec<Tx>) -> Flashblock {
    FlashblockBuilder::new(&parent(parent_number), index).with_transactions(txs).build()
}

fn canonical_block(number: u64, txs: Vec<Tx>) -> CanonicalBlock {
    CanonicalBlock {
        number,
        hash: number,
        parent_hash: number.wrapping_sub(1),
        fee_recipient: 0,
        gas_limit: 30_000_000,
        gas_used: 0,
        timestamp: 2 * number,
        base_fee_per_gas: 100,
        state_root: 0,
        transactions: txs,
    }
}

#[test]
fn idempotent_replay_is_a_no_op() {
    let mut engine = FlashblocksState::new(provider_with_alice(), 3);
    assert_eq!(engine.ingest(base_fragment(0)), IngestOutcome::Started);
    let delta = delta_fragment(0, 1, vec![payment(1, ALICE, BOB, 100_000, 0)]);
    assert_eq!(engine.ingest(delta), IngestOutcome::Extended);

    let block_before = engine.get_block(false).expect("block is built");
    let bob_before = engine.get_balance(BOB);

    // The identical fragment, delivered again.
    let replay = delta_fragment(0, 1, vec![payment(1, ALICE, BOB, 100_000, 0)]);
    assert_eq!(engine.ingest(replay), IngestOutcome::Duplicate);

    let block_after = engine.get_block(false).expect("block is built");
    assert_eq!(block_after.number, block_before.number);
    assert_eq!(block_after.transactions.len(), block_before.transactions.len());
    assert_eq!(engine.get_balance(BOB), bob_before);
    assert_eq!(engine.get_balance(BOB), Some(100_000));
}

#[test]
fn replaying_the_base_is_ignored_too() {
    let mut engine = FlashblocksState::new(provider_with_alice(), 3);
    assert_eq!(engine.ingest(base_fragment(0)), IngestOutcome::Started);
    assert_eq!(engine.ingest(base_fragment(0)), IngestOutcome::Duplicate);
    assert_eq!(engine.get_block(false).expect("block is built").transactions.len(), 1);
}

#[test]
fn gap_invalidates_the_sequence() {
    let mut engine = FlashblocksState::new(provider_with_alice(), 3);
    assert_eq!(engine.ingest(base_fragment(0)), IngestOutcome::Started);
    assert!(!engine.is_none());

    // Index 2 skips ahead of the expected index 1.
    let skipped = delta_fragment(0, 2, vec![payment(1, ALICE, BOB, 100, 0)]);
    assert_eq!(engine.ingest(skipped), IngestOutcome::Invalidated);

    assert!(engine.is_none());
    assert!(engine.get_state_overrides().is_none());
    assert!(engine.get_block(false).is_none());
}

#[test]
fn sequential_continuation_extends_then_advances() {
    let mut engine = FlashblocksState::new(provider_with_alice(), 3);
    assert_eq!(engine.ingest(base_fragment(0)), IngestOutcome::Started);
    let delta = delta_fragment(
        0,
        1,
        vec![payment(1, ALICE, BOB, 100_000, 0), payment(2, ALICE, BOB, 50_000, 1)],
    );
    assert_eq!(engine.ingest(delta), IngestOutcome::Extended);

    let block = engine.get_block(false).expect("block is built");
    assert_eq!(block.number, 1);
    assert_eq!(block.transactions.len(), 1 + 2);

    // A new base for the next height resets assembly and, since the
    // target changed, clears the overrides instead of carrying them.
    assert_eq!(engine.ingest(base_fragment(1)), IngestOutcome::Started);
    let block = engine.get_block(false).expect("block is built");
    assert_eq!(block.number, 2);
    assert_eq!(block.transactions.len(), 1);
    assert_eq!(engine.get_balance(BOB), None);
}

#[test]
fn overrides_persist_across_a_rebase_at_the_same_height() {
    let mut engine = FlashblocksState::new(provider_with_alice(), 3);
    assert_eq!(engine.ingest(base_fragment(0)), IngestOutcome::Started);
    let delta = delta_fragment(0, 1, vec![payment(1, ALICE, BOB, 100_000, 0)]);
    assert_eq!(engine.ingest(delta), IngestOutcome::Extended);
    assert_eq!(engine.get_balance(BOB), Some(100_000), "should be changed due to receiving funds");

    // The producer restarts building the same height with a fresh base.
    let mut rebase = base_fragment(0);
    rebase.payload_id = 1;
    assert_eq!(engine.ingest(rebase), IngestOutcome::Started);

    // The overrides were carried forward; the payment lands on top of them.
    let delta = delta_fragment(0, 1, vec![payment(1, ALICE, BOB, 100_000, 0)]);
    assert_eq!(engine.ingest(delta), IngestOutcome::Extended);
    assert_eq!(engine.get_balance(BOB), Some(200_000), "should be changed due to receiving funds");
    assert_eq!(engine.get_balance(ALICE), Some(1_000_000 - 200_000));
}

#[test]
fn overrides_carry_forward_across_canonical_catch_up() {
    let mut engine = FlashblocksState::new(provider_with_alice(), 3);
    assert_eq!(engine.ingest(base_fragment(0)), IngestOutcome::Started);
    let tx = payment(1, ALICE, BOB, 100_000, 0);
    assert_eq!(engine.ingest(delta_fragment(0, 1, vec![tx])), IngestOutcome::Extended);

    // The canonical chain reaches the height the sequence was building.
    engine.on_canonical_block_received(canonical_block(1, vec![tx]));

    // The sequence is live for the next height, seeded with the overrides.
    assert!(!engine.is_none());
    assert!(engine.get_state_overrides().is_some());
    assert_eq!(engine.get_balance(BOB), Some(100_000));
    // Assembly restarted: no fragment applied yet for the new height.
    assert!(engine.get_block(false).is_none());
    assert_eq!(engine.get_transaction_count(ALICE), 0);
}

#[test]
fn pending_nonce_is_derived_from_the_anchor() {
    let mut engine = FlashblocksState::new(provider_with_alice(), 3);
    assert_eq!(engine.ingest(base_fragment(0)), IngestOutcome::Started);
    let tx = payment(1, ALICE, BOB, 100, 0);
    assert_eq!(engine.ingest(delta_fragment(0, 1, vec![tx])), IngestOutcome::Extended);

    // The canonical chain has not caught up yet: the anchor still reads 0,
    // Alice's canonical nonce at the anchor is 0, and her pending count is
    // 1, so the derived pending nonce is 1.  (A chain head observed after
    // the block landed would read nonce 1 and double count: 1 + 1 = 2.)
    assert_eq!(engine.get_canonical_block_number(), 0);
    let nonce_at_anchor: u64 = 0;
    assert_eq!(nonce_at_anchor + engine.get_transaction_count(ALICE), 1);

    // After the engine reconciles the block, the anchor advances, the
    // pending count resets, and the derived pending nonce is unchanged.
    engine.on_canonical_block_received(canonical_block(1, vec![tx]));
    assert_eq!(engine.get_canonical_block_number(), 1);
    let nonce_at_anchor: u64 = 1;
    assert_eq!(nonce_at_anchor + engine.get_transaction_count(ALICE), 1);
}

#[test]
fn receipts_are_optional_for_assembly() {
    let mut engine = FlashblocksState::new(provider_with_alice(), 3);

    // A base fragment stripped of its receipt map.
    let fragment = FlashblockBuilder::new_base(&parent(0)).with_receipts(None).build();
    assert_eq!(engine.ingest(fragment), IngestOutcome::Started);

    let block = engine.get_block(false).expect("block should be created");
    assert_eq!(block.transactions.len(), 1);
    let deposit = &block.transactions[0];
    assert!(deposit.is_deposit);
    assert_eq!(deposit.nonce, 4012991, "deposit_nonce should be available even when no receipts");
}

#[test]
fn canonical_blocks_progress_without_flashblocks() {
    let mut provider = provider_with_alice();
    provider.set_latest(canonical_block(0, vec![]));
    let mut engine = FlashblocksState::new(provider, 3);
    assert_eq!(engine.get_canonical_block_number(), 0);

    engine.on_canonical_block_received(canonical_block(1, vec![]));
    engine.on_canonical_block_received(canonical_block(2, vec![]));
    engine.on_canonical_block_received(canonical_block(3, vec![]));

    assert_eq!(engine.get_canonical_block_number(), 3);
    assert!(engine.is_none());
    // With no speculative data the pending view degrades to the real head.
    let block = engine.get_block(true).expect("should be a block");
    assert_eq!(block.number, 3);
    assert!(engine.get_block(false).is_none());
}

#[test]
fn flashblock_for_new_canonical_block_works_if_sequential() {
    let mut engine = FlashblocksState::new(provider_with_alice(), 3);
    engine.on_canonical_block_received(canonical_block(1, vec![]));

    // A base fragment building on the new canonical head.
    assert_eq!(engine.ingest(base_fragment(1)), IngestOutcome::Started);
    let block = engine.get_block(false).expect("should be a block");
    assert_eq!(block.number, 2);
    assert_eq!(block.transactions.len(), 1);
}

#[test]
fn flashblock_for_new_canonical_block_clears_older_flashblocks_if_non_zero_index() {
    let mut engine = FlashblocksState::new(provider_with_alice(), 3);
    assert_eq!(engine.ingest(base_fragment(0)), IngestOutcome::Started);
    let tx = payment(1, ALICE, BOB, 100, 0);
    assert_eq!(engine.ingest(delta_fragment(0, 1, vec![tx])), IngestOutcome::Extended);
    engine.on_canonical_block_received(canonical_block(1, vec![tx]));
    assert!(!engine.is_none());

    // A non-base fragment for the new height cannot prove completeness.
    let stray = delta_fragment(1, 1, vec![payment(2, ALICE, BOB, 100, 1)]);
    assert_eq!(engine.ingest(stray), IngestOutcome::Invalidated);
    assert!(engine.is_none());
    assert_eq!(engine.get_balance(BOB), None);
}

#[test]
fn non_sequential_fragment_without_sequence_is_ignored() {
    let mut engine = FlashblocksState::new(provider_with_alice(), 3);
    let stray = delta_fragment(0, 1, vec![payment(1, ALICE, BOB, 100, 0)]);
    assert_eq!(engine.ingest(stray), IngestOutcome::Ignored);
    assert!(engine.is_none());
}

#[test]
fn target_mismatch_invalidates() {
    let mut engine = FlashblocksState::new(provider_with_alice(), 3);
    assert_eq!(engine.ingest(base_fragment(0)), IngestOutcome::Started);
    // Expected index, wrong target height.
    let wrong_target = FlashblockBuilder::new(&parent(5), 1)
        .with_transactions(vec![payment(1, ALICE, BOB, 100, 0)])
        .build();
    assert_eq!(engine.ingest(wrong_target), IngestOutcome::Invalidated);
    assert!(engine.is_none());
}

#[test]
fn malformed_base_invalidates() {
    let mut engine = FlashblocksState::new(provider_with_alice(), 3);
    assert_eq!(engine.ingest(base_fragment(0)), IngestOutcome::Started);
    // An index-0 fragment must carry a base payload.
    let mut malformed = base_fragment(0);
    malformed.base = None;
    assert_eq!(engine.ingest(malformed), IngestOutcome::Invalidated);
    assert!(engine.is_none());
}

#[test]
fn unaffordable_payment_keeps_its_place_but_moves_no_funds() {
    let mut engine = FlashblocksState::new(provider_with_alice(), 3);
    assert_eq!(engine.ingest(base_fragment(0)), IngestOutcome::Started);
    // Alice holds 1_000_000; this payment cannot be performed.
    let tx = payment(1, ALICE, BOB, 2_000_000, 0);
    assert_eq!(engine.ingest(delta_fragment(0, 1, vec![tx])), IngestOutcome::Extended);

    // The transaction is in the block and consumed a nonce, but no
    // balances moved.
    let block = engine.get_block(false).expect("block is built");
    assert_eq!(block.transactions.len(), 2);
    assert_eq!(engine.get_transaction_count(ALICE), 1);
    assert_eq!(engine.get_balance(ALICE), None);
    assert_eq!(engine.get_balance(BOB), None);
}

#[test]
fn deposits_mint_value() {
    let mut engine = FlashblocksState::new(StateProvider::new(), 3);
    assert_eq!(engine.ingest(base_fragment(0)), IngestOutcome::Started);
    let mint = Tx {
        hash: 7,
        from: ALICE,
        to: BOB,
        value: 500,
        nonce: 0,
        gas_limit: 21_000,
        is_deposit: true,
    };
    assert_eq!(engine.ingest(delta_fragment(0, 1, vec![mint])), IngestOutcome::Extended);
    assert_eq!(engine.get_balance(BOB), Some(500));
    assert_eq!(engine.get_balance(ALICE), None);
    assert_eq!(engine.get_transaction_count(ALICE), 1);
}

#[test]
fn override_depth_limit_drops_carried_state() {
    // With no retained depth, a canonical catch-up clears the overrides.
    let mut engine = FlashblocksState::new(provider_with_alice(), 0);
    assert_eq!(engine.ingest(base_fragment(0)), IngestOutcome::Started);
    let tx = payment(1, ALICE, BOB, 100_000, 0);
    assert_eq!(engine.ingest(delta_fragment(0, 1, vec![tx])), IngestOutcome::Extended);
    assert_eq!(engine.get_balance(BOB), Some(100_000));

    engine.on_canonical_block_received(canonical_block(1, vec![tx]));
    assert!(!engine.is_none());
    assert_eq!(engine.get_balance(BOB), None);
}

#[test]
fn canonical_block_for_a_different_height_discards_the_sequence() {
    let mut engine = FlashblocksState::new(provider_with_alice(), 3);
    assert_eq!(engine.ingest(base_fragment(0)), IngestOutcome::Started);
    // The chain advances to a height the sequence was not building.
    engine.on_canonical_block_received(canonical_block(5, vec![]));
    assert!(engine.is_none());
    assert_eq!(engine.get_canonical_block_number(), 5);
}

#[test]
fn override_depth_of_one_survives_one_catch_up_only() {
    let mut engine = FlashblocksState::new(provider_with_alice(), 1);
    assert_eq!(engine.ingest(base_fragment(0)), IngestOutcome::Started);
    let tx = payment(1, ALICE, BOB, 100_000, 0);
    assert_eq!(engine.ingest(delta_fragment(0, 1, vec![tx])), IngestOutcome::Extended);

    // First catch-up: carried.
    engine.on_canonical_block_received(canonical_block(1, vec![tx]));
    assert_eq!(engine.get_balance(BOB), Some(100_000));

    // Second catch-up without new fragments: the retained depth is spent.
    engine.on_canonical_block_received(canonical_block(2, vec![]));
    assert!(!engine.is_none());
    assert_eq!(engine.get_balance(BOB), None);
}

#[test]
fn fallback_block_is_served_after_invalidation() {
    let mut engine = FlashblocksState::new(provider_with_alice(), 3);
    engine.on_canonical_block_received(canonical_block(1, vec![]));
    assert_eq!(engine.ingest(base_fragment(1)), IngestOutcome::Started);

    // A gap discards the sequence; the canonical head steps in.
    let skipped = delta_fragment(1, 3, vec![payment(1, ALICE, BOB, 100, 0)]);
    assert_eq!(engine.ingest(skipped), IngestOutcome::Invalidated);
    let block = engine.get_block(true).expect("should be a block");
    assert_eq!(block.number, 1);
    assert!(engine.get_block(false).is_none());
}

#[test]
fn state_overrides_persist_across_flashblocks_of_one_sequence() {
    let mut engine = FlashblocksState::new(provider_with_alice(), 3);
    assert_eq!(engine.ingest(base_fragment(0)), IngestOutcome::Started);
    assert_eq!(
        engine.ingest(delta_fragment(0, 1, vec![payment(1, ALICE, BOB, 100_000, 0)])),
        IngestOutcome::Extended
    );
    assert_eq!(engine.get_balance(BOB), Some(100_000), "should be set as txn receiver");
    assert_eq!(
        engine.get_balance(ALICE),
        Some(900_000),
        "should be set from txn execution"
    );

    // The next fragment builds on the overrides of the previous one.
    assert_eq!(
        engine.ingest(delta_fragment(0, 2, vec![payment(2, ALICE, BOB, 100_000, 1)])),
        IngestOutcome::Extended
    );
    assert_eq!(
        engine.get_balance(BOB),
        Some(200_000),
        "should be set from txn execution in flashblock index 1"
    );
    assert_eq!(engine.get_balance(ALICE), Some(800_000));
    assert_eq!(engine.get_transaction_count(ALICE), 2);
}
