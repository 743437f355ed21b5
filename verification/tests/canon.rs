use flashblocks::FlashblocksCanonExtension;
use flashblocks::StateProvider;
use flashblocks::canon::BaseNodeConfig;
use flashblocks::canon::CanonicalNotification;
use flashblocks::canon::FlashblocksConfig;
use flashblocks::types::BlockNumHash;
use flashblocks::types::CanonicalBlock;

fn block(number: u64) -> CanonicalBlock {
    CanonicalBlock {
        number,
        hash: 1000 + number,
        parent_hash: 1000 + number - 1,
        fee_recipient: 0,
        gas_limit: 30_000_000,
        gas_used: 0,
        timestamp: 2 * number,
        base_fee_per_gas: 100,
        state_root: 0,
        transactions: vec![],
    }
}

#[test]
fn extension_is_inert_without_configuration() {
    let config = BaseNodeConfig { flashblocks: None };
    let mut ext = FlashblocksCanonExtension::new(&config);
    assert!(ext.cell.is_none());
    assert!(ext.config.is_none());

    ext.install(StateProvider::new());
    assert!(ext.cell.is_none());

    let tip = ext.apply(&CanonicalNotification::ChainCommitted { new: vec![block(1)] });
    assert!(tip.is_none());
}

#[test]
fn committed_chain_advances_the_engine_and_acknowledges_the_tip() {
    let config = BaseNodeConfig {
        flashblocks: Some(FlashblocksConfig { max_pending_blocks_depth: 3 }),
    };
    let mut ext = FlashblocksCanonExtension::build(&config);
    ext.install(StateProvider::new());
    assert!(ext.cell.is_some());

    let tip = ext.apply(&CanonicalNotification::ChainCommitted { new: vec![block(1), block(2)] });
    assert_eq!(tip, Some(BlockNumHash { number: 2, hash: 1002 }));
    assert_eq!(ext.cell.as_ref().unwrap().get_canonical_block_number(), 2);
}

#[test]
fn reorged_chain_is_applied_like_a_commit() {
    let config = BaseNodeConfig {
        flashblocks: Some(FlashblocksConfig { max_pending_blocks_depth: 3 }),
    };
    let mut ext = FlashblocksCanonExtension::new(&config);
    ext.install(StateProvider::new());

    let tip = ext.apply(&CanonicalNotification::ChainReorged { new: vec![block(4)] });
    assert_eq!(tip, Some(BlockNumHash { number: 4, hash: 1004 }));
    assert_eq!(ext.cell.as_ref().unwrap().get_canonical_block_number(), 4);
}

#[test]
fn reverted_chain_acknowledges_the_old_tip_and_changes_nothing() {
    let config = BaseNodeConfig {
        flashblocks: Some(FlashblocksConfig { max_pending_blocks_depth: 3 }),
    };
    let mut ext = FlashblocksCanonExtension::new(&config);
    ext.install(StateProvider::new());
    ext.apply(&CanonicalNotification::ChainCommitted { new: vec![block(1)] });

    let old_tip = BlockNumHash { number: 1, hash: 1001 };
    let tip = ext.apply(&CanonicalNotification::ChainReverted { old_tip });
    assert_eq!(tip, Some(old_tip));
    assert_eq!(ext.cell.as_ref().unwrap().get_canonical_block_number(), 1);
}

#[test]
fn install_initializes_the_engine_only_once() {
    let config = BaseNodeConfig {
        flashblocks: Some(FlashblocksConfig { max_pending_blocks_depth: 3 }),
    };
    let mut ext = FlashblocksCanonExtension::new(&config);
    ext.install(StateProvider::new());
    ext.apply(&CanonicalNotification::ChainCommitted { new: vec![block(7)] });

    // A second installation must not discard the engine's progress.
    ext.install(StateProvider::new());
    assert_eq!(ext.cell.as_ref().unwrap().get_canonical_block_number(), 7);
}
