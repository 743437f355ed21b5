use flashblocks::flashblock_builder::FlashblockBuilder;
use flashblocks::flashblock_builder::ParentBlockInfo;
use flashblocks::types::Tx;

fn parent() -> ParentBlockInfo {
    ParentBlockInfo { number: 0, hash: 0, gas_limit: 30_000_000, timestamp: 0 }
}

#[test]
fn test_base_flashblock_includes_deposit_tx() {
    let parent = parent();

    let flashblock = FlashblockBuilder::new_base(&parent).build();

    assert_eq!(flashblock.index, 0);
    assert!(flashblock.base.is_some());
    assert_eq!(flashblock.diff.transactions.len(), 1);
    assert_eq!(flashblock.metadata.block_number, 1);
}

#[test]
fn test_delta_flashblock_no_base() {
    let parent = parent();

    let flashblock = FlashblockBuilder::new(&parent, 1).build();

    assert_eq!(flashblock.index, 1);
    assert!(flashblock.base.is_none());
    assert!(flashblock.diff.transactions.is_empty());
}

#[test]
fn test_with_canonical_block_number() {
    let parent = parent();

    let flashblock = FlashblockBuilder::new_base(&parent).with_canonical_block_number(100).build();

    assert_eq!(flashblock.metadata.block_number, 101);
    assert_eq!(flashblock.base.as_ref().unwrap().block_number, 101);
}

#[test]
fn with_transactions_generates_cumulative_receipts() {
    let parent = parent();
    let t1 = Tx {
        hash: 11,
        from: 1,
        to: 2,
        value: 5,
        nonce: 0,
        gas_limit: 100,
        is_deposit: false,
    };
    let t2 = Tx {
        hash: 12,
        from: 1,
        to: 3,
        value: 7,
        nonce: 1,
        gas_limit: 200,
        is_deposit: false,
    };

    let flashblock = FlashblockBuilder::new(&parent, 1).with_transactions(vec![t1, t2]).build();

    assert_eq!(flashblock.diff.transactions.len(), 2);
    let receipts = flashblock.metadata.receipts.as_ref().unwrap();
    assert_eq!(receipts.len(), 2);
    assert_eq!(receipts[0].tx_hash, 11);
    assert_eq!(receipts[0].cumulative_gas_used, 100);
    assert!(receipts[0].status);
    assert_eq!(receipts[1].tx_hash, 12);
    assert_eq!(receipts[1].cumulative_gas_used, 300);
}

#[test]
fn with_raw_transactions_leaves_receipts_alone() {
    let parent = parent();
    let t1 = Tx {
        hash: 11,
        from: 1,
        to: 2,
        value: 5,
        nonce: 0,
        gas_limit: 100,
        is_deposit: false,
    };

    let flashblock = FlashblockBuilder::new(&parent, 1).with_raw_transactions(vec![t1]).build();

    assert_eq!(flashblock.diff.transactions.len(), 1);
    assert_eq!(flashblock.metadata.receipts.as_ref().unwrap().len(), 0);
}

#[test]
fn with_receipts_none_drops_the_receipt_map() {
    let parent = parent();

    let flashblock = FlashblockBuilder::new_base(&parent).with_receipts(None).build();

    assert!(flashblock.metadata.receipts.is_none());
    assert_eq!(flashblock.diff.transactions.len(), 1);
}
