//! Builder for constructing flashblocks.
//!
//! Supports both base flashblocks (index 0), which carry the execution
//! payload base derived from the parent block, and delta flashblocks
//! (index > 0), which only append transactions.

use vstd::prelude::*;
use crate::types::ExecutionPayloadBase;
use crate::types::Flashblock;
use crate::types::FlashblockDelta;
use crate::types::FlashblockModel;
use crate::types::Metadata;
use crate::types::Tx;
use crate::types::TxReceipt;

verus! {

/// Hash of the system deposit transaction that opens every base flashblock.
pub const L1_BLOCK_INFO_DEPOSIT_TX_HASH: u64 = 0xd1;

/// Sender of the system deposit transaction.
pub const L1_ATTRIBUTES_DEPOSITOR: u64 = 0xdead;

/// Recipient of the system deposit transaction.
pub const L1_BLOCK_CONTRACT: u64 = 0x4200;

/// The system deposit transaction carried by every base flashblock.
pub open spec fn spec_l1_block_info_deposit_tx() -> Tx {
    Tx {
        hash: L1_BLOCK_INFO_DEPOSIT_TX_HASH,
        from: L1_ATTRIBUTES_DEPOSITOR,
        to: L1_BLOCK_CONTRACT,
        value: 0,
        nonce: 4012991,
        gas_limit: 10000,
        is_deposit: true,
    }
}

pub fn l1_block_info_deposit_tx() -> (r: Tx)
    ensures
        r == spec_l1_block_info_deposit_tx(),
{
    Tx {
        hash: L1_BLOCK_INFO_DEPOSIT_TX_HASH,
        from: L1_ATTRIBUTES_DEPOSITOR,
        to: L1_BLOCK_CONTRACT,
        value: 0,
        nonce: 4012991,
        gas_limit: 10000,
        is_deposit: true,
    }
}

/// The receipt recorded for the system deposit transaction.
pub open spec fn spec_l1_deposit_receipt() -> TxReceipt {
    TxReceipt {
        tx_hash: L1_BLOCK_INFO_DEPOSIT_TX_HASH,
        status: true,
        cumulative_gas_used: 10000,
        deposit_nonce: Some(4012991u64),
    }
}

/// Information about the parent block needed to construct a flashblock.
#[derive(Clone, Copy, Debug, PartialEq, Eq, Structural)]
pub struct ParentBlockInfo {
    /// The block number of the parent block.
    pub number: u64,
    /// The hash of the parent block.
    pub hash: u64,
    /// The gas limit of the parent block.
    pub gas_limit: u64,
    /// The timestamp of the parent block.
    pub timestamp: u64,
}

/// Mathematical view of a [`FlashblockBuilder`].
#[verifier::ext_equal]
pub ghost struct BuilderModel {
    pub transactions: Seq<Tx>,
    pub receipts: Option<Seq<TxReceipt>>,
    pub parent_block: ParentBlockInfo,
    pub canonical_block_number: Option<u64>,
    pub index: u64,
}

/// Builder for constructing flashblocks, with a fluent interface.
#[derive(Debug)]
pub struct FlashblockBuilder {
    transactions: Vec<Tx>,
    receipts: Option<Vec<TxReceipt>>,
    parent_block: ParentBlockInfo,
    canonical_block_number: Option<u64>,
    index: u64,
}

impl View for FlashblockBuilder {
    type V = BuilderModel;

    closed spec fn view(&self) -> BuilderModel {
        BuilderModel {
            transactions: self.transactions@,
            receipts: match self.receipts {
                Some(v) => Some(v@),
                None => None,
            },
            parent_block: self.parent_block,
            canonical_block_number: self.canonical_block_number,
            index: self.index,
        }
    }
}

/// The success receipts generated for a transaction list: one per
/// transaction, with the gas limits accumulated in order.
pub open spec fn spec_gen_receipts(txs: Seq<Tx>, gas0: int) -> Seq<TxReceipt>
    decreases txs.len(),
{
    if txs.len() == 0 {
        Seq::empty()
    } else {
        spec_gen_receipts(txs.drop_last(), gas0).push(
            TxReceipt {
                tx_hash: txs.last().hash,
                status: true,
                cumulative_gas_used: (gas0 + spec_sum_gas(txs)) as u64,
                deposit_nonce: None,
            },
        )
    }
}

/// The total gas limit of a transaction list.
pub open spec fn spec_sum_gas(txs: Seq<Tx>) -> int
    decreases txs.len(),
{
    if txs.len() == 0 {
        0
    } else {
        spec_sum_gas(txs.drop_last()) + txs.last().gas_limit
    }
}

proof fn lemma_sum_gas_monotone(txs: Seq<Tx>, n: int)
    requires
        0 <= n <= txs.len(),
    ensures
        spec_sum_gas(txs.take(n)) <= spec_sum_gas(txs),
        spec_sum_gas(txs.take(n)) >= 0,
    decreases txs.len(),
{
    if n < txs.len() {
        assert(txs.take(txs.len() - 1) =~= txs.drop_last());
        lemma_sum_gas_monotone(txs.drop_last(), n);
        assert(txs.drop_last().take(n) =~= txs.take(n));
    } else {
        assert(txs.take(n) =~= txs);
        if txs.len() > 0 {
            lemma_sum_gas_monotone(txs.drop_last(), txs.len() - 1);
            assert(txs.drop_last().take(txs.len() - 1) =~= txs.drop_last());
        }
    }
}

/// The flashblock a builder produces.
pub open spec fn spec_build(b: BuilderModel) -> FlashblockModel {
    let parent_number = match b.canonical_block_number {
        Some(n) => n,
        None => b.parent_block.number,
    };
    let cbn = (parent_number + 1) as u64;
    FlashblockModel {
        payload_id: 0,
        index: b.index,
        base: if b.index == 0 {
            Some(
                ExecutionPayloadBase {
                    parent_hash: b.parent_block.hash,
                    fee_recipient: 0,
                    block_number: cbn,
                    gas_limit: b.parent_block.gas_limit,
                    timestamp: (b.parent_block.timestamp + 2) as u64,
                    base_fee_per_gas: 100,
                },
            )
        } else {
            None
        },
        state_root: 0,
        block_hash: 0,
        gas_used: 0,
        transactions: b.transactions,
        block_number: cbn,
        receipts: b.receipts,
    }
}

impl FlashblockBuilder {
    /// Create a new base flashblock builder (index 0) carrying the system
    /// deposit transaction and its receipt.
    pub fn new_base(parent_block: &ParentBlockInfo) -> (r: Self)
        ensures
            r@ == (BuilderModel {
                transactions: seq![spec_l1_block_info_deposit_tx()],
                receipts: Some(seq![spec_l1_deposit_receipt()]),
                parent_block: *parent_block,
                canonical_block_number: None,
                index: 0,
            }),
    {
        let mut transactions: Vec<Tx> = Vec::new();
        transactions.push(l1_block_info_deposit_tx());
        let mut receipts: Vec<TxReceipt> = Vec::new();
        receipts.push(
            TxReceipt {
                tx_hash: L1_BLOCK_INFO_DEPOSIT_TX_HASH,
                status: true,
                cumulative_gas_used: 10000,
                deposit_nonce: Some(4012991u64),
            },
        );
        let r = FlashblockBuilder {
            canonical_block_number: None,
            transactions,
            receipts: Some(receipts),
            index: 0,
            parent_block: *parent_block,
        };
        proof {
            assert(r@.transactions =~= seq![spec_l1_block_info_deposit_tx()]);
            assert(r@.receipts matches Some(rs) && rs =~= seq![spec_l1_deposit_receipt()]);
            assert(r@ =~~= (BuilderModel {
                transactions: seq![spec_l1_block_info_deposit_tx()],
                receipts: Some(seq![spec_l1_deposit_receipt()]),
                parent_block: *parent_block,
                canonical_block_number: None,
                index: 0,
            }));
        }
        r
    }

    /// Create a new delta flashblock builder with the given index.  Delta
    /// flashblocks (index > 0) carry no execution payload base.
    pub fn new(parent_block: &ParentBlockInfo, index: u64) -> (r: Self)
        ensures
            r@ == (BuilderModel {
                transactions: Seq::empty(),
                receipts: Some(Seq::empty()),
                parent_block: *parent_block,
                canonical_block_number: None,
                index,
            }),
    {
        let r = FlashblockBuilder {
            canonical_block_number: None,
            transactions: Vec::new(),
            receipts: Some(Vec::new()),
            parent_block: *parent_block,
            index,
        };
        proof {
            assert(r@ =~~= (BuilderModel {
                transactions: Seq::empty(),
                receipts: Some(Seq::empty()),
                parent_block: *parent_block,
                canonical_block_number: None,
                index,
            }));
        }
        r
    }

    /// Set the receipts for this flashblock.  `None` simulates a fragment
    /// delivered without receipts.
    pub fn with_receipts(self, receipts: Option<Vec<TxReceipt>>) -> (r: Self)
        ensures
            r@ == (BuilderModel {
                receipts: match receipts {
                    Some(v) => Some(v@),
                    None => None,
                },
                ..self@
            }),
    {
        let r = FlashblockBuilder { receipts, ..self };
        proof {
            assert(r@ =~~= (BuilderModel {
                receipts: match r.receipts {
                    Some(v) => Some(v@),
                    None => None,
                },
                ..self@
            }));
        }
        r
    }

    /// Replace this flashblock's transactions, generating one success
    /// receipt per transaction when receipts are kept.  Only delta
    /// flashblocks (index > 0) take transactions.
    pub fn with_transactions(self, transactions: Vec<Tx>) -> (r: Self)
        requires
            self@.index != 0,
            spec_sum_gas(transactions@) <= u64::MAX,
        ensures
            r@ == (BuilderModel {
                transactions: transactions@,
                receipts: match self@.receipts {
                    Some(rs) => Some(rs + spec_gen_receipts(transactions@, 0)),
                    None => None,
                },
                ..self@
            }),
    {
        let ghost m0 = self@;
        let mut b = self;
        b.transactions = transactions;
        let mut cumulative_gas_used: u64 = 0;
        match b.receipts {
            Some(mut receipts) => {
                let ghost rs0 = receipts@;
                let n = b.transactions.len();
                for i in 0..n
                    invariant
                        n == b.transactions@.len(),
                        spec_sum_gas(b.transactions@) <= u64::MAX,
                        cumulative_gas_used == spec_sum_gas(b.transactions@.take(i as int)),
                        receipts@ == rs0 + spec_gen_receipts(b.transactions@.take(i as int), 0),
                {
                    proof {
                        assert(b.transactions@.take(i + 1).drop_last() =~= b.transactions@.take(
                            i as int,
                        ));
                        assert(b.transactions@.take(i + 1).last() == b.transactions@[i as int]);
                        lemma_sum_gas_monotone(b.transactions@, i + 1);
                    }
                    let txn = b.transactions[i];
                    cumulative_gas_used = cumulative_gas_used + txn.gas_limit;
                    receipts.push(
                        TxReceipt {
                            tx_hash: txn.hash,
                            status: true,
                            cumulative_gas_used,
                            deposit_nonce: None,
                        },
                    );
                    proof {
                        assert(receipts@ =~= rs0 + spec_gen_receipts(b.transactions@.take(i + 1), 0));
                    }
                }
                proof {
                    assert(b.transactions@.take(n as int) =~= b.transactions@);
                }
                b.receipts = Some(receipts);
            },
            None => {
                b.receipts = None;
            },
        }
        proof {
            assert(b@ =~~= (BuilderModel {
                transactions: b.transactions@,
                receipts: match m0.receipts {
                    Some(rs) => Some(rs + spec_gen_receipts(b.transactions@, 0)),
                    None => None,
                },
                ..m0
            }));
        }
        b
    }

    /// Replace this flashblock's transactions without generating receipts.
    /// Only delta flashblocks (index > 0) take transactions.
    pub fn with_raw_transactions(self, transactions: Vec<Tx>) -> (r: Self)
        requires
            self@.index != 0,
        ensures
            r@ == (BuilderModel { transactions: transactions@, ..self@ }),
    {
        let ghost m0 = self@;
        let mut b = self;
        b.transactions = transactions;
        proof {
            assert(b@ =~~= (BuilderModel { transactions: b.transactions@, ..m0 }));
        }
        b
    }

    /// Override the canonical block number this flashblock builds on.  If
    /// not set, the target defaults to the parent block's number plus one.
    pub fn with_canonical_block_number(self, num: u64) -> (r: Self)
        ensures
            r@ == (BuilderModel { canonical_block_number: Some(num), ..self@ }),
    {
        let ghost m0 = self@;
        let mut b = self;
        b.canonical_block_number = Some(num);
        proof {
            assert(b@ =~~= (BuilderModel { canonical_block_number: Some(num), ..m0 }));
        }
        b
    }

    /// Build the flashblock.
    pub fn build(self) -> (r: Flashblock)
        requires
            (match self@.canonical_block_number {
                Some(n) => n,
                None => self@.parent_block.number,
            }) < u64::MAX,
            self@.parent_block.timestamp + 2 <= u64::MAX,
        ensures
            r@ == spec_build(self@),
    {
        let ghost m0 = self@;
        let parent_number = match self.canonical_block_number {
            Some(n) => n,
            None => self.parent_block.number,
        };
        let canonical_block_num = parent_number + 1;
        let base = if self.index == 0 {
            Some(
                ExecutionPayloadBase {
                    parent_hash: self.parent_block.hash,
                    fee_recipient: 0,
                    block_number: canonical_block_num,
                    gas_limit: self.parent_block.gas_limit,
                    timestamp: self.parent_block.timestamp + 2,
                    base_fee_per_gas: 100,
                },
            )
        } else {
            None
        };
        let r = Flashblock {
            payload_id: 0,
            index: self.index,
            base,
            diff: FlashblockDelta {
                state_root: 0,
                block_hash: 0,
                gas_used: 0,
                transactions: self.transactions,
            },
            metadata: Metadata {
                block_number: canonical_block_num,
                receipts: self.receipts,
            },
        };
        proof {
            assert(r@ =~~= spec_build(m0));
        }
        r
    }
}

} // verus!
