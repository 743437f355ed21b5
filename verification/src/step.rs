//! Speculative execution of pending transactions, and application of
//! canonical blocks to canonical account state.
//!
//! A pending transaction is executed against canonical state overlaid with
//! the current override map; its effects are recorded in the override map.
//! Every included transaction consumes one nonce from its sender, so the
//! sender's `nonce_delta` is recomputed as the number of pending-sequence
//! transactions it sent.  Balance effects apply only when the transfer can
//! be performed: the sender can afford it (deposits mint instead) and the
//! recipient's balance does not overflow; a transaction that cannot be
//! performed keeps its place in the block but its balance effect is skipped.

use vstd::prelude::*;
use crate::assoc::AssocMap;
use crate::overrides::AccountMap;
use crate::overrides::OverrideMap;
use crate::overrides::acct_get;
use crate::overrides::ovr_get;
use crate::types::Account;
use crate::types::AccountOverride;
use crate::types::Tx;
use crate::types::spec_inc_u64;

verus! {

/// The balance a reader would see for an address: the override when set,
/// else the canonical balance.
pub open spec fn eff_balance(
    accounts: Map<u64, Account>,
    ovr: Map<u64, AccountOverride>,
    a: u64,
) -> u128 {
    match ovr_get(ovr, a).balance {
        Some(b) => b,
        None => acct_get(accounts, a).balance,
    }
}

/// Whether a transaction's balance transfer can be performed against the
/// overlaid state.
pub open spec fn spec_transfer_ok(
    accounts: Map<u64, Account>,
    ovr: Map<u64, AccountOverride>,
    t: Tx,
) -> bool {
    if t.is_deposit {
        eff_balance(accounts, ovr, t.to) + t.value <= u128::MAX
    } else {
        &&& eff_balance(accounts, ovr, t.from) >= t.value
        &&& (t.to == t.from || eff_balance(accounts, ovr, t.to) + t.value <= u128::MAX)
    }
}

/// The override map after one pending transaction, where `cnt` is the
/// sender's recomputed pending-transaction count (including this one).
pub open spec fn spec_apply_tx(
    accounts: Map<u64, Account>,
    ovr: Map<u64, AccountOverride>,
    t: Tx,
    cnt: u64,
) -> Map<u64, AccountOverride> {
    let e_from = ovr_get(ovr, t.from);
    let ovr1 = ovr.insert(
        t.from,
        AccountOverride { balance: e_from.balance, nonce_delta: cnt, code_hash: e_from.code_hash },
    );
    if !spec_transfer_ok(accounts, ovr, t) {
        ovr1
    } else if t.is_deposit {
        let e_to = ovr_get(ovr1, t.to);
        ovr1.insert(
            t.to,
            AccountOverride {
                balance: Some((eff_balance(accounts, ovr1, t.to) + t.value) as u128),
                nonce_delta: e_to.nonce_delta,
                code_hash: e_to.code_hash,
            },
        )
    } else {
        let e_from1 = ovr_get(ovr1, t.from);
        let ovr2 = ovr1.insert(
            t.from,
            AccountOverride {
                balance: Some((eff_balance(accounts, ovr1, t.from) - t.value) as u128),
                nonce_delta: e_from1.nonce_delta,
                code_hash: e_from1.code_hash,
            },
        );
        let e_to = ovr_get(ovr2, t.to);
        ovr2.insert(
            t.to,
            AccountOverride {
                balance: Some((eff_balance(accounts, ovr2, t.to) + t.value) as u128),
                nonce_delta: e_to.nonce_delta,
                code_hash: e_to.code_hash,
            },
        )
    }
}

/// How many of the transactions were sent by `a`.
pub open spec fn count_from(txs: Seq<Tx>, a: u64) -> nat
    decreases txs.len(),
{
    if txs.len() == 0 {
        0
    } else {
        count_from(txs.drop_last(), a) + (if txs.last().from == a {
            1nat
        } else {
            0nat
        })
    }
}

pub proof fn lemma_count_from_le(txs: Seq<Tx>, a: u64)
    ensures
        count_from(txs, a) <= txs.len(),
    decreases txs.len(),
{
    if txs.len() > 0 {
        lemma_count_from_le(txs.drop_last(), a);
    }
}

/// The override map after executing `txs[lo..n]`, where sender counts are
/// recomputed over the whole list.
pub open spec fn apply_range(
    accounts: Map<u64, Account>,
    ovr: Map<u64, AccountOverride>,
    txs: Seq<Tx>,
    lo: int,
    n: int,
) -> Map<u64, AccountOverride>
    decreases n - lo,
{
    if n <= lo {
        ovr
    } else {
        spec_apply_tx(
            accounts,
            apply_range(accounts, ovr, txs, lo, n - 1),
            txs[n - 1],
            count_from(txs.take(n), txs[n - 1].from) as u64,
        )
    }
}

/// Count the transactions among the first `upto` that `a` sent.
pub fn count_from_prefix(txs: &Vec<Tx>, upto: usize, a: u64) -> (r: u64)
    requires
        upto <= txs@.len(),
    ensures
        r == count_from(txs@.take(upto as int), a),
{
    let mut c: u64 = 0;
    for i in 0..upto
        invariant
            upto <= txs@.len(),
            c == count_from(txs@.take(i as int), a),
            c <= i,
    {
        proof {
            assert(txs@.take(i + 1).drop_last() =~= txs@.take(i as int));
            assert(txs@.take(i + 1).last() == txs@[i as int]);
        }
        if txs[i].from == a {
            c = c + 1;
        }
    }
    c
}

/// The balance a reader would see, as executable code.
pub fn eff_balance_of(accounts: &AccountMap, ovr: &OverrideMap, a: u64) -> (r: u128)
    requires
        accounts.wf(),
        ovr.wf(),
    ensures
        r == eff_balance(accounts@, ovr@, a),
{
    let e = ovr.override_at(a);
    match e.balance {
        Some(b) => b,
        None => accounts.account_at(a).balance,
    }
}

/// Execute one pending transaction against the overlaid state, recording
/// its effects in the override map.
pub fn apply_one(accounts: &AccountMap, ovr: &mut OverrideMap, t: Tx, cnt: u64)
    requires
        accounts.wf(),
        old(ovr).wf(),
    ensures
        final(ovr).wf(),
        final(ovr)@ == spec_apply_tx(accounts@, old(ovr)@, t, cnt),
{
    let from_bal0 = eff_balance_of(accounts, ovr, t.from);
    let to_bal0 = eff_balance_of(accounts, ovr, t.to);
    let ok = if t.is_deposit {
        to_bal0 <= u128::MAX - t.value
    } else {
        from_bal0 >= t.value && (t.to == t.from || to_bal0 <= u128::MAX - t.value)
    };
    proof {
        assert(ok == spec_transfer_ok(accounts@, ovr@, t));
    }
    let ghost ovr0 = ovr@;
    // Every included transaction consumes a nonce from its sender.
    let e_from = ovr.override_at(t.from);
    ovr.insert(
        t.from,
        AccountOverride { balance: e_from.balance, nonce_delta: cnt, code_hash: e_from.code_hash },
    );
    proof {
        // Recording the count leaves every effective balance unchanged.
        assert(eff_balance(accounts@, ovr@, t.from) == eff_balance(accounts@, ovr0, t.from));
        assert(eff_balance(accounts@, ovr@, t.to) == eff_balance(accounts@, ovr0, t.to));
    }
    if ok {
        if t.is_deposit {
            let e_to = ovr.override_at(t.to);
            let to_eff = eff_balance_of(accounts, ovr, t.to);
            ovr.insert(
                t.to,
                AccountOverride {
                    balance: Some(to_eff + t.value),
                    nonce_delta: e_to.nonce_delta,
                    code_hash: e_to.code_hash,
                },
            );
        } else {
            let from_eff = eff_balance_of(accounts, ovr, t.from);
            let e_from1 = ovr.override_at(t.from);
            ovr.insert(
                t.from,
                AccountOverride {
                    balance: Some(from_eff - t.value),
                    nonce_delta: e_from1.nonce_delta,
                    code_hash: e_from1.code_hash,
                },
            );
            let to_eff = eff_balance_of(accounts, ovr, t.to);
            let e_to = ovr.override_at(t.to);
            ovr.insert(
                t.to,
                AccountOverride {
                    balance: Some(to_eff + t.value),
                    nonce_delta: e_to.nonce_delta,
                    code_hash: e_to.code_hash,
                },
            );
        }
    }
}

/// Execute `txs[start..]`, extending the override map in place.
pub fn apply_txs(accounts: &AccountMap, ovr: &mut OverrideMap, txs: &Vec<Tx>, start: usize)
    requires
        accounts.wf(),
        old(ovr).wf(),
        start <= txs@.len(),
    ensures
        final(ovr).wf(),
        final(ovr)@ == apply_range(accounts@, old(ovr)@, txs@, start as int, txs@.len() as int),
{
    let n = txs.len();
    for i in start..n
        invariant
            accounts.wf(),
            ovr.wf(),
            n == txs@.len(),
            start <= i <= n,
            ovr@ == apply_range(accounts@, old(ovr)@, txs@, start as int, i as int),
    {
        let t = txs[i];
        let cnt = count_from_prefix(txs, i + 1, t.from);
        apply_one(accounts, ovr, t, cnt);
    }
}

/// Whether a canonical transaction's balance transfer can be performed.
pub open spec fn spec_block_transfer_ok(accounts: Map<u64, Account>, t: Tx) -> bool {
    if t.is_deposit {
        acct_get(accounts, t.to).balance + t.value <= u128::MAX
    } else {
        &&& acct_get(accounts, t.from).balance >= t.value
        &&& (t.to == t.from || acct_get(accounts, t.to).balance + t.value <= u128::MAX)
    }
}

/// Canonical account state after one committed transaction: the sender's
/// nonce advances, and the transfer applies when it can be performed.
pub open spec fn spec_apply_block_tx(accounts: Map<u64, Account>, t: Tx) -> Map<u64, Account> {
    let a_from = acct_get(accounts, t.from);
    let acc1 = accounts.insert(
        t.from,
        Account { balance: a_from.balance, nonce: spec_inc_u64(a_from.nonce) },
    );
    if !spec_block_transfer_ok(accounts, t) {
        acc1
    } else if t.is_deposit {
        let a_to = acct_get(acc1, t.to);
        acc1.insert(t.to, Account { balance: (a_to.balance + t.value) as u128, nonce: a_to.nonce })
    } else {
        let a_from1 = acct_get(acc1, t.from);
        let acc2 = acc1.insert(
            t.from,
            Account { balance: (a_from1.balance - t.value) as u128, nonce: a_from1.nonce },
        );
        let a_to = acct_get(acc2, t.to);
        acc2.insert(t.to, Account { balance: (a_to.balance + t.value) as u128, nonce: a_to.nonce })
    }
}

/// Canonical account state after the first `n` transactions of a block.
pub open spec fn apply_block_range(
    accounts: Map<u64, Account>,
    txs: Seq<Tx>,
    n: int,
) -> Map<u64, Account>
    decreases n,
{
    if n <= 0 {
        accounts
    } else {
        spec_apply_block_tx(apply_block_range(accounts, txs, n - 1), txs[n - 1])
    }
}

/// Apply one committed transaction to canonical account state.
pub fn apply_block_one(accounts: &mut AccountMap, t: Tx)
    requires
        old(accounts).wf(),
    ensures
        final(accounts).wf(),
        final(accounts)@ == spec_apply_block_tx(old(accounts)@, t),
{
    let a_from = accounts.account_at(t.from);
    let to_bal0 = accounts.account_at(t.to).balance;
    let ok = if t.is_deposit {
        to_bal0 <= u128::MAX - t.value
    } else {
        a_from.balance >= t.value && (t.to == t.from || to_bal0 <= u128::MAX - t.value)
    };
    let ghost acc0 = accounts@;
    accounts.insert(
        t.from,
        Account { balance: a_from.balance, nonce: crate::types::inc_u64(a_from.nonce) },
    );
    proof {
        assert(ok == spec_block_transfer_ok(acc0, t));
        assert(acct_get(accounts@, t.to).balance == acct_get(acc0, t.to).balance);
    }
    if ok {
        if t.is_deposit {
            let a_to = accounts.account_at(t.to);
            accounts.insert(t.to, Account { balance: a_to.balance + t.value, nonce: a_to.nonce });
        } else {
            let a_from1 = accounts.account_at(t.from);
            accounts.insert(
                t.from,
                Account { balance: a_from1.balance - t.value, nonce: a_from1.nonce },
            );
            let a_to = accounts.account_at(t.to);
            accounts.insert(t.to, Account { balance: a_to.balance + t.value, nonce: a_to.nonce });
        }
    }
}

/// Apply every transaction of a committed block to canonical state.
pub fn apply_block_txs(accounts: &mut AccountMap, txs: &Vec<Tx>)
    requires
        old(accounts).wf(),
    ensures
        final(accounts).wf(),
        final(accounts)@ == apply_block_range(old(accounts)@, txs@, txs@.len() as int),
{
    let n = txs.len();
    for i in 0..n
        invariant
            accounts.wf(),
            n == txs@.len(),
            accounts@ == apply_block_range(old(accounts)@, txs@, i as int),
    {
        let t = txs[i];
        apply_block_one(accounts, t);
    }
}

/// A committed transaction advances only its sender's nonce, by one.
pub proof fn lemma_block_tx_nonce(accounts: Map<u64, Account>, t: Tx, a: u64)
    ensures
        acct_get(spec_apply_block_tx(accounts, t), a).nonce == (if t.from == a {
            spec_inc_u64(acct_get(accounts, a).nonce)
        } else {
            acct_get(accounts, a).nonce
        }),
{
}

/// Applying a block advances an address's nonce by exactly the number of
/// its transactions in the block, absent nonce saturation.
pub proof fn lemma_block_range_nonce(accounts: Map<u64, Account>, txs: Seq<Tx>, n: int, a: u64)
    requires
        0 <= n <= txs.len(),
        acct_get(accounts, a).nonce + count_from(txs.take(n), a) <= u64::MAX,
    ensures
        acct_get(apply_block_range(accounts, txs, n), a).nonce == acct_get(accounts, a).nonce
            + count_from(txs.take(n), a),
    decreases n,
{
    if n > 0 {
        assert(txs.take(n).drop_last() =~= txs.take(n - 1));
        assert(txs.take(n).last() == txs[n - 1]);
        lemma_count_from_le(txs.take(n - 1), a);
        lemma_block_range_nonce(accounts, txs, n - 1, a);
        lemma_block_tx_nonce(apply_block_range(accounts, txs, n - 1), txs[n - 1], a);
    }
}

} // verus!
