//! Engine-wide laws: properties of the ingestion and reconciliation
//! transitions that hold for every input, proved once and for all over the
//! engine's mathematical model.

use vstd::prelude::*;
use crate::engine::StateModel;
use crate::engine::lemma_ingest_preserves_wf;
use crate::engine::spec_get_block;
use crate::engine::spec_ingest;
use crate::engine::spec_new_target;
use crate::engine::spec_on_canonical;
use crate::engine::spec_shape_ok;
use crate::engine::spec_start_new;
use crate::engine::spec_tx_count;
use crate::engine::wf_state;
use crate::overrides::acct_get;
use crate::overrides::ovr_get;
use crate::step::apply_range;
use crate::step::count_from;
use crate::step::lemma_block_range_nonce;
use crate::step::spec_apply_tx;
use crate::step::spec_transfer_ok;
use crate::types::CanonicalBlockModel;
use crate::types::FlashblockModel;
use crate::types::Tx;
use crate::types::spec_inc_u64;

verus! {

/// Idempotent replay: ingesting the same fragment twice leaves the engine
/// exactly as after the first ingestion, whatever the fragment and
/// whatever the engine's state.  In particular the pending block and the
/// override map are identical after both calls.
pub proof fn lemma_ingest_idempotent(s: StateModel, f: FlashblockModel)
    requires
        wf_state(s),
    ensures
        spec_ingest(spec_ingest(s, f), f) == spec_ingest(s, f),
{
    let s1 = spec_ingest(s, f);
    match s.pending {
        Some(p) => {
            if f.index < p.frags.len() && f == p.frags[f.index as int] {
                // A duplicate is a no-op, so the replay repeats it.
            } else if !spec_shape_ok(f) {
                // The sequence is gone; a malformed fragment cannot start one.
                assert(s1.pending is None);
            } else if f.index == 0 {
                // The replay finds the fragment applied at index 0.
                let p1 = match s1.pending {
                    Some(p1) => p1,
                    None => arbitrary(),
                };
                assert(p1.frags == seq![f]);
                assert(p1.frags[0] == f);
            } else if f.index == p.frags.len() && f.block_number == p.target {
                // The replay finds the fragment applied at its index.
                let p1 = match s1.pending {
                    Some(p1) => p1,
                    None => arbitrary(),
                };
                assert(p1.frags[f.index as int] == f);
            } else {
                // The sequence is gone, and a non-base fragment is ignored.
                assert(s1.pending is None);
            }
        },
        None => {
            if f.index == 0 && spec_shape_ok(f) {
                let p1 = match s1.pending {
                    Some(p1) => p1,
                    None => arbitrary(),
                };
                assert(p1.frags[0] == f);
            } else {
                // Ignored, twice.
            }
        },
    }
}

/// Gap invalidation: with a live sequence holding only its base fragment,
/// a fragment at index two or higher for the same target discards the
/// sequence entirely.
pub proof fn lemma_gap_invalidates(s: StateModel, f: FlashblockModel)
    requires
        wf_state(s),
        (match s.pending {
            Some(p) => p.frags.len() == 1 && f.block_number == p.target,
            None => false,
        }),
        f.index >= 2,
    ensures
        spec_ingest(s, f).pending is None,
{
}

/// Sequential continuation: after a base fragment (extending target `n`)
/// and the expected index-1 fragment, the pending block's number is `n`
/// and its transactions are both fragments' lists concatenated; a new base
/// fragment for target `n + 1` then advances the block number and resets
/// the transactions to that fragment's own contribution.
pub proof fn lemma_sequential_continuation(
    s: StateModel,
    f0: FlashblockModel,
    f1: FlashblockModel,
    g0: FlashblockModel,
)
    requires
        wf_state(s),
        s.pending is None,
        f0.index == 0,
        f0.base is Some,
        f1.index == 1,
        f1.base is None,
        f1.block_number == spec_new_target(s, f0),
        g0.index == 0,
        g0.base is Some,
        g0.block_number == spec_inc_u64(spec_new_target(s, f0)),
        spec_new_target(s, f0) < u64::MAX,
    ensures
        ({
            let n = spec_new_target(s, f0);
            let s2 = spec_ingest(spec_ingest(s, f0), f1);
            match spec_get_block(s2, false) {
                Some(b) => b.number == n && b.transactions == f0.transactions + f1.transactions,
                None => false,
            }
        }),
        ({
            let n = spec_new_target(s, f0);
            let s3 = spec_ingest(spec_ingest(spec_ingest(s, f0), f1), g0);
            match spec_get_block(s3, false) {
                Some(b) => b.number == n + 1 && b.transactions == g0.transactions,
                None => false,
            }
        }),
{
    let n = spec_new_target(s, f0);
    let s1 = spec_ingest(s, f0);
    assert(s1 == spec_start_new(s, f0));
    let p1 = match s1.pending {
        Some(p1) => p1,
        None => arbitrary(),
    };
    assert(p1.target == n && p1.frags.len() == 1);
    let s2 = spec_ingest(s1, f1);
    let p2 = match s2.pending {
        Some(p2) => p2,
        None => arbitrary(),
    };
    assert(p2.target == n && p2.frags.len() == 2);
    assert(p2.txs == f0.transactions + f1.transactions);
    assert(p2.base == f0.base);
    let s3 = spec_ingest(s2, g0);
    // The new base is no replay: its target exceeds anything applied so far.
    assert(g0.block_number == n + 1);
    assert(p2.frags[0] == f0 && f0.block_number <= n);
    assert(g0 != p2.frags[0]);
    assert(s3 == spec_start_new(s2, g0));
    assert(spec_new_target(s2, g0) == n + 1);
    let p3 = match s3.pending {
        Some(p3) => p3,
        None => arbitrary(),
    };
    assert(p3.target == n + 1 && p3.frags.len() == 1);
    assert(p3.txs == g0.transactions);
    assert(p3.base == g0.base);
}

/// Override persistence across a rebase at the same height: a base plus a
/// payment of `t.value` from `t.from` to `t.to`, then a fresh base at the
/// same target, then the same payment again, leaves `t.to` with an
/// override balance of its canonical balance plus twice the payment.
pub proof fn lemma_override_persists_across_rebase(
    s: StateModel,
    b1: FlashblockModel,
    d1: FlashblockModel,
    b2: FlashblockModel,
    d2: FlashblockModel,
    t: Tx,
)
    requires
        wf_state(s),
        s.pending is None,
        b1.index == 0,
        b1.base is Some,
        b1.transactions == Seq::<Tx>::empty(),
        b2.index == 0,
        b2.base is Some,
        b2.transactions == Seq::<Tx>::empty(),
        b2.block_number == b1.block_number,
        b2 != b1,
        d1.index == 1,
        d1.base is None,
        d1.block_number == spec_new_target(s, b1),
        d1.transactions == seq![t],
        d2.index == 1,
        d2.base is None,
        d2.block_number == spec_new_target(s, b1),
        d2.transactions == seq![t],
        !t.is_deposit,
        t.from != t.to,
        acct_get(s.accounts, t.from).balance >= t.value + t.value,
        acct_get(s.accounts, t.to).balance + t.value + t.value <= u128::MAX,
    ensures
        (match spec_ingest(spec_ingest(spec_ingest(spec_ingest(s, b1), d1), b2), d2).pending {
            Some(p) => ovr_get(p.overrides, t.to).balance == Some(
                (acct_get(s.accounts, t.to).balance + t.value + t.value) as u128,
            ),
            None => false,
        }),
{
    let n = spec_new_target(s, b1);
    let bal_from = acct_get(s.accounts, t.from).balance;
    let bal_to = acct_get(s.accounts, t.to).balance;
    let empty_ovr = Map::<u64, crate::types::AccountOverride>::empty();

    // Base 1 starts a fresh sequence with no transactions and no overrides.
    let s1 = spec_ingest(s, b1);
    assert(s1 == spec_start_new(s, b1));
    let p1 = match s1.pending {
        Some(p1) => p1,
        None => arbitrary(),
    };
    assert(p1.overrides == apply_range(s.accounts, empty_ovr, b1.transactions, 0, 0));
    assert(p1.overrides == empty_ovr);
    assert(p1.target == n && p1.frags.len() == 1 && p1.txs == Seq::<Tx>::empty());

    // Delta 1 executes the payment against canonical state.
    let s2 = spec_ingest(s1, d1);
    let p2 = match s2.pending {
        Some(p2) => p2,
        None => arbitrary(),
    };
    let txs1 = Seq::<Tx>::empty() + seq![t];
    assert(txs1 =~= seq![t]);
    assert(p2.txs == txs1);
    assert(p2.overrides == apply_range(s.accounts, empty_ovr, txs1, 0, 1));
    assert(txs1.take(1) =~= txs1);
    assert(txs1.drop_last() =~= Seq::<Tx>::empty());
    assert(txs1.last() == t && txs1[0] == t);
    assert(count_from(Seq::<Tx>::empty(), t.from) == 0);
    assert(count_from(txs1, t.from) == count_from(txs1.drop_last(), t.from) + 1);
    assert(count_from(txs1, t.from) == 1);
    let ovr_a = spec_apply_tx(s.accounts, empty_ovr, t, 1);
    assert(apply_range(s.accounts, empty_ovr, txs1, 0, 0) == empty_ovr);
    assert(apply_range(s.accounts, empty_ovr, txs1, 0, 1) == spec_apply_tx(
        s.accounts,
        empty_ovr,
        t,
        count_from(txs1.take(1), t.from) as u64,
    ));
    assert(p2.overrides == ovr_a);
    assert(spec_transfer_ok(s.accounts, empty_ovr, t));
    assert(ovr_get(ovr_a, t.from).balance == Some((bal_from - t.value) as u128));
    assert(ovr_get(ovr_a, t.to).balance == Some((bal_to + t.value) as u128));

    // Base 2 rebases the same height: the overrides are carried forward.
    let s3 = spec_ingest(s2, b2);
    assert(p2.frags[0] == b1);
    assert(b2 != p2.frags[0]);
    assert(s3 == spec_start_new(s2, b2));
    assert(spec_new_target(s2, b2) == n);
    let p3 = match s3.pending {
        Some(p3) => p3,
        None => arbitrary(),
    };
    assert(p3.overrides == apply_range(s.accounts, ovr_a, b2.transactions, 0, 0));
    assert(p3.overrides == ovr_a);
    assert(p3.target == n && p3.frags.len() == 1 && p3.txs == Seq::<Tx>::empty());

    // Delta 2 executes the payment again, on top of the carried overrides.
    let s4 = spec_ingest(s3, d2);
    let p4 = match s4.pending {
        Some(p4) => p4,
        None => arbitrary(),
    };
    assert(p4.txs == txs1);
    assert(p4.overrides == apply_range(s.accounts, ovr_a, txs1, 0, 1));
    let ovr_b = spec_apply_tx(s.accounts, ovr_a, t, 1);
    assert(apply_range(s.accounts, ovr_a, txs1, 0, 0) == ovr_a);
    assert(apply_range(s.accounts, ovr_a, txs1, 0, 1) == spec_apply_tx(
        s.accounts,
        ovr_a,
        t,
        count_from(txs1.take(1), t.from) as u64,
    ));
    assert(p4.overrides == ovr_b);
    assert(crate::step::eff_balance(s.accounts, ovr_a, t.from) == (bal_from - t.value) as u128);
    assert(crate::step::eff_balance(s.accounts, ovr_a, t.to) == (bal_to + t.value) as u128);
    assert(spec_transfer_ok(s.accounts, ovr_a, t));
    assert(ovr_get(ovr_b, t.to).balance == Some((bal_to + t.value + t.value) as u128));
}

/// Override carry-forward across canonical catch-up: when the canonical
/// chain reaches the live sequence's target height, the override map is
/// retained as the seed for the next height while assembly restarts empty.
pub proof fn lemma_carry_forward_across_catch_up(s: StateModel, b: CanonicalBlockModel)
    requires
        wf_state(s),
        (match s.pending {
            Some(p) => p.target == b.number && p.depth < s.max_depth,
            None => false,
        }),
        b.number < u64::MAX,
    ensures
        (match (s.pending, spec_on_canonical(s, b).pending) {
            (Some(p), Some(p2)) => p2.overrides == p.overrides && p2.target == b.number + 1
                && p2.txs == Seq::<Tx>::empty() && p2.frags.len() == 0,
            _ => false,
        }),
{
}

/// Nonce race correctness: the pending nonce a caller derives — the
/// canonical nonce at the engine's anchor plus the engine's pending
/// transaction count — is unchanged when the canonical chain commits
/// exactly the transactions the live sequence was built from.  A caller
/// reading the nonce at an independently observed chain head instead of
/// the anchor would count those transactions twice.
pub proof fn lemma_pending_nonce_stable_across_catch_up(
    s: StateModel,
    b: CanonicalBlockModel,
    a: u64,
)
    requires
        wf_state(s),
        (match s.pending {
            Some(p) => p.target == b.number && b.transactions == p.txs,
            None => false,
        }),
        acct_get(s.accounts, a).nonce + spec_tx_count(s, a) <= u64::MAX,
    ensures
        ({
            let s2 = spec_on_canonical(s, b);
            acct_get(s2.accounts, a).nonce + spec_tx_count(s2, a) == acct_get(s.accounts, a).nonce
                + spec_tx_count(s, a)
        }),
{
    let s2 = spec_on_canonical(s, b);
    let len = b.transactions.len() as int;
    assert(b.transactions.take(len) =~= b.transactions);
    lemma_block_range_nonce(s.accounts, b.transactions, len, a);
    assert(spec_tx_count(s2, a) == 0);
}

/// Receipts never affect assembly: two fragments identical but for their
/// receipt maps, each applied to the live sequence, produce the same
/// pending block, the same transactions and the same overrides.  In
/// particular a fragment delivered without receipts still contributes
/// every one of its transactions, whose intrinsic fields come from the
/// transactions themselves.
pub proof fn lemma_receipts_do_not_affect_assembly(
    s: StateModel,
    f1: FlashblockModel,
    f2: FlashblockModel,
    allow_fallback: bool,
)
    requires
        wf_state(s),
        f2 == (FlashblockModel { receipts: f2.receipts, ..f1 }),
        (match s.pending {
            None => f1.index == 0 && f1.base is Some,
            Some(p) => {
                &&& f1.index == p.frags.len()
                &&& (f1.index == 0 ==> f1.base is Some)
                &&& (f1.index != 0 ==> f1.base is None && f1.block_number == p.target)
            },
        }),
    ensures
        ({
            let s1 = spec_ingest(s, f1);
            let s2 = spec_ingest(s, f2);
            &&& spec_get_block(s1, allow_fallback) == spec_get_block(s2, allow_fallback)
            &&& (match (s1.pending, s2.pending) {
                (Some(p1), Some(p2)) => p1.overrides == p2.overrides && p1.txs == p2.txs
                    && p1.target == p2.target && p1.base == p2.base,
                _ => false,
            })
        }),
{
    let s1 = spec_ingest(s, f1);
    let s2 = spec_ingest(s, f2);
    lemma_ingest_preserves_wf(s, f1);
    lemma_ingest_preserves_wf(s, f2);
    let p1 = match s1.pending {
        Some(p1) => p1,
        None => arbitrary(),
    };
    let p2 = match s2.pending {
        Some(p2) => p2,
        None => arbitrary(),
    };
    assert(s1.pending is Some && s2.pending is Some);
    assert(p1.overrides == p2.overrides && p1.txs == p2.txs && p1.target == p2.target && p1.base
        == p2.base && p1.gas_used == p2.gas_used && p1.state_root == p2.state_root
        && p1.block_hash == p2.block_hash && p1.frags.len() == p2.frags.len());
    assert(p1.frags.len() > 0);
    match (spec_get_block(s1, allow_fallback), spec_get_block(s2, allow_fallback)) {
        (Some(x), Some(y)) => {
            assert(x =~= y);
        },
        _ => {},
    }
}

} // verus!
