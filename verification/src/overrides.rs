//! The override layer: address-keyed account deltas layered on canonical
//! state, and the rule for merging a newer delta map into an older one.

use vstd::prelude::*;
use crate::assoc::AssocMap;
use crate::types::Account;
use crate::types::AccountOverride;

verus! {

/// Speculative account deltas keyed by address.
pub type OverrideMap = AssocMap<AccountOverride>;

/// Canonical account state keyed by address.
pub type AccountMap = AssocMap<Account>;

/// The override an untouched address is treated as carrying.
pub open spec fn default_override() -> AccountOverride {
    AccountOverride { balance: None, nonce_delta: 0, code_hash: None }
}

/// The override recorded for an address, or the default when absent.
pub open spec fn ovr_get(ovr: Map<u64, AccountOverride>, a: u64) -> AccountOverride {
    if ovr.dom().contains(a) {
        ovr[a]
    } else {
        default_override()
    }
}

/// The canonical account at an address, or the empty account when absent.
pub open spec fn acct_get(accounts: Map<u64, Account>, a: u64) -> Account {
    if accounts.dom().contains(a) {
        accounts[a]
    } else {
        Account { balance: 0, nonce: 0 }
    }
}

/// Per-address merge: the newer delta's absolute values win.  `balance` and
/// `code_hash` replace when present; `nonce_delta` always replaces, because
/// it is recomputed from the whole transaction list rather than summed.
pub open spec fn spec_merge_entry(e: AccountOverride, d: AccountOverride) -> AccountOverride {
    AccountOverride {
        balance: match d.balance {
            Some(b) => Some(b),
            None => e.balance,
        },
        nonce_delta: d.nonce_delta,
        code_hash: match d.code_hash {
            Some(c) => Some(c),
            None => e.code_hash,
        },
    }
}

/// The value a merged map carries at one address.
pub open spec fn merge_at(
    e: Map<u64, AccountOverride>,
    d: Map<u64, AccountOverride>,
    a: u64,
) -> AccountOverride {
    if d.dom().contains(a) {
        if e.dom().contains(a) {
            spec_merge_entry(e[a], d[a])
        } else {
            d[a]
        }
    } else {
        e[a]
    }
}

/// The merge of a delta map into an existing map: an address is present
/// exactly when it is present in either, and the delta wins per field.
pub open spec fn spec_merge(
    e: Map<u64, AccountOverride>,
    d: Map<u64, AccountOverride>,
) -> Map<u64, AccountOverride> {
    Map::new(|a: u64| e.dom().contains(a) || d.dom().contains(a), |a: u64| merge_at(e, d, a))
}

fn merge_entry(e: AccountOverride, d: AccountOverride) -> (r: AccountOverride)
    ensures
        r == spec_merge_entry(e, d),
{
    AccountOverride {
        balance: match d.balance {
            Some(b) => Some(b),
            None => e.balance,
        },
        nonce_delta: d.nonce_delta,
        code_hash: match d.code_hash {
            Some(c) => Some(c),
            None => e.code_hash,
        },
    }
}

impl AssocMap<Account> {
    /// The canonical account at an address; absent addresses are empty.
    pub fn account_at(&self, a: u64) -> (r: Account)
        requires
            self.wf(),
        ensures
            r == acct_get(self@, a),
    {
        match self.get(a) {
            Some(acc) => acc,
            None => Account { balance: 0, nonce: 0 },
        }
    }
}

impl AssocMap<AccountOverride> {
    /// The override at an address; untouched addresses carry the default.
    pub fn override_at(&self, a: u64) -> (r: AccountOverride)
        requires
            self.wf(),
        ensures
            r == ovr_get(self@, a),
    {
        match self.get(a) {
            Some(e) => e,
            None => default_override_value(),
        }
    }

    /// Merge a newer delta map into this one, per address.
    pub fn merge(&self, delta: &OverrideMap) -> (r: OverrideMap)
        requires
            self.wf(),
            delta.wf(),
        ensures
            r.wf(),
            r@ == spec_merge(self@, delta@),
    {
        let mut r = self.duplicate();
        let dkeys = delta.keys();
        let n = dkeys.len();
        for i in 0..n
            invariant
                self.wf(),
                delta.wf(),
                r.wf(),
                n == dkeys@.len(),
                forall|p: int, q: int| 0 <= p < q < dkeys@.len() ==> dkeys@[p] != dkeys@[q],
                forall|k: u64| dkeys@.contains(k) <==> delta@.dom().contains(k),
                forall|k: u64|
                    #[trigger] r@.dom().contains(k) <==> (self@.dom().contains(k)
                        || dkeys@.take(i as int).contains(k)),
                forall|k: u64|
                    r@.dom().contains(k) ==> #[trigger] r@[k] == (
                    if dkeys@.take(i as int).contains(k) {
                        merge_at(self@, delta@, k)
                    } else {
                        self@[k]
                    }),
        {
            let k = dkeys[i];
            proof {
                assert(dkeys@.contains(k));
            }
            let d = match delta.get(k) {
                Some(d) => d,
                None => default_override_value(),
            };
            proof {
                assert(!dkeys@.take(i as int).contains(k)) by {
                    if dkeys@.take(i as int).contains(k) {
                        let j = choose|j: int| 0 <= j < i && dkeys@.take(i as int)[j] == k;
                        assert(dkeys@[j] == dkeys@[i as int]);
                    }
                }
            }
            let merged = match r.get(k) {
                Some(e) => merge_entry(e, d),
                None => d,
            };
            r.insert(k, merged);
            proof {
                assert(dkeys@.take(i + 1).drop_last() =~= dkeys@.take(i as int));
                assert forall|k2: u64| #[trigger] dkeys@.take(i + 1).contains(k2) implies (dkeys@.take(
                    i as int,
                ).contains(k2) || k2 == k) by {
                    let j = choose|j: int| 0 <= j <= i && #[trigger] dkeys@.take(i + 1)[j] == k2;
                    if j < i {
                        assert(dkeys@.take(i as int)[j] == k2);
                    }
                }
                assert forall|k2: u64| dkeys@.take(i as int).contains(k2) implies #[trigger] dkeys@.take(
                    i + 1,
                ).contains(k2) by {
                    let j = choose|j: int| 0 <= j < i && dkeys@.take(i as int)[j] == k2;
                    assert(dkeys@.take(i + 1)[j] == k2);
                }
                assert(dkeys@.take(i + 1).contains(k)) by {
                    assert(dkeys@.take(i + 1)[i as int] == k);
                }
            }
        }
        proof {
            assert(dkeys@.take(n as int) =~= dkeys@);
            let m = spec_merge(self@, delta@);
            assert forall|k: u64| #[trigger] m.dom().contains(k) implies r@.dom().contains(k) by {
                assert(self@.dom().contains(k) || delta@.dom().contains(k));
                if delta@.dom().contains(k) {
                    assert(dkeys@.contains(k));
                }
            }
            assert forall|k: u64| #[trigger] r@.dom().contains(k) implies m.dom().contains(k)
                && r@[k] == m[k] by {
                if dkeys@.contains(k) {
                    assert(delta@.dom().contains(k));
                } else {
                    assert(!delta@.dom().contains(k));
                }
            }
            assert(r@ =~= m);
        }
        r
    }
}

/// The default override as an executable value.
fn default_override_value() -> (r: AccountOverride)
    ensures
        r == default_override(),
{
    AccountOverride { balance: None, nonce_delta: 0, code_hash: None }
}

} // verus!
