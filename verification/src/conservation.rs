use vstd::prelude::*;
use vstd::set::fold::{lemma_fold_empty, lemma_fold_insert};

use crate::domain_state::Account;
use crate::identifiers::ClientId;

verus! {

/// The folding step for summing account totals: adds one account's
/// available and held funds to the accumulator.
pub open spec fn total_fold_fn() -> spec_fn(int, (ClientId, Account)) -> int {
    |acc: int, kv: (ClientId, Account)| acc + kv.1.spec_total()
}

/// The total funds over a whole account map: the sum of
/// `available + held` across all accounts, as a mathematical integer.
pub open spec fn funds(accounts: Map<ClientId, Account>) -> int {
    accounts.kv_pairs().fold(0int, total_fold_fn())
}

/// The key-value pair set of a finite map is finite.
pub proof fn lemma_kv_pairs_finite<K, V>(m: Map<K, V>)
    requires
        m.dom().finite(),
    ensures
        m.kv_pairs().finite(),
    decreases m.dom().len(),
{
    if m.dom().len() > 0 {
        let k = m.dom().choose();
        assert(m.dom().contains(k));
        let m1 = m.remove(k);
        assert(m.kv_pairs() =~= m1.kv_pairs().insert((k, m[k])));
        lemma_kv_pairs_finite(m1);
    } else {
        assert(m.dom() =~= Set::<K>::empty());
        assert(m.kv_pairs() =~= Set::<(K, V)>::empty());
    }
}

/// An empty account map holds no funds.
pub proof fn lemma_funds_empty()
    ensures
        funds(Map::<ClientId, Account>::empty()) == 0,
{
    assert(Map::<ClientId, Account>::empty().kv_pairs() =~= Set::<(ClientId, Account)>::empty());
    lemma_fold_empty(0int, total_fold_fn());
}

/// Storing an account changes the total funds by exactly the new
/// account's total minus the total of the account it replaces (zero
/// when the client is new).
pub proof fn lemma_funds_insert(m: Map<ClientId, Account>, k: ClientId, v: Account)
    requires
        m.dom().finite(),
    ensures
        funds(m.insert(k, v)) == funds(m) + v.spec_total() - (if m.contains_key(k) {
            m[k].spec_total()
        } else {
            0int
        }),
{
    let f = total_fold_fn();
    assert(vstd::set::fold::is_fun_commutative(f));
    if m.contains_key(k) {
        let m0 = m.remove(k);
        lemma_kv_pairs_finite(m0);
        assert(!m0.kv_pairs().contains((k, m[k])));
        assert(!m0.kv_pairs().contains((k, v)));
        assert(m.kv_pairs() =~= m0.kv_pairs().insert((k, m[k])));
        assert(m.insert(k, v).kv_pairs() =~= m0.kv_pairs().insert((k, v)));
        lemma_fold_insert(m0.kv_pairs(), 0int, f, (k, m[k]));
        lemma_fold_insert(m0.kv_pairs(), 0int, f, (k, v));
    } else {
        lemma_kv_pairs_finite(m);
        assert(!m.kv_pairs().contains((k, v)));
        assert(m.insert(k, v).kv_pairs() =~= m.kv_pairs().insert((k, v)));
        lemma_fold_insert(m.kv_pairs(), 0int, f, (k, v));
    }
}

} // verus!
