use std::collections::HashSet;

use tx_ledger::amount::Amount;
use tx_ledger::domain_state::{Account, DisputeState, TxKind, TxRecord};
use tx_ledger::identifiers::ClientId;
use tx_ledger::state::AppState;

#[test]
fn acct_mut_creates_a_fresh_unlocked_account() {
    let mut state = AppState::default();
    assert!(state.engine.acct(5).is_none());

    let acc = state.engine.acct_mut(5);
    assert_eq!(acc.available, Amount(0));
    assert_eq!(acc.held, Amount(0));
    assert!(!acc.locked);

    // The account now exists in the map.
    assert!(state.engine.acct(5).is_some());
}

#[test]
fn acct_mut_returns_the_existing_account() {
    let mut state = AppState::default();
    let mut acc = state.engine.acct_mut(5);
    acc.available = Amount(42);
    state.engine.set_acct(5, acc);

    let again = state.engine.acct_mut(5);
    assert_eq!(again.available, Amount(42));
}

#[test]
fn acct_mut_if_exists_never_creates() {
    let mut state = AppState::default();
    assert!(state.engine.acct_mut_if_exists(&9).is_none());
    assert!(state.engine.acct(9).is_none());
}

#[test]
fn set_acct_replaces_the_stored_account() {
    let mut state = AppState::default();
    state.engine.set_acct(1, Account { available: Amount(7), held: Amount(3), locked: true });
    let acc = state.engine.acct(1).unwrap();
    assert_eq!(acc.available, Amount(7));
    assert_eq!(acc.held, Amount(3));
    assert!(acc.locked);
}

#[test]
fn tx_records_round_trip_through_the_store() {
    let mut state = AppState::default();
    assert!(!state.engine.tx_contains(10));
    let rec = TxRecord {
        client: 1,
        kind: TxKind::Deposit,
        amount: Amount(5),
        state: DisputeState::Normal,
    };
    state.engine.tx_insert(10, rec);
    assert!(state.engine.tx_contains(10));
    assert_eq!(*state.engine.tx_get(10).unwrap(), rec);
    assert!(state.engine.tx_get(11).is_none());
}

#[test]
fn accounts_iter_lists_every_client_exactly_once() {
    let mut state = AppState::default();
    for c in [3u16, 1, 4, 1, 5] {
        let mut acc = state.engine.acct_mut(c);
        acc.available = Amount(c as i64);
        state.engine.set_acct(c, acc);
    }

    let snapshot = state.engine.accounts_iter();
    assert_eq!(snapshot.len(), 4);

    let mut seen: HashSet<ClientId> = HashSet::new();
    for (c, acc) in snapshot {
        assert!(seen.insert(c), "each client appears once");
        assert_eq!(acc.available, Amount(c as i64));
    }
    for c in [1u16, 3, 4, 5] {
        assert!(seen.contains(&c));
    }
}

#[test]
fn account_total_sums_available_and_held() {
    let acc = Account { available: Amount(15_000), held: Amount(5_000), locked: false };
    assert_eq!(acc.total(), Amount(20_000));
}
