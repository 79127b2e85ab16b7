use tx_ledger::amount::Amount;
use tx_ledger::commands::chargeback_command::process_chargeback_command;
use tx_ledger::domain_state::{DisputeState, TxKind, TxRecord};
use tx_ledger::identifiers::{ClientId, TxId};
use tx_ledger::state::AppState;
use tx_ledger::tx_command::ChargebackCommand;

fn disputed_deposit_record(client: ClientId, amount: Amount) -> TxRecord {
    TxRecord { client, kind: TxKind::Deposit, amount, state: DisputeState::Disputed }
}

#[test]
fn chargeback_happy_path_locks_and_reduces_held() {
    // arrange
    let mut state = AppState::default();
    let c: ClientId = 2;
    let tx: TxId = 200;
    let amt = Amount(20_000); // 2.0000

    state.engine.txs.insert(tx, disputed_deposit_record(c, amt));
    {
        let mut acc = state.engine.acct_mut(c);
        acc.available = Amount::zero();
        acc.held = amt;
        acc.locked = false;
        state.engine.set_acct(c, acc);
    }

    // act
    let res = process_chargeback_command(&mut state, &ChargebackCommand { client: c, tx });

    // assert
    assert!(res.is_ok());
    let acc = state.engine.acct(c).expect("account exists");
    assert_eq!(acc.available, Amount::zero());
    assert_eq!(acc.held, Amount::zero());
    assert!(acc.locked, "account should be locked after chargeback");

    let rec = state.engine.txs.get(&tx).expect("tx exists");
    assert_eq!(rec.state, DisputeState::ChargedBack);
}

#[test]
fn chargeback_ignored_if_tx_missing() {
    let mut state = AppState::default();
    let c: ClientId = 3;
    let tx: TxId = 300;

    // act
    let res = process_chargeback_command(&mut state, &ChargebackCommand { client: c, tx });

    // assert
    assert!(res.is_ok());
    assert!(!state.engine.txs.contains_key(&tx));
    assert!(state.engine.acct(c).is_none());
}

#[test]
fn chargeback_ignored_if_wrong_client_or_not_disputed() {
    let mut state = AppState::default();
    let c: ClientId = 4;
    let other: ClientId = 5;
    let tx: TxId = 400;
    let amt = Amount(10_000);

    // Not disputed yet
    state.engine.txs.insert(
        tx,
        TxRecord { client: other, kind: TxKind::Deposit, amount: amt, state: DisputeState::Normal },
    );
    {
        let mut acc = state.engine.acct_mut(other);
        acc.held = Amount::zero();
        acc.available = amt;
        state.engine.set_acct(other, acc);
    }

    // act (client mismatch and not disputed)
    let res = process_chargeback_command(&mut state, &ChargebackCommand { client: c, tx });

    // assert
    assert!(res.is_ok()); // ignored
    let rec = state.engine.txs.get(&tx).unwrap();
    assert_eq!(rec.state, DisputeState::Normal);
    let acc_other = state.engine.acct(other).unwrap();
    assert_eq!(acc_other.available, amt);
    assert_eq!(acc_other.held, Amount::zero());
    assert!(!acc_other.locked);
}
