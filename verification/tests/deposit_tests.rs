use tx_ledger::amount::Amount;
use tx_ledger::commands::deposit_command::process_deposit_command;
use tx_ledger::domain_state::{DisputeState, TxKind};
use tx_ledger::errors::AppErrors;
use tx_ledger::identifiers::{ClientId, TxId};
use tx_ledger::state::AppState;
use tx_ledger::tx_command::DepositCommand;

fn cmd(client: ClientId, tx: TxId, amount: i64) -> DepositCommand {
    DepositCommand { client, tx, amount: Amount(amount) }
}

#[test]
fn deposit_happy_path_increases_available_and_records_tx() {
    // arrange
    let mut state = AppState::default();
    let c: ClientId = 1;
    let tx: TxId = 10;
    let amount = Amount(12_345);

    // act
    let res = process_deposit_command(&mut state, &DepositCommand { client: c, tx, amount });

    // assert
    assert!(res.is_ok());
    let acc = state.engine.acct_mut_if_exists(&c).expect("account created");
    assert_eq!(acc.available, amount);
    assert_eq!(acc.held, Amount::zero());
    assert!(!acc.locked);

    let rec = state.engine.txs.get(&tx).expect("tx recorded");
    assert_eq!(rec.client, c);
    assert_eq!(rec.amount, amount);
    assert_eq!(rec.kind, TxKind::Deposit);
    assert_eq!(rec.state, DisputeState::Normal);
}

#[test]
fn deposit_ignored_if_duplicate_tx_id() {
    // arrange
    let mut state = AppState::default();
    let c: ClientId = 1;
    let tx: TxId = 42;

    let first = Amount(10_000);
    process_deposit_command(&mut state, &cmd(c, tx, first.0)).unwrap();

    // act
    let second = Amount(5_000);
    process_deposit_command(&mut state, &cmd(c, tx, second.0)).unwrap();

    // assert
    let acc = state.engine.acct_mut_if_exists(&c).unwrap();
    assert_eq!(acc.available, first);

    let rec = state.engine.txs.get(&tx).unwrap();
    assert_eq!(rec.amount, first);
}

#[test]
fn deposit_ignored_if_account_locked() {
    // arrange
    let mut state = AppState::default();
    let c: ClientId = 7;

    {
        let mut acc = state.engine.acct_mut(c);
        acc.locked = true;
        state.engine.set_acct(c, acc);
    }

    let tx: TxId = 2;
    let amount = Amount(20_000); // 2.0000

    // act
    process_deposit_command(&mut state, &DepositCommand { client: c, tx, amount }).unwrap();

    // assert
    let acc = state.engine.acct_mut_if_exists(&c).unwrap();
    assert_eq!(acc.available, Amount::zero());
    assert_eq!(acc.held, Amount::zero());
    assert!(acc.locked);

    assert!(!state.engine.txs.contains_key(&tx));
}

#[test]
fn deposit_fails_with_overflow() {
    // arrange
    let mut state = AppState::default();
    let c: ClientId = 9;
    let tx: TxId = 100;

    // Set available near i64::MAX and try to add a positive amount to trigger checked_add overflow
    {
        let mut acc = state.engine.acct_mut(c);
        acc.available = Amount(i64::MAX - 1);
        state.engine.set_acct(c, acc);
    }
    let amount = Amount(10);

    // act
    let res = process_deposit_command(&mut state, &DepositCommand { client: c, tx, amount });

    // assert
    assert!(matches!(res, Err(AppErrors::Overflow)));
    assert!(!state.engine.txs.contains_key(&tx));
}
