use tx_ledger::amount::Amount;
use tx_ledger::commands::deposit_command::process_deposit_command;
use tx_ledger::commands::dispatch::apply_commands;
use tx_ledger::commands::dispute_command::process_dispute_command;
use tx_ledger::commands::resolve_command::process_resolve_command;
use tx_ledger::commands::tx_command_trait::TxCommandTrait;
use tx_ledger::csv_models::{CsvTxType, InputRow, OutputRow};
use tx_ledger::csv_service::{process_row, row_to_command};
use tx_ledger::domain_state::DisputeState;
use tx_ledger::errors::AppErrors;
use tx_ledger::identifiers::ClientId;
use tx_ledger::state::AppState;
use tx_ledger::tx_command::{
    ChargebackCommand, DepositCommand, DisputeCommand, TxCommand, WithdrawalCommand,
};

fn row(t: CsvTxType, client: u16, tx: u32, amount: Option<&str>) -> InputRow {
    InputRow { t, client, tx, amount: amount.map(|s| s.to_string()) }
}

#[test]
fn duplicate_deposit_is_idempotent() {
    let cmd = DepositCommand { client: 1, tx: 1, amount: Amount(100_000) };

    let mut once = AppState::default();
    process_deposit_command(&mut once, &cmd).unwrap();

    let mut twice = AppState::default();
    process_deposit_command(&mut twice, &cmd).unwrap();
    process_deposit_command(&mut twice, &cmd).unwrap();

    assert_eq!(once.engine.acct(1), twice.engine.acct(1));
    assert_eq!(once.engine.txs.get(&1), twice.engine.txs.get(&1));
    assert_eq!(once.engine.acct(1).unwrap().available, Amount(100_000));
}

#[test]
fn dispute_then_resolve_restores_pre_dispute_state() {
    let mut state = AppState::default();
    let c: ClientId = 1;

    process_deposit_command(
        &mut state,
        &DepositCommand { client: c, tx: 100, amount: Amount::parse_4dp("5.0000").unwrap() },
    )
    .unwrap();
    process_dispute_command(&mut state, &DisputeCommand { client: c, tx: 100 }).unwrap();

    let mid = *state.engine.acct(c).unwrap();
    assert_eq!(mid.available, Amount(0));
    assert_eq!(mid.held, Amount(50_000));

    process_resolve_command(&mut state, &tx_ledger::tx_command::ResolveCommand {
        client: c,
        tx: 100,
    })
    .unwrap();

    let acc = state.engine.acct(c).unwrap();
    assert_eq!(acc.available, Amount(50_000));
    assert_eq!(acc.held, Amount(0));
    assert!(!acc.locked);
    assert_eq!(state.engine.txs.get(&100).unwrap().state, DisputeState::Normal);
}

#[test]
fn chargeback_is_terminal_for_the_transaction() {
    let mut state = AppState::default();
    let c: ClientId = 1;

    process_deposit_command(&mut state, &DepositCommand {
        client: c,
        tx: 100,
        amount: Amount(30_000),
    })
    .unwrap();
    process_dispute_command(&mut state, &DisputeCommand { client: c, tx: 100 }).unwrap();
    ChargebackCommand { client: c, tx: 100 }.execute(&mut state).unwrap();

    let after = *state.engine.acct(c).unwrap();
    assert!(after.locked);
    assert_eq!(after.held, Amount(0));
    assert_eq!(state.engine.txs.get(&100).unwrap().state, DisputeState::ChargedBack);

    // A later resolve or dispute of the same transaction is a no-op.
    process_resolve_command(&mut state, &tx_ledger::tx_command::ResolveCommand {
        client: c,
        tx: 100,
    })
    .unwrap();
    process_dispute_command(&mut state, &DisputeCommand { client: c, tx: 100 }).unwrap();

    let acc = state.engine.acct(c).unwrap();
    assert_eq!(*acc, after, "state unchanged after resolve/dispute on charged-back tx");
    assert!(acc.locked, "account stays locked");
    assert_eq!(state.engine.txs.get(&100).unwrap().state, DisputeState::ChargedBack);
}

#[test]
fn locked_account_still_allows_dispute_resolve_chargeback() {
    // The lock gates only deposits and withdrawals: disputes, resolves
    // and chargebacks on pre-existing transactions remain possible.
    let mut state = AppState::default();
    let c: ClientId = 1;

    process_deposit_command(&mut state, &DepositCommand { client: c, tx: 1, amount: Amount(100) })
        .unwrap();
    process_deposit_command(&mut state, &DepositCommand { client: c, tx: 2, amount: Amount(200) })
        .unwrap();
    process_dispute_command(&mut state, &DisputeCommand { client: c, tx: 1 }).unwrap();
    ChargebackCommand { client: c, tx: 1 }.execute(&mut state).unwrap();
    assert!(state.engine.acct(c).unwrap().locked);

    // Dispute of the second deposit still takes effect on the locked account.
    process_dispute_command(&mut state, &DisputeCommand { client: c, tx: 2 }).unwrap();
    assert_eq!(state.engine.txs.get(&2).unwrap().state, DisputeState::Disputed);
    assert_eq!(state.engine.acct(c).unwrap().held, Amount(200));

    // And so does its resolve.
    process_resolve_command(&mut state, &tx_ledger::tx_command::ResolveCommand {
        client: c,
        tx: 2,
    })
    .unwrap();
    assert_eq!(state.engine.txs.get(&2).unwrap().state, DisputeState::Normal);
    let acc = state.engine.acct(c).unwrap();
    assert_eq!(acc.available, Amount(200));
    assert_eq!(acc.held, Amount(0));
    assert!(acc.locked, "the lock is a one-way latch");
}

#[test]
fn totals_match_applied_deposits_minus_withdrawals() {
    // A mixed run: the sum of available+held over all accounts equals
    // the applied deposits minus the applied withdrawals, disputes and
    // resolves moving funds without changing any total.
    let mut state = AppState::default();

    process_row(&mut state, row(CsvTxType::Deposit, 1, 1, Some("10.0"))).unwrap();
    process_row(&mut state, row(CsvTxType::Deposit, 2, 2, Some("4.0"))).unwrap();
    process_row(&mut state, row(CsvTxType::Withdrawal, 1, 3, Some("2.5"))).unwrap();
    process_row(&mut state, row(CsvTxType::Dispute, 2, 2, None)).unwrap();
    process_row(&mut state, row(CsvTxType::Resolve, 2, 2, None)).unwrap();
    process_row(&mut state, row(CsvTxType::Dispute, 2, 2, None)).unwrap();
    // Ignored: insufficient funds, so not an applied withdrawal.
    process_row(&mut state, row(CsvTxType::Withdrawal, 1, 4, Some("100.0"))).unwrap();

    let mut sum: i64 = 0;
    for (_, acc) in state.engine.accounts_iter() {
        sum += acc.available.0 + acc.held.0;
    }
    // 10.0 + 4.0 - 2.5 = 11.5
    assert_eq!(sum, 115_000);
}

#[test]
fn chargeback_removes_funds_from_the_total() {
    let mut state = AppState::default();

    process_row(&mut state, row(CsvTxType::Deposit, 1, 1, Some("3.0"))).unwrap();
    process_row(&mut state, row(CsvTxType::Dispute, 1, 1, None)).unwrap();
    process_row(&mut state, row(CsvTxType::Chargeback, 1, 1, None)).unwrap();

    let mut sum: i64 = 0;
    for (_, acc) in state.engine.accounts_iter() {
        sum += acc.available.0 + acc.held.0;
    }
    assert_eq!(sum, 0, "charged-back funds leave the ledger");
}

#[test]
fn end_to_end_scenario_produces_expected_balances() {
    let mut state = AppState::default();
    let rows = vec![
        row(CsvTxType::Deposit, 1, 1, Some("1.0")),
        row(CsvTxType::Deposit, 2, 2, Some("2.0")),
        row(CsvTxType::Deposit, 1, 3, Some("2.0")),
        row(CsvTxType::Withdrawal, 1, 4, Some("1.5")),
        row(CsvTxType::Withdrawal, 2, 5, Some("3.0")),
    ];
    for r in rows {
        process_row(&mut state, r).unwrap();
    }

    let one = state.engine.acct(1).unwrap();
    assert_eq!(one.available, Amount(15_000));
    assert_eq!(one.held, Amount(0));
    assert!(!one.locked);

    let two = state.engine.acct(2).unwrap();
    assert_eq!(two.available, Amount(20_000), "withdrawal ignored, insufficient funds");
    assert_eq!(two.held, Amount(0));
    assert!(!two.locked);

    let out1 = OutputRow::from_account(1, one);
    assert_eq!(out1.available, "1.5000");
    assert_eq!(out1.held, "0.0000");
    assert_eq!(out1.total, "1.5000");
    assert!(!out1.locked);

    let out2 = OutputRow::from_account(2, two);
    assert_eq!(out2.available, "2.0000");
    assert_eq!(out2.total, "2.0000");

    let snapshot = state.engine.accounts_iter();
    assert_eq!(snapshot.len(), 2);
}

#[test]
fn apply_commands_counts_failures_and_keeps_going() {
    let mut state = AppState::default();
    let cmds = vec![
        TxCommand::Deposit(DepositCommand { client: 1, tx: 1, amount: Amount(i64::MAX) }),
        // Fails hard: the credited balance would leave the 64-bit range.
        TxCommand::Deposit(DepositCommand { client: 1, tx: 2, amount: Amount(10) }),
        // Still applied: one command's failure never blocks the next.
        TxCommand::Withdrawal(WithdrawalCommand { client: 1, tx: 3, amount: Amount(7) }),
    ];
    let failed = apply_commands(&mut state, &cmds);
    assert_eq!(failed, 1);
    let acc = state.engine.acct(1).unwrap();
    assert_eq!(acc.available, Amount(i64::MAX - 7));
    assert!(state.engine.txs.contains_key(&3));
    assert!(!state.engine.txs.contains_key(&2));
}

#[test]
fn row_without_required_amount_is_rejected() {
    let res = row_to_command(row(CsvTxType::Deposit, 1, 1, None));
    assert!(matches!(res, Err(AppErrors::InvalidInput("deposit missing amount"))));

    let res = row_to_command(row(CsvTxType::Withdrawal, 1, 1, None));
    assert!(matches!(res, Err(AppErrors::InvalidInput("withdrawal missing amount"))));

    let res = row_to_command(row(CsvTxType::Deposit, 1, 1, Some("not-a-number")));
    assert!(matches!(res, Err(AppErrors::InvalidInput("bad amount"))));
}

#[test]
fn rejected_row_leaves_state_untouched() {
    let mut state = AppState::default();
    let res = process_row(&mut state, row(CsvTxType::Deposit, 1, 1, Some("oops")));
    assert!(res.is_err());
    assert!(state.engine.acct(1).is_none());
    assert!(state.engine.txs.is_empty());
}

#[test]
fn dispute_and_resolve_rows_ignore_the_amount_column() {
    let mut state = AppState::default();
    process_row(&mut state, row(CsvTxType::Deposit, 1, 1, Some("2.0"))).unwrap();
    // An amount on a dispute row is ignored rather than parsed.
    process_row(&mut state, row(CsvTxType::Dispute, 1, 1, Some("garbage"))).unwrap();
    let acc = state.engine.acct(1).unwrap();
    assert_eq!(acc.held, Amount(20_000));

    let cmd = row_to_command(row(CsvTxType::Resolve, 9, 7, Some("garbage"))).unwrap();
    assert!(matches!(cmd, TxCommand::Resolve(r) if r.client == 9 && r.tx == 7));
}
