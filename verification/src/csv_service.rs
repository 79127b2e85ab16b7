use vstd::prelude::*;

use crate::amount::{spec_parse_4dp, Amount};
use crate::commands::dispatch::{apply_command, spec_apply};
use crate::csv_models::{CsvTxType, InputRow};
use crate::errors::{AppErrors, AppResult};
use crate::state::AppState;
use crate::tx_command::{
    ChargebackCommand, DepositCommand, DisputeCommand, ResolveCommand, TxCommand,
    WithdrawalCommand,
};

verus! {

/// The command an input row denotes, or the error that makes the row
/// malformed: a deposit or withdrawal without an amount, or with one
/// that does not parse, is rejected; the other kinds ignore the amount
/// column.
pub open spec fn spec_row_to_command(row: InputRow) -> Result<TxCommand, AppErrors> {
    match row.t {
        CsvTxType::Deposit => match row.amount {
            Some(s) => match spec_parse_4dp(s@) {
                Ok(v) => Ok(
                    TxCommand::Deposit(
                        DepositCommand { client: row.client, tx: row.tx, amount: Amount(v) },
                    ),
                ),
                Err(_) => Err(AppErrors::InvalidInput("bad amount")),
            },
            None => Err(AppErrors::InvalidInput("deposit missing amount")),
        },
        CsvTxType::Withdrawal => match row.amount {
            Some(s) => match spec_parse_4dp(s@) {
                Ok(v) => Ok(
                    TxCommand::Withdrawal(
                        WithdrawalCommand { client: row.client, tx: row.tx, amount: Amount(v) },
                    ),
                ),
                Err(_) => Err(AppErrors::InvalidInput("bad amount")),
            },
            None => Err(AppErrors::InvalidInput("withdrawal missing amount")),
        },
        CsvTxType::Dispute => Ok(
            TxCommand::Dispute(DisputeCommand { client: row.client, tx: row.tx }),
        ),
        CsvTxType::Resolve => Ok(
            TxCommand::Resolve(ResolveCommand { client: row.client, tx: row.tx }),
        ),
        CsvTxType::Chargeback => Ok(
            TxCommand::Chargeback(ChargebackCommand { client: row.client, tx: row.tx }),
        ),
    }
}

/// Turns one input row into a typed command, or the error that makes
/// the row malformed, exactly as [`spec_row_to_command`] says.
pub fn row_to_command(row: InputRow) -> (r: AppResult<TxCommand>)
    ensures
        r == spec_row_to_command(row),
{
    match row.t {
        CsvTxType::Deposit => match row.amount {
            Some(s) => match Amount::parse_4dp(s.as_str()) {
                Ok(amount) => Ok(
                    TxCommand::Deposit(DepositCommand { client: row.client, tx: row.tx, amount }),
                ),
                Err(_) => Err(AppErrors::InvalidInput("bad amount")),
            },
            None => Err(AppErrors::InvalidInput("deposit missing amount")),
        },
        CsvTxType::Withdrawal => match row.amount {
            Some(s) => match Amount::parse_4dp(s.as_str()) {
                Ok(amount) => Ok(
                    TxCommand::Withdrawal(
                        WithdrawalCommand { client: row.client, tx: row.tx, amount },
                    ),
                ),
                Err(_) => Err(AppErrors::InvalidInput("bad amount")),
            },
            None => Err(AppErrors::InvalidInput("withdrawal missing amount")),
        },
        CsvTxType::Dispute => Ok(
            TxCommand::Dispute(DisputeCommand { client: row.client, tx: row.tx }),
        ),
        CsvTxType::Resolve => Ok(
            TxCommand::Resolve(ResolveCommand { client: row.client, tx: row.tx }),
        ),
        CsvTxType::Chargeback => Ok(
            TxCommand::Chargeback(ChargebackCommand { client: row.client, tx: row.tx }),
        ),
    }
}

/// Processes one input row against the state: converts it to a command
/// and applies it. A malformed row leaves the state untouched and
/// returns the row's error; an applied command transforms the state
/// exactly as its transition function says, returning the overflow
/// error when the command fails hard.
pub fn process_row(app_state: &mut AppState, row: InputRow) -> (r: AppResult<()>)
    ensures
        match spec_row_to_command(row) {
            Ok(cmd) => {
                &&& final(app_state)@ == spec_apply(old(app_state)@, cmd).0
                &&& (r is Err <==> spec_apply(old(app_state)@, cmd).1)
                &&& (r is Err ==> r matches Err(AppErrors::Overflow))
            },
            Err(e) => {
                &&& final(app_state)@ == old(app_state)@
                &&& r matches Err(e2) && e2 == e
            },
        },
{
    match row_to_command(row) {
        Ok(cmd) => apply_command(app_state, &cmd),
        Err(e) => Err(e),
    }
}

} // verus!
