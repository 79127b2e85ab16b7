use vstd::prelude::*;

use crate::amount::Amount;
use crate::domain_state::{Account, DisputeState, TxKind, TxRecord};
use crate::errors::{AppErrors, AppResult};
use crate::identifiers::{ClientId, TxId};
use crate::state::{account_of, model_with_account, AppState, EngineModel};
use crate::tx_command::WithdrawalCommand;

verus! {

/// Whether a withdrawal takes effect on model `m`: the transaction id
/// is new, the account is not locked, the available funds cover the
/// amount, and the debited balance stays inside the 64-bit range.
pub open spec fn withdrawal_applies(m: EngineModel, c: ClientId, tx: TxId, amount: Amount) -> bool {
    &&& !m.txs.contains_key(tx)
    &&& !account_of(m, c).locked
    &&& account_of(m, c).available.0 >= amount.0
    &&& i64::MIN <= account_of(m, c).available.0 - amount.0 <= i64::MAX
}

/// The withdrawal transition on the engine model.
///
/// Returns the model after the command and whether the command fails
/// hard with an overflow. A withdrawal is a silent no-op when the
/// transaction id is already recorded, the account is locked, or the
/// available funds are short; otherwise it debits `available` and
/// records the transaction. The account is created by the access
/// itself, so it exists afterwards even on the paths that run after
/// the duplicate check.
pub open spec fn spec_withdrawal(m: EngineModel, c: ClientId, tx: TxId, amount: Amount) -> (
    EngineModel,
    bool,
) {
    if m.txs.contains_key(tx) {
        (m, false)
    } else {
        let m1 = model_with_account(m, c);
        let acc = account_of(m, c);
        if acc.locked {
            (m1, false)
        } else if acc.available.0 < amount.0 {
            (m1, false)
        } else {
            let d = acc.available.0 - amount.0;
            if i64::MIN <= d <= i64::MAX {
                let debited = Account {
                    available: Amount(d as i64),
                    held: acc.held,
                    locked: acc.locked,
                };
                let rec = TxRecord {
                    client: c,
                    kind: TxKind::Withdrawal,
                    amount,
                    state: DisputeState::Normal,
                };
                (
                    EngineModel {
                        accounts: m1.accounts.insert(c, debited),
                        txs: m1.txs.insert(tx, rec),
                    },
                    false,
                )
            } else {
                (m1, true)
            }
        }
    }
}

/// Applies a withdrawal: debits the client's available funds and records
/// the transaction, unless the transaction id is a duplicate, the
/// account is locked, or the available funds are short (silent no-ops).
/// Fails hard only when the debited balance leaves the 64-bit range,
/// leaving balances untouched.
pub fn process_withdrawal_command(app_state: &mut AppState, cmd: &WithdrawalCommand) -> (r:
    AppResult<()>)
    ensures
        final(app_state)@ == spec_withdrawal(old(app_state)@, cmd.client, cmd.tx, cmd.amount).0,
        r is Err <==> spec_withdrawal(old(app_state)@, cmd.client, cmd.tx, cmd.amount).1,
        r is Err ==> r matches Err(AppErrors::Overflow),
{
    let client = cmd.client;
    let tx = cmd.tx;

    if app_state.engine.tx_contains(tx) {
        return Ok(());
    }

    let mut acc = app_state.engine.acct_mut(client);
    if acc.locked {
        return Ok(());
    }

    let amount = cmd.amount;
    if acc.available.0 < amount.0 {
        return Ok(());
    }

    match acc.available.checked_sub(amount) {
        Some(debited) => {
            acc.available = debited;
            app_state.engine.set_acct(client, acc);
            app_state.engine.tx_insert(
                tx,
                TxRecord { client, kind: TxKind::Withdrawal, amount, state: DisputeState::Normal },
            );
            Ok(())
        },
        None => Err(AppErrors::Overflow),
    }
}

/// Once an account is locked, a later withdrawal for that client is a
/// silent no-op: the state is unchanged and the transaction is not
/// recorded.
pub proof fn lemma_withdrawal_locked_no_op(m: EngineModel, c: ClientId, tx: TxId, amount: Amount)
    requires
        m.accounts.contains_key(c),
        m.accounts[c].locked,
    ensures
        spec_withdrawal(m, c, tx, amount).0 == m,
        !spec_withdrawal(m, c, tx, amount).1,
{
}

} // verus!
