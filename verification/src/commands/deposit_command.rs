use vstd::prelude::*;

use crate::amount::Amount;
use crate::domain_state::{Account, DisputeState, TxKind, TxRecord};
use crate::errors::{AppErrors, AppResult};
use crate::identifiers::{ClientId, TxId};
use crate::state::{account_of, model_with_account, AppState, EngineModel};
use crate::tx_command::DepositCommand;

verus! {

/// Whether a deposit takes effect on model `m`: the transaction id is
/// new, the account is not locked, and the credited balance stays
/// inside the 64-bit range.
pub open spec fn deposit_applies(m: EngineModel, c: ClientId, tx: TxId, amount: Amount) -> bool {
    &&& !m.txs.contains_key(tx)
    &&& !account_of(m, c).locked
    &&& i64::MIN <= account_of(m, c).available.0 + amount.0 <= i64::MAX
}

/// The deposit transition on the engine model.
///
/// Returns the model after the command and whether the command fails
/// hard with an overflow. A deposit is a silent no-op when the
/// transaction id is already recorded or the account is locked;
/// otherwise it credits `available` and records the transaction. The
/// account is created by the access itself, so it exists afterwards
/// even on the no-op and overflow paths that run after the duplicate
/// check.
pub open spec fn spec_deposit(m: EngineModel, c: ClientId, tx: TxId, amount: Amount) -> (
    EngineModel,
    bool,
) {
    if m.txs.contains_key(tx) {
        (m, false)
    } else {
        let m1 = model_with_account(m, c);
        let acc = account_of(m, c);
        if acc.locked {
            (m1, false)
        } else {
            let s = acc.available.0 + amount.0;
            if i64::MIN <= s <= i64::MAX {
                let credited = Account {
                    available: Amount(s as i64),
                    held: acc.held,
                    locked: acc.locked,
                };
                let rec = TxRecord {
                    client: c,
                    kind: TxKind::Deposit,
                    amount,
                    state: DisputeState::Normal,
                };
                (
                    EngineModel {
                        accounts: m1.accounts.insert(c, credited),
                        txs: m1.txs.insert(tx, rec),
                    },
                    false,
                )
            } else {
                (m1, true)
            }
        }
    }
}

/// Applies a deposit: credits the client's available funds and records
/// the transaction, unless the transaction id is a duplicate or the
/// account is locked (silent no-ops). Fails hard only when the credited
/// balance leaves the 64-bit range, leaving balances untouched.
pub fn process_deposit_command(app_state: &mut AppState, cmd: &DepositCommand) -> (r: AppResult<
    (),
>)
    ensures
        final(app_state)@ == spec_deposit(old(app_state)@, cmd.client, cmd.tx, cmd.amount).0,
        r is Err <==> spec_deposit(old(app_state)@, cmd.client, cmd.tx, cmd.amount).1,
        r is Err ==> r matches Err(AppErrors::Overflow),
{
    let client = cmd.client;
    let tx = cmd.tx;

    if app_state.engine.tx_contains(tx) {
        return Ok(());
    }

    let mut acc = app_state.engine.acct_mut(client);
    if acc.locked {
        return Ok(());
    }

    let amount = cmd.amount;
    match acc.available.checked_add(amount) {
        Some(credited) => {
            acc.available = credited;
            app_state.engine.set_acct(client, acc);
            app_state.engine.tx_insert(
                tx,
                TxRecord { client, kind: TxKind::Deposit, amount, state: DisputeState::Normal },
            );
            Ok(())
        },
        None => Err(AppErrors::Overflow),
    }
}

/// Applying the same deposit twice leaves the state exactly as applying
/// it once: the first application either records the transaction id or
/// leaves the state in a position where the second run takes the same
/// silent or failing path without changing anything.
pub proof fn lemma_deposit_idempotent(m: EngineModel, c: ClientId, tx: TxId, amount: Amount)
    ensures
        spec_deposit(spec_deposit(m, c, tx, amount).0, c, tx, amount).0 == spec_deposit(
            m,
            c,
            tx,
            amount,
        ).0,
{
}

/// Once an account is locked, a later deposit for that client is a
/// silent no-op: the state is unchanged and the transaction is not
/// recorded.
pub proof fn lemma_deposit_locked_no_op(m: EngineModel, c: ClientId, tx: TxId, amount: Amount)
    requires
        m.accounts.contains_key(c),
        m.accounts[c].locked,
    ensures
        spec_deposit(m, c, tx, amount).0 == m,
        !spec_deposit(m, c, tx, amount).1,
{
}

} // verus!
