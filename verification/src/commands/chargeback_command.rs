use vstd::prelude::*;

use crate::amount::Amount;
use crate::domain_state::{Account, DisputeState, TxRecord};
use crate::errors::{AppErrors, AppResult};
use crate::identifiers::{ClientId, TxId};
use crate::state::{account_of, model_with_account, AppState, EngineModel};
use crate::tx_command::ChargebackCommand;

use crate::commands::dispute_command::spec_dispute;
use crate::commands::resolve_command::spec_resolve;

verus! {

/// Whether a chargeback of `tx` by client `c` takes effect on model
/// `m`: the record exists, belongs to `c`, is in the `Disputed` state,
/// and removing its amount from the held funds stays inside the 64-bit
/// range.
pub open spec fn chargeback_applies(m: EngineModel, c: ClientId, tx: TxId) -> bool {
    &&& m.txs.contains_key(tx)
    &&& m.txs[tx].client == c
    &&& m.txs[tx].state == DisputeState::Disputed
    &&& i64::MIN <= account_of(m, c).held.0 - m.txs[tx].amount.0 <= i64::MAX
}

/// The chargeback transition on the engine model.
///
/// Returns the model after the command and whether the command fails
/// hard with an overflow. A chargeback is a silent no-op unless the
/// record exists, belongs to the client and is in the `Disputed`
/// state; then the recorded amount leaves `held` for good, the account
/// is locked, and the record becomes `ChargedBack`, which is terminal.
/// The account is created by the access itself once the record checks
/// pass.
pub open spec fn spec_chargeback(m: EngineModel, c: ClientId, tx: TxId) -> (EngineModel, bool) {
    if !m.txs.contains_key(tx) || m.txs[tx].client != c || m.txs[tx].state
        != DisputeState::Disputed {
        (m, false)
    } else {
        let amount = m.txs[tx].amount;
        let m1 = model_with_account(m, c);
        let acc = account_of(m, c);
        let h = acc.held.0 - amount.0;
        if i64::MIN <= h <= i64::MAX {
            let removed = Account { available: acc.available, held: Amount(h as i64), locked: true };
            let rec = TxRecord { state: DisputeState::ChargedBack, ..m.txs[tx] };
            (
                EngineModel { accounts: m1.accounts.insert(c, removed), txs: m1.txs.insert(tx, rec) },
                false,
            )
        } else {
            (m1, true)
        }
    }
}

/// Applies a chargeback: removes the recorded amount from the client's
/// held funds for good, locks the account, and marks the record
/// `ChargedBack`, unless the record is missing, owned by another
/// client, or not in the `Disputed` state (silent no-ops). Fails hard
/// only when the held balance would leave the 64-bit range, leaving
/// balances and the record untouched.
pub fn process_chargeback_command(app_state: &mut AppState, cmd: &ChargebackCommand) -> (r:
    AppResult<()>)
    ensures
        final(app_state)@ == spec_chargeback(old(app_state)@, cmd.client, cmd.tx).0,
        r is Err <==> spec_chargeback(old(app_state)@, cmd.client, cmd.tx).1,
        r is Err ==> r matches Err(AppErrors::Overflow),
{
    let client = cmd.client;
    let tx = cmd.tx;

    let rec = match app_state.engine.tx_get(tx) {
        Some(rec) => *rec,
        None => {
            return Ok(());
        },
    };
    if rec.client != client {
        return Ok(());
    }
    if !matches!(rec.state, DisputeState::Disputed) {
        return Ok(());
    }

    let amount = rec.amount;
    let acc = app_state.engine.acct_mut(client);
    match acc.held.checked_sub(amount) {
        Some(held) => {
            let removed = Account { available: acc.available, held, locked: true };
            app_state.engine.set_acct(client, removed);
            app_state.engine.tx_insert(tx, TxRecord { state: DisputeState::ChargedBack, ..rec });
            Ok(())
        },
        None => Err(AppErrors::Overflow),
    }
}

/// A chargeback is terminal: once it has taken effect, any later
/// dispute or resolve of the same transaction, by any client, is a
/// silent no-op, and the account of the charged-back client stays
/// locked.
pub proof fn lemma_chargeback_terminal(m: EngineModel, c: ClientId, tx: TxId, c2: ClientId)
    requires
        chargeback_applies(m, c, tx),
    ensures
        ({
            let m2 = spec_chargeback(m, c, tx).0;
            &&& spec_dispute(m2, c2, tx).0 == m2
            &&& !spec_dispute(m2, c2, tx).1
            &&& spec_resolve(m2, c2, tx).0 == m2
            &&& !spec_resolve(m2, c2, tx).1
            &&& account_of(m2, c).locked
        }),
{
}

/// A chargeback removes exactly the recorded amount from the client's
/// total, and leaves every other account untouched.
pub proof fn lemma_chargeback_removes_total(m: EngineModel, c: ClientId, tx: TxId)
    requires
        chargeback_applies(m, c, tx),
    ensures
        account_of(spec_chargeback(m, c, tx).0, c).spec_total() == account_of(m, c).spec_total()
            - m.txs[tx].amount.0,
        forall|c2: ClientId|
            c2 != c ==> account_of(#[trigger] spec_chargeback(m, c, tx).0, c2) == account_of(
                m,
                c2,
            ),
{
}

} // verus!
