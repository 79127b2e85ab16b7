use vstd::prelude::*;

use crate::amount::Amount;
use crate::domain_state::{Account, DisputeState, TxKind, TxRecord};
use crate::errors::{AppErrors, AppResult};
use crate::identifiers::{ClientId, TxId};
use crate::state::{account_of, model_with_account, AppState, EngineModel};
use crate::tx_command::DisputeCommand;

verus! {

/// Whether a dispute of `tx` by client `c` is eligible to take effect
/// on model `m`: the record exists, belongs to `c`, is a deposit in the
/// `Normal` state, and the client's available funds cover it.
pub open spec fn dispute_eligible(m: EngineModel, c: ClientId, tx: TxId) -> bool {
    &&& m.txs.contains_key(tx)
    &&& m.txs[tx].client == c
    &&& m.txs[tx].kind == TxKind::Deposit
    &&& m.txs[tx].state == DisputeState::Normal
    &&& account_of(m, c).available.0 >= m.txs[tx].amount.0
}

/// Whether an eligible dispute also stays inside the 64-bit range on
/// both balance moves, so that it takes effect rather than failing.
pub open spec fn dispute_applies(m: EngineModel, c: ClientId, tx: TxId) -> bool {
    &&& dispute_eligible(m, c, tx)
    &&& i64::MIN <= account_of(m, c).available.0 - m.txs[tx].amount.0 <= i64::MAX
    &&& i64::MIN <= account_of(m, c).held.0 + m.txs[tx].amount.0 <= i64::MAX
}

/// The dispute transition on the engine model.
///
/// Returns the model after the command and whether the command fails
/// hard with an overflow. A dispute is a silent no-op unless the record
/// exists, belongs to the client, is a deposit in the `Normal` state,
/// and the available funds cover its amount; then the amount moves from
/// `available` to `held` and the record becomes `Disputed`. The account
/// is created by the access itself once the record checks pass.
pub open spec fn spec_dispute(m: EngineModel, c: ClientId, tx: TxId) -> (EngineModel, bool) {
    if !m.txs.contains_key(tx) || m.txs[tx].client != c || m.txs[tx].kind != TxKind::Deposit
        || m.txs[tx].state != DisputeState::Normal {
        (m, false)
    } else {
        let amount = m.txs[tx].amount;
        let m1 = model_with_account(m, c);
        let acc = account_of(m, c);
        if acc.available.0 < amount.0 {
            (m1, false)
        } else {
            let d = acc.available.0 - amount.0;
            let h = acc.held.0 + amount.0;
            if i64::MIN <= d <= i64::MAX && i64::MIN <= h <= i64::MAX {
                let moved = Account {
                    available: Amount(d as i64),
                    held: Amount(h as i64),
                    locked: acc.locked,
                };
                let rec = TxRecord { state: DisputeState::Disputed, ..m.txs[tx] };
                (
                    EngineModel {
                        accounts: m1.accounts.insert(c, moved),
                        txs: m1.txs.insert(tx, rec),
                    },
                    false,
                )
            } else {
                (m1, true)
            }
        }
    }
}

/// Applies a dispute: moves the recorded amount from the client's
/// available funds to held funds and marks the record `Disputed`,
/// unless the record is missing, owned by another client, not a
/// deposit, not in the `Normal` state, or not covered by the available
/// funds (silent no-ops). Fails hard only when a balance would leave
/// the 64-bit range, leaving balances and the record untouched.
pub fn process_dispute_command(app_state: &mut AppState, cmd: &DisputeCommand) -> (r: AppResult<
    (),
>)
    ensures
        final(app_state)@ == spec_dispute(old(app_state)@, cmd.client, cmd.tx).0,
        r is Err <==> spec_dispute(old(app_state)@, cmd.client, cmd.tx).1,
        r is Err ==> r matches Err(AppErrors::Overflow),
{
    let client = cmd.client;
    let tx = cmd.tx;

    let rec = match app_state.engine.tx_get(tx) {
        Some(rec) => *rec,
        None => {
            return Ok(());
        },
    };
    if rec.client != client {
        return Ok(());
    }
    if !matches!(rec.kind, TxKind::Deposit) {
        return Ok(());
    }
    if !matches!(rec.state, DisputeState::Normal) {
        return Ok(());
    }

    let amount = rec.amount;
    let mut acc = app_state.engine.acct_mut(client);
    if acc.available.0 < amount.0 {
        return Ok(());
    }

    match (acc.available.checked_sub(amount), acc.held.checked_add(amount)) {
        (Some(debited), Some(held)) => {
            acc.available = debited;
            acc.held = held;
            app_state.engine.set_acct(client, acc);
            app_state.engine.tx_insert(tx, TxRecord { state: DisputeState::Disputed, ..rec });
            Ok(())
        },
        _ => Err(AppErrors::Overflow),
    }
}

/// A dispute moves funds between `available` and `held` without
/// changing the client's total, and leaves every other account
/// untouched.
pub proof fn lemma_dispute_preserves_total(m: EngineModel, c: ClientId, tx: TxId)
    requires
        dispute_applies(m, c, tx),
    ensures
        account_of(spec_dispute(m, c, tx).0, c).spec_total() == account_of(m, c).spec_total(),
        forall|c2: ClientId|
            c2 != c ==> account_of(#[trigger] spec_dispute(m, c, tx).0, c2) == account_of(m, c2),
{
}

} // verus!
