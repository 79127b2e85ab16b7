use vstd::prelude::*;

use crate::amount::Amount;
use crate::domain_state::{Account, DisputeState, TxRecord};
use crate::errors::{AppErrors, AppResult};
use crate::identifiers::{ClientId, TxId};
use crate::state::{account_of, model_with_account, AppState, EngineModel};
use crate::tx_command::ResolveCommand;

use crate::commands::dispute_command::{dispute_applies, spec_dispute};

verus! {

/// The resolve transition on the engine model.
///
/// Returns the model after the command and whether the command fails
/// hard. A resolve is a silent no-op unless the record exists, belongs
/// to the client and is in the `Disputed` state; then the recorded
/// amount moves back from `held` to `available` and the record returns
/// to `Normal`. Held funds short of the recorded amount are a hard
/// error, as is a balance leaving the 64-bit range; the account is
/// created by the access itself once the record checks pass.
pub open spec fn spec_resolve(m: EngineModel, c: ClientId, tx: TxId) -> (EngineModel, bool) {
    if !m.txs.contains_key(tx) || m.txs[tx].client != c || m.txs[tx].state
        != DisputeState::Disputed {
        (m, false)
    } else {
        let amount = m.txs[tx].amount;
        let m1 = model_with_account(m, c);
        let acc = account_of(m, c);
        if acc.held.0 < amount.0 {
            (m1, true)
        } else {
            let h = acc.held.0 - amount.0;
            let a = acc.available.0 + amount.0;
            if i64::MIN <= h <= i64::MAX && i64::MIN <= a <= i64::MAX {
                let moved = Account {
                    available: Amount(a as i64),
                    held: Amount(h as i64),
                    locked: acc.locked,
                };
                let rec = TxRecord { state: DisputeState::Normal, ..m.txs[tx] };
                (
                    EngineModel {
                        accounts: m1.accounts.insert(c, moved),
                        txs: m1.txs.insert(tx, rec),
                    },
                    false,
                )
            } else {
                (m1, true)
            }
        }
    }
}

/// Applies a resolve: moves the recorded amount back from the client's
/// held funds to available funds and marks the record `Normal`, unless
/// the record is missing, owned by another client, or not in the
/// `Disputed` state (silent no-ops). Fails hard when the held funds do
/// not cover the recorded amount or a balance would leave the 64-bit
/// range, leaving balances and the record untouched.
pub fn process_resolve_command(app_state: &mut AppState, cmd: &ResolveCommand) -> (r: AppResult<
    (),
>)
    ensures
        final(app_state)@ == spec_resolve(old(app_state)@, cmd.client, cmd.tx).0,
        r is Err <==> spec_resolve(old(app_state)@, cmd.client, cmd.tx).1,
        r is Err ==> r matches Err(AppErrors::Overflow),
{
    let client = cmd.client;
    let tx = cmd.tx;

    let rec = match app_state.engine.tx_get(tx) {
        Some(rec) => *rec,
        None => {
            return Ok(());
        },
    };
    if rec.client != client {
        return Ok(());
    }
    if !matches!(rec.state, DisputeState::Disputed) {
        return Ok(());
    }

    let amount = rec.amount;
    let acc = app_state.engine.acct_mut(client);
    if acc.held.0 < amount.0 {
        return Err(AppErrors::Overflow);
    }

    match (acc.held.checked_sub(amount), acc.available.checked_add(amount)) {
        (Some(held), Some(available)) => {
            let moved = Account { available, held, locked: acc.locked };
            app_state.engine.set_acct(client, moved);
            app_state.engine.tx_insert(tx, TxRecord { state: DisputeState::Normal, ..rec });
            Ok(())
        },
        _ => Err(AppErrors::Overflow),
    }
}

/// A resolve undoes a dispute exactly: if a dispute takes effect on a
/// well-formed account (held funds not negative), resolving the same
/// transaction succeeds and restores the pre-dispute state, the lazily
/// created account aside.
pub proof fn lemma_dispute_resolve_round_trip(m: EngineModel, c: ClientId, tx: TxId)
    requires
        dispute_applies(m, c, tx),
        account_of(m, c).held.0 >= 0,
    ensures
        !spec_resolve(spec_dispute(m, c, tx).0, c, tx).1,
        spec_resolve(spec_dispute(m, c, tx).0, c, tx).0 == model_with_account(m, c),
{
    let m2 = spec_dispute(m, c, tx).0;
    let m1 = model_with_account(m, c);
    let m3 = spec_resolve(m2, c, tx).0;
    assert(m3.accounts =~= m1.accounts);
    assert(m3.txs =~= m1.txs);
    assert(m3 =~= m1);
}

/// A resolve moves funds between `held` and `available` without
/// changing the client's total, and leaves every other account
/// untouched.
pub proof fn lemma_resolve_preserves_total(m: EngineModel, c: ClientId, tx: TxId)
    requires
        !spec_resolve(m, c, tx).1,
    ensures
        account_of(spec_resolve(m, c, tx).0, c).spec_total() == account_of(m, c).spec_total(),
        forall|c2: ClientId|
            c2 != c ==> account_of(#[trigger] spec_resolve(m, c, tx).0, c2) == account_of(m, c2),
{
}

} // verus!
