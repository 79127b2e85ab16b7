use vstd::prelude::*;

use crate::conservation::{funds, lemma_funds_insert};
use crate::domain_state::Account;
use crate::errors::{AppErrors, AppResult};
use crate::identifiers::TxId;
use crate::state::{account_of, fresh_account, model_with_account, AppState, EngineModel};
use crate::tx_command::TxCommand;

use crate::commands::chargeback_command::{
    chargeback_applies, process_chargeback_command, spec_chargeback,
};
use crate::commands::deposit_command::{deposit_applies, process_deposit_command, spec_deposit};
use crate::commands::dispute_command::{process_dispute_command, spec_dispute};
use crate::commands::resolve_command::{process_resolve_command, spec_resolve};
use crate::commands::withdrawal_command::{
    process_withdrawal_command, spec_withdrawal, withdrawal_applies,
};

verus! {

/// The single transition on the engine model: dispatches to the
/// transition of the command's kind. Returns the model after the
/// command and whether the command fails hard with an overflow.
pub open spec fn spec_apply(m: EngineModel, cmd: TxCommand) -> (EngineModel, bool) {
    match cmd {
        TxCommand::Deposit(d) => spec_deposit(m, d.client, d.tx, d.amount),
        TxCommand::Withdrawal(w) => spec_withdrawal(m, w.client, w.tx, w.amount),
        TxCommand::Dispute(d) => spec_dispute(m, d.client, d.tx),
        TxCommand::Resolve(r) => spec_resolve(m, r.client, r.tx),
        TxCommand::Chargeback(cb) => spec_chargeback(m, cb.client, cb.tx),
    }
}

/// Applies one command to the state: the closed dispatch over the five
/// command kinds. A failing command leaves every balance and record as
/// the transition function says; an ineligible one is a silent no-op.
pub fn apply_command(app_state: &mut AppState, cmd: &TxCommand) -> (r: AppResult<()>)
    ensures
        final(app_state)@ == spec_apply(old(app_state)@, *cmd).0,
        r is Err <==> spec_apply(old(app_state)@, *cmd).1,
        r is Err ==> r matches Err(AppErrors::Overflow),
{
    match cmd {
        TxCommand::Deposit(d) => process_deposit_command(app_state, d),
        TxCommand::Withdrawal(w) => process_withdrawal_command(app_state, w),
        TxCommand::Dispute(d) => process_dispute_command(app_state, d),
        TxCommand::Resolve(r) => process_resolve_command(app_state, r),
        TxCommand::Chargeback(cb) => process_chargeback_command(app_state, cb),
    }
}

/// The model after replaying a whole command sequence in order,
/// carrying each command's outcome state into the next, exactly as the
/// engine does when failed commands are logged and skipped.
pub open spec fn spec_replay(m: EngineModel, cmds: Seq<TxCommand>) -> EngineModel
    decreases cmds.len(),
{
    if cmds.len() == 0 {
        m
    } else {
        spec_replay(spec_apply(m, cmds[0]).0, cmds.drop_first())
    }
}

/// The number of commands that fail hard along a replay; failing
/// commands are skipped, so each later command still sees the state
/// the transitions say.
pub open spec fn commands_failed(m: EngineModel, cmds: Seq<TxCommand>) -> int
    decreases cmds.len(),
{
    if cmds.len() == 0 {
        0
    } else {
        (if spec_apply(m, cmds[0]).1 {
            1int
        } else {
            0int
        }) + commands_failed(spec_apply(m, cmds[0]).0, cmds.drop_first())
    }
}

/// Replaying one more command is applying it to the replay of the
/// commands before it, and it adds one more failure exactly when that
/// application fails.
pub proof fn lemma_replay_push(m: EngineModel, cmds: Seq<TxCommand>, cmd: TxCommand)
    ensures
        spec_replay(m, cmds.push(cmd)) == spec_apply(spec_replay(m, cmds), cmd).0,
        commands_failed(m, cmds.push(cmd)) == commands_failed(m, cmds) + (if spec_apply(
            spec_replay(m, cmds),
            cmd,
        ).1 {
            1int
        } else {
            0int
        }),
    decreases cmds.len(),
{
    assert(cmds.push(cmd).len() == cmds.len() + 1);
    assert(spec_replay(m, cmds.push(cmd)) == spec_replay(
        spec_apply(m, cmds.push(cmd)[0]).0,
        cmds.push(cmd).drop_first(),
    ));
    assert(commands_failed(m, cmds.push(cmd)) == (if spec_apply(m, cmds.push(cmd)[0]).1 {
        1int
    } else {
        0int
    }) + commands_failed(spec_apply(m, cmds.push(cmd)[0]).0, cmds.push(cmd).drop_first()));
    if cmds.len() == 0 {
        assert(cmds.push(cmd).drop_first() =~= Seq::<TxCommand>::empty());
        assert(cmds.push(cmd)[0] == cmd);
        assert(spec_replay(spec_apply(m, cmd).0, Seq::<TxCommand>::empty()) == spec_apply(
            m,
            cmd,
        ).0);
    } else {
        assert(cmds.push(cmd).drop_first() =~= cmds.drop_first().push(cmd));
        assert(cmds.push(cmd)[0] == cmds[0]);
        lemma_replay_push(spec_apply(m, cmds[0]).0, cmds.drop_first(), cmd);
        assert(spec_replay(m, cmds) == spec_replay(spec_apply(m, cmds[0]).0, cmds.drop_first()));
        assert(commands_failed(m, cmds) == (if spec_apply(m, cmds[0]).1 {
            1int
        } else {
            0int
        }) + commands_failed(spec_apply(m, cmds[0]).0, cmds.drop_first()));
    }
}

/// Applies a whole command sequence in order, carrying each command's
/// outcome state into the next: failing commands are counted and
/// skipped, never aborting the run, exactly as [`spec_replay`] and
/// [`commands_failed`] say.
pub fn apply_commands(app_state: &mut AppState, cmds: &Vec<TxCommand>) -> (failed: usize)
    ensures
        final(app_state)@ == spec_replay(old(app_state)@, cmds@),
        failed == commands_failed(old(app_state)@, cmds@),
{
    let ghost m0 = app_state@;
    let mut failed: usize = 0;
    let mut i: usize = 0;
    while i < cmds.len()
        invariant
            0 <= i <= cmds@.len(),
            failed <= i,
            app_state@ == spec_replay(m0, cmds@.take(i as int)),
            failed == commands_failed(m0, cmds@.take(i as int)),
        decreases cmds@.len() - i,
    {
        proof {
            lemma_replay_push(m0, cmds@.take(i as int), cmds@[i as int]);
            assert(cmds@.take(i as int).push(cmds@[i as int]) =~= cmds@.take(i + 1));
        }
        if apply_command(app_state, &cmds[i]).is_err() {
            failed += 1;
        }
        i += 1;
    }
    proof {
        assert(cmds@.take(cmds@.len() as int) =~= cmds@);
    }
    failed
}

/// The net change one command makes to the total funds over all
/// accounts: an applied deposit adds its amount, an applied withdrawal
/// or chargeback removes its amount, and everything else moves funds
/// between `available` and `held` or does nothing.
pub open spec fn command_delta(m: EngineModel, cmd: TxCommand) -> int {
    match cmd {
        TxCommand::Deposit(d) => if deposit_applies(m, d.client, d.tx, d.amount) {
            d.amount.0 as int
        } else {
            0
        },
        TxCommand::Withdrawal(w) => if withdrawal_applies(m, w.client, w.tx, w.amount) {
            -(w.amount.0 as int)
        } else {
            0
        },
        TxCommand::Dispute(_) => 0,
        TxCommand::Resolve(_) => 0,
        TxCommand::Chargeback(cb) => if chargeback_applies(m, cb.client, cb.tx) {
            -(m.txs[cb.tx].amount.0 as int)
        } else {
            0
        },
    }
}

/// The sum of the deposit amounts that take effect along a replay.
pub open spec fn deposits_applied(m: EngineModel, cmds: Seq<TxCommand>) -> int
    decreases cmds.len(),
{
    if cmds.len() == 0 {
        0
    } else {
        let here: int = match cmds[0] {
            TxCommand::Deposit(d) => if deposit_applies(m, d.client, d.tx, d.amount) {
                d.amount.0 as int
            } else {
                0
            },
            _ => 0,
        };
        here + deposits_applied(spec_apply(m, cmds[0]).0, cmds.drop_first())
    }
}

/// The sum of the withdrawal amounts that take effect along a replay.
pub open spec fn withdrawals_applied(m: EngineModel, cmds: Seq<TxCommand>) -> int
    decreases cmds.len(),
{
    if cmds.len() == 0 {
        0
    } else {
        let here: int = match cmds[0] {
            TxCommand::Withdrawal(w) => if withdrawal_applies(m, w.client, w.tx, w.amount) {
                w.amount.0 as int
            } else {
                0
            },
            _ => 0,
        };
        here + withdrawals_applied(spec_apply(m, cmds[0]).0, cmds.drop_first())
    }
}

/// The sum of the recorded amounts removed by the chargebacks that
/// take effect along a replay.
pub open spec fn chargebacks_applied(m: EngineModel, cmds: Seq<TxCommand>) -> int
    decreases cmds.len(),
{
    if cmds.len() == 0 {
        0
    } else {
        let here: int = match cmds[0] {
            TxCommand::Chargeback(cb) => if chargeback_applies(m, cb.client, cb.tx) {
                m.txs[cb.tx].amount.0 as int
            } else {
                0
            },
            _ => 0,
        };
        here + chargebacks_applied(spec_apply(m, cmds[0]).0, cmds.drop_first())
    }
}

/// One command changes the total funds over all accounts by exactly
/// its net delta: commands move or remove money as stated, and never
/// create any besides an applied deposit's amount.
pub proof fn lemma_apply_funds(m: EngineModel, cmd: TxCommand)
    requires
        m.accounts.dom().finite(),
    ensures
        spec_apply(m, cmd).0.accounts.dom().finite(),
        funds(spec_apply(m, cmd).0.accounts) == funds(m.accounts) + command_delta(m, cmd),
{
    match cmd {
        TxCommand::Deposit(d) => {
            if !m.txs.contains_key(d.tx) {
                let m1 = model_with_account(m, d.client);
                if !m.accounts.contains_key(d.client) {
                    lemma_funds_insert(m.accounts, d.client, fresh_account());
                }
                let acc = account_of(m, d.client);
                let s = acc.available.0 + d.amount.0;
                if !acc.locked && i64::MIN <= s <= i64::MAX {
                    lemma_funds_insert(
                        m1.accounts,
                        d.client,
                        Account {
                            available: crate::amount::Amount(s as i64),
                            held: acc.held,
                            locked: acc.locked,
                        },
                    );
                }
            }
        },
        TxCommand::Withdrawal(w) => {
            if !m.txs.contains_key(w.tx) {
                let m1 = model_with_account(m, w.client);
                if !m.accounts.contains_key(w.client) {
                    lemma_funds_insert(m.accounts, w.client, fresh_account());
                }
                let acc = account_of(m, w.client);
                let dd = acc.available.0 - w.amount.0;
                if !acc.locked && acc.available.0 >= w.amount.0 && i64::MIN <= dd <= i64::MAX {
                    lemma_funds_insert(
                        m1.accounts,
                        w.client,
                        Account {
                            available: crate::amount::Amount(dd as i64),
                            held: acc.held,
                            locked: acc.locked,
                        },
                    );
                }
            }
        },
        TxCommand::Dispute(d) => {
            let (m2, _) = spec_dispute(m, d.client, d.tx);
            if m.txs.contains_key(d.tx) && m.txs[d.tx].client == d.client && m.txs[d.tx].kind
                == crate::domain_state::TxKind::Deposit && m.txs[d.tx].state
                == crate::domain_state::DisputeState::Normal {
                let amount = m.txs[d.tx].amount;
                let m1 = model_with_account(m, d.client);
                if !m.accounts.contains_key(d.client) {
                    lemma_funds_insert(m.accounts, d.client, fresh_account());
                }
                let acc = account_of(m, d.client);
                let dd = acc.available.0 - amount.0;
                let h = acc.held.0 + amount.0;
                if acc.available.0 >= amount.0 && i64::MIN <= dd <= i64::MAX && i64::MIN <= h
                    <= i64::MAX {
                    lemma_funds_insert(
                        m1.accounts,
                        d.client,
                        Account {
                            available: crate::amount::Amount(dd as i64),
                            held: crate::amount::Amount(h as i64),
                            locked: acc.locked,
                        },
                    );
                }
            }
        },
        TxCommand::Resolve(r) => {
            if m.txs.contains_key(r.tx) && m.txs[r.tx].client == r.client && m.txs[r.tx].state
                == crate::domain_state::DisputeState::Disputed {
                let amount = m.txs[r.tx].amount;
                let m1 = model_with_account(m, r.client);
                if !m.accounts.contains_key(r.client) {
                    lemma_funds_insert(m.accounts, r.client, fresh_account());
                }
                let acc = account_of(m, r.client);
                let h = acc.held.0 - amount.0;
                let a = acc.available.0 + amount.0;
                if acc.held.0 >= amount.0 && i64::MIN <= h <= i64::MAX && i64::MIN <= a
                    <= i64::MAX {
                    lemma_funds_insert(
                        m1.accounts,
                        r.client,
                        Account {
                            available: crate::amount::Amount(a as i64),
                            held: crate::amount::Amount(h as i64),
                            locked: acc.locked,
                        },
                    );
                }
            }
        },
        TxCommand::Chargeback(cb) => {
            if m.txs.contains_key(cb.tx) && m.txs[cb.tx].client == cb.client && m.txs[cb.tx].state
                == crate::domain_state::DisputeState::Disputed {
                let amount = m.txs[cb.tx].amount;
                let m1 = model_with_account(m, cb.client);
                if !m.accounts.contains_key(cb.client) {
                    lemma_funds_insert(m.accounts, cb.client, fresh_account());
                }
                let acc = account_of(m, cb.client);
                let h = acc.held.0 - amount.0;
                if i64::MIN <= h <= i64::MAX {
                    lemma_funds_insert(
                        m1.accounts,
                        cb.client,
                        Account {
                            available: acc.available,
                            held: crate::amount::Amount(h as i64),
                            locked: true,
                        },
                    );
                }
            }
        },
    }
}

/// Over a whole replay, the total funds change by exactly the applied
/// deposits minus the applied withdrawals minus the charged-back
/// amounts: no command sequence creates or destroys money in any other
/// way.
pub proof fn lemma_replay_funds(m: EngineModel, cmds: Seq<TxCommand>)
    requires
        m.accounts.dom().finite(),
    ensures
        spec_replay(m, cmds).accounts.dom().finite(),
        funds(spec_replay(m, cmds).accounts) == funds(m.accounts) + deposits_applied(m, cmds)
            - withdrawals_applied(m, cmds) - chargebacks_applied(m, cmds),
    decreases cmds.len(),
{
    if cmds.len() > 0 {
        lemma_apply_funds(m, cmds[0]);
        lemma_replay_funds(spec_apply(m, cmds[0]).0, cmds.drop_first());
    }
}

/// Whether a command carries a non-negative amount; the commands that
/// carry no amount qualify trivially.
pub open spec fn command_nonneg(cmd: TxCommand) -> bool {
    match cmd {
        TxCommand::Deposit(d) => d.amount.0 >= 0,
        TxCommand::Withdrawal(w) => w.amount.0 >= 0,
        _ => true,
    }
}

/// Whether every recorded transaction in the model carries a
/// non-negative amount.
pub open spec fn records_nonneg(m: EngineModel) -> bool {
    forall|tx: TxId| #[trigger] m.txs.contains_key(tx) ==> m.txs[tx].amount.0 >= 0
}

/// A command with a non-negative amount keeps every recorded amount
/// non-negative: records are only created by deposits and withdrawals,
/// and later transitions never change a record's amount.
pub proof fn lemma_apply_records_nonneg(m: EngineModel, cmd: TxCommand)
    requires
        records_nonneg(m),
        command_nonneg(cmd),
    ensures
        records_nonneg(spec_apply(m, cmd).0),
{
}

/// Along a replay of commands with non-negative amounts from a model
/// whose records are non-negative, every charged-back amount is
/// non-negative.
pub proof fn lemma_chargebacks_applied_nonneg(m: EngineModel, cmds: Seq<TxCommand>)
    requires
        records_nonneg(m),
        forall|i: int| 0 <= i < cmds.len() ==> command_nonneg(#[trigger] cmds[i]),
    ensures
        chargebacks_applied(m, cmds) >= 0,
    decreases cmds.len(),
{
    if cmds.len() > 0 {
        lemma_apply_records_nonneg(m, cmds[0]);
        assert(forall|i: int|
            0 <= i < cmds.drop_first().len() ==> command_nonneg(#[trigger] cmds.drop_first()[i]));
        lemma_chargebacks_applied_nonneg(spec_apply(m, cmds[0]).0, cmds.drop_first());
    }
}

/// Conservation: for any sequence of commands with non-negative
/// amounts, replayed from a state with finitely many accounts and
/// non-negative recorded amounts, the total of `available + held`
/// across all accounts never exceeds the initial total plus the
/// applied deposit amounts minus the applied withdrawal amounts.
pub proof fn lemma_conservation(m: EngineModel, cmds: Seq<TxCommand>)
    requires
        m.accounts.dom().finite(),
        records_nonneg(m),
        forall|i: int| 0 <= i < cmds.len() ==> command_nonneg(#[trigger] cmds[i]),
    ensures
        funds(spec_replay(m, cmds).accounts) <= funds(m.accounts) + deposits_applied(m, cmds)
            - withdrawals_applied(m, cmds),
{
    lemma_replay_funds(m, cmds);
    lemma_chargebacks_applied_nonneg(m, cmds);
}

} // verus!
