use vstd::prelude::*;

use crate::errors::AppResult;
use crate::state::AppState;
use crate::tx_command::{
    ChargebackCommand, DepositCommand, DisputeCommand, ResolveCommand, WithdrawalCommand,
};

use crate::commands::chargeback_command::{process_chargeback_command, spec_chargeback};
use crate::commands::deposit_command::{process_deposit_command, spec_deposit};
use crate::commands::dispute_command::{process_dispute_command, spec_dispute};
use crate::commands::resolve_command::{process_resolve_command, spec_resolve};
use crate::commands::withdrawal_command::{process_withdrawal_command, spec_withdrawal};

verus! {

/// The shared capability of the five transaction commands: executing
/// against the application state. Each implementation delegates to its
/// handler, whose contract pins the state transition exactly.
pub trait TxCommandTrait {
    /// Executes the command, mutating the application state in place.
    fn execute(&self, app_state: &mut AppState) -> AppResult<()>;
}

impl TxCommandTrait for DepositCommand {
    fn execute(&self, app_state: &mut AppState) -> (r: AppResult<()>)
        ensures
            final(app_state)@ == spec_deposit(old(app_state)@, self.client, self.tx, self.amount).0,
            r is Err <==> spec_deposit(old(app_state)@, self.client, self.tx, self.amount).1,
    {
        process_deposit_command(app_state, self)
    }
}

impl TxCommandTrait for WithdrawalCommand {
    fn execute(&self, app_state: &mut AppState) -> (r: AppResult<()>)
        ensures
            final(app_state)@ == spec_withdrawal(
                old(app_state)@,
                self.client,
                self.tx,
                self.amount,
            ).0,
            r is Err <==> spec_withdrawal(old(app_state)@, self.client, self.tx, self.amount).1,
    {
        process_withdrawal_command(app_state, self)
    }
}

impl TxCommandTrait for DisputeCommand {
    fn execute(&self, app_state: &mut AppState) -> (r: AppResult<()>)
        ensures
            final(app_state)@ == spec_dispute(old(app_state)@, self.client, self.tx).0,
            r is Err <==> spec_dispute(old(app_state)@, self.client, self.tx).1,
    {
        process_dispute_command(app_state, self)
    }
}

impl TxCommandTrait for ResolveCommand {
    fn execute(&self, app_state: &mut AppState) -> (r: AppResult<()>)
        ensures
            final(app_state)@ == spec_resolve(old(app_state)@, self.client, self.tx).0,
            r is Err <==> spec_resolve(old(app_state)@, self.client, self.tx).1,
    {
        process_resolve_command(app_state, self)
    }
}

impl TxCommandTrait for ChargebackCommand {
    fn execute(&self, app_state: &mut AppState) -> (r: AppResult<()>)
        ensures
            final(app_state)@ == spec_chargeback(old(app_state)@, self.client, self.tx).0,
            r is Err <==> spec_chargeback(old(app_state)@, self.client, self.tx).1,
    {
        process_chargeback_command(app_state, self)
    }
}

} // verus!
