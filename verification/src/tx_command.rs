use vstd::prelude::*;

use crate::amount::Amount;
use crate::identifiers::{ClientId, TxId};

verus! {

/// A request to credit a client's available funds.
#[derive(Debug, Clone, Copy)]
pub struct DepositCommand {
    /// The client making the deposit.
    pub client: ClientId,
    /// The unique identifier of the deposit transaction.
    pub tx: TxId,
    /// The amount to deposit.
    pub amount: Amount,
}

/// A request to debit a client's available funds.
#[derive(Debug, Clone, Copy)]
pub struct WithdrawalCommand {
    /// The client making the withdrawal.
    pub client: ClientId,
    /// The unique identifier of the withdrawal transaction.
    pub tx: TxId,
    /// The amount to withdraw.
    pub amount: Amount,
}

/// A request to contest a prior deposit, freezing its amount.
#[derive(Debug, Clone, Copy)]
pub struct DisputeCommand {
    /// The client initiating the dispute.
    pub client: ClientId,
    /// The transaction being disputed.
    pub tx: TxId,
}

/// A request to withdraw a dispute, releasing the frozen amount.
#[derive(Debug, Clone, Copy)]
pub struct ResolveCommand {
    /// The client resolving the dispute.
    pub client: ClientId,
    /// The transaction whose dispute is resolved.
    pub tx: TxId,
}

/// A request to uphold a dispute, removing the frozen amount for good
/// and locking the account.
#[derive(Debug, Clone, Copy)]
pub struct ChargebackCommand {
    /// The client initiating the chargeback.
    pub client: ClientId,
    /// The transaction being charged back.
    pub tx: TxId,
}

/// The closed set of transaction intents, one variant per command kind.
#[derive(Debug, Clone, Copy)]
pub enum TxCommand {
    /// Credit available funds.
    Deposit(DepositCommand),
    /// Debit available funds.
    Withdrawal(WithdrawalCommand),
    /// Contest a prior deposit.
    Dispute(DisputeCommand),
    /// Withdraw a dispute.
    Resolve(ResolveCommand),
    /// Uphold a dispute.
    Chargeback(ChargebackCommand),
}

} // verus!
