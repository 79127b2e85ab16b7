use vstd::prelude::*;

use crate::amount::Amount;
use crate::identifiers::ClientId;

verus! {

/// The kind of a recorded transaction: funds moving in or out.
#[derive(Debug, Clone, Copy, PartialEq, Eq, Structural)]
pub enum TxKind {
    /// A deposit transaction.
    Deposit,
    /// A withdrawal transaction.
    Withdrawal,
}

/// The dispute lifecycle state of a recorded transaction.
///
/// Transitions are `Normal -> Disputed` (dispute), `Disputed -> Normal`
/// (resolve) and `Disputed -> ChargedBack` (chargeback); `ChargedBack`
/// is terminal.
#[derive(Debug, Clone, Copy, PartialEq, Eq, Structural)]
pub enum DisputeState {
    /// Not under dispute.
    Normal,
    /// Currently disputed.
    Disputed,
    /// Charged back; no further transition is possible.
    ChargedBack,
}

/// The record kept for each accepted deposit or withdrawal. Disputes,
/// resolves and chargebacks never create records of their own.
#[derive(Debug, Clone, Copy, PartialEq, Eq, Structural)]
pub struct TxRecord {
    /// The client that owns the transaction.
    pub client: ClientId,
    /// Whether the transaction was a deposit or a withdrawal.
    pub kind: TxKind,
    /// The original magnitude of the transaction, always non-negative
    /// for recorded transactions produced by the engine.
    pub amount: Amount,
    /// The current dispute state.
    pub state: DisputeState,
}

/// A client account: spendable funds, funds frozen pending dispute
/// resolution, and a one-way lock latch flipped by a chargeback.
#[derive(Debug, Clone, Copy, PartialEq, Eq, Structural)]
pub struct Account {
    /// Funds the client can spend or dispute.
    pub available: Amount,
    /// Funds frozen against disputed deposits.
    pub held: Amount,
    /// True once any chargeback has occurred for this account.
    pub locked: bool,
}

impl Account {
    /// The sum of a client's available and held funds, as a mathematical
    /// integer; a chargeback is the only command that lowers it for an
    /// eligible account.
    pub open spec fn spec_total(self) -> int {
        self.available.0 + self.held.0
    }

    /// The account's total funds: available plus held.
    #[inline]
    pub fn total(&self) -> (r: Amount)
        requires
            i64::MIN <= self.spec_total() <= i64::MAX,
        ensures
            r.0 == self.spec_total(),
    {
        Amount(self.available.0 + self.held.0)
    }
}

impl Default for Account {
    /// A fresh account: zero balances, unlocked.
    fn default() -> (r: Self)
        ensures
            r.available.0 == 0,
            r.held.0 == 0,
            !r.locked,
    {
        Account { available: Amount(0), held: Amount(0), locked: false }
    }
}

} // verus!
