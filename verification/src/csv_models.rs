use vstd::prelude::*;

use crate::amount::{spec_format_4dp, Amount};
use crate::domain_state::Account;
use crate::identifiers::{ClientId, TxId};

verus! {

/// The transaction kind named by an input row.
#[derive(Debug, Clone, Copy, PartialEq, Eq, Structural)]
pub enum CsvTxType {
    /// A deposit row.
    Deposit,
    /// A withdrawal row.
    Withdrawal,
    /// A dispute row.
    Dispute,
    /// A resolve row.
    Resolve,
    /// A chargeback row.
    Chargeback,
}

/// One record of the input stream: the transaction kind, the client,
/// the transaction id, and the raw amount text where the kind carries
/// one.
#[derive(Debug)]
pub struct InputRow {
    /// The kind of the transaction.
    pub t: CsvTxType,
    /// The client the transaction belongs to.
    pub client: ClientId,
    /// The transaction id.
    pub tx: TxId,
    /// The unparsed amount, required for deposits and withdrawals and
    /// ignored otherwise.
    pub amount: Option<String>,
}

/// One record of the output report: a client's balances rendered to
/// four decimal places, and the lock flag.
#[derive(Debug)]
pub struct OutputRow {
    /// The client the account belongs to.
    pub client: ClientId,
    /// The available balance, rendered.
    pub available: String,
    /// The held balance, rendered.
    pub held: String,
    /// The total balance, rendered.
    pub total: String,
    /// Whether the account is locked.
    pub locked: bool,
}

impl OutputRow {
    /// Builds the report row for one account: each balance rendered to
    /// exactly four decimal places, the total being available plus
    /// held.
    pub fn from_account(client: ClientId, acc: &Account) -> (r: OutputRow)
        requires
            i64::MIN <= acc.spec_total() <= i64::MAX,
        ensures
            r.client == client,
            r.available@ == spec_format_4dp(acc.available.0),
            r.held@ == spec_format_4dp(acc.held.0),
            r.total@ == spec_format_4dp(acc.spec_total() as i64),
            r.locked == acc.locked,
    {
        let total = acc.total();
        OutputRow {
            client,
            available: acc.available.format_4dp(),
            held: acc.held.format_4dp(),
            total: total.format_4dp(),
            locked: acc.locked,
        }
    }
}

} // verus!
