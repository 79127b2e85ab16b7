use vstd::prelude::*;
use vstd::std_specs::iter::{IteratorSpec, VerusForLoopWrapper};

use std::collections::HashMap;

use crate::amount::Amount;
use crate::domain_state::{Account, TxRecord};
use crate::identifiers::{ClientId, TxId};

verus! {

broadcast use vstd::std_specs::hash::group_hash_axioms;

/// The mathematical model of the engine: the account map and the
/// transaction-record map, as ghost maps. All command contracts are
/// stated over this model.
#[verifier::ext_equal]
pub struct EngineModel {
    /// One account per client that has been referenced so far.
    pub accounts: Map<ClientId, Account>,
    /// One record per accepted deposit or withdrawal.
    pub txs: Map<TxId, TxRecord>,
}

/// The account a client starts with: zero balances, unlocked.
pub open spec fn fresh_account() -> Account {
    Account { available: Amount(0), held: Amount(0), locked: false }
}

/// The model after a get-or-create access to `c`'s account: unchanged if
/// the account exists, otherwise extended with a fresh account.
pub open spec fn model_with_account(m: EngineModel, c: ClientId) -> EngineModel {
    if m.accounts.contains_key(c) {
        m
    } else {
        EngineModel { accounts: m.accounts.insert(c, fresh_account()), txs: m.txs }
    }
}

/// The account `c` holds in model `m`, counting a fresh account for a
/// client not yet referenced.
pub open spec fn account_of(m: EngineModel, c: ClientId) -> Account {
    if m.accounts.contains_key(c) {
        m.accounts[c]
    } else {
        fresh_account()
    }
}

/// The application state: the engine that owns accounts and
/// transaction records.
pub struct AppState {
    /// The engine holding all accounts and transaction records.
    pub engine: Engine,
}

/// The core engine: exclusive owner of the client-account map and the
/// transaction-record map. All mutation happens through its methods.
pub struct Engine {
    /// Client accounts, created lazily on first reference.
    accounts: HashMap<ClientId, Account>,
    /// Records of accepted deposits and withdrawals.
    pub txs: HashMap<TxId, TxRecord>,
}

impl View for Engine {
    type V = EngineModel;

    closed spec fn view(&self) -> EngineModel {
        EngineModel { accounts: self.accounts@, txs: self.txs@ }
    }
}

impl View for AppState {
    type V = EngineModel;

    open spec fn view(&self) -> EngineModel {
        self.engine@
    }
}

impl Default for Engine {
    /// An engine with no accounts and no transaction records.
    fn default() -> (r: Self)
        ensures
            r@.accounts == Map::<ClientId, Account>::empty(),
            r@.txs == Map::<TxId, TxRecord>::empty(),
    {
        Engine { accounts: HashMap::new(), txs: HashMap::new() }
    }
}

impl Default for AppState {
    /// A fresh application state with an empty engine.
    fn default() -> (r: Self)
        ensures
            r@.accounts == Map::<ClientId, Account>::empty(),
            r@.txs == Map::<TxId, TxRecord>::empty(),
    {
        AppState { engine: Engine::default() }
    }
}

impl Engine {
    /// The account for the given client, creating a fresh one in the map
    /// first if the client has not been referenced before. The returned
    /// value is a copy; updates go back through [`Engine::set_acct`].
    pub fn acct_mut(&mut self, c: ClientId) -> (a: Account)
        ensures
            final(self)@.txs == old(self)@.txs,
            final(self)@ == model_with_account(old(self)@, c),
            a == account_of(old(self)@, c),
    {
        let found = match self.accounts.get(&c) {
            Some(a) => Some(*a),
            None => None,
        };
        match found {
            Some(a) => {
                proof {
                    assert(self@ =~= model_with_account(self@, c));
                }
                a
            },
            None => {
                let a = Account::default();
                self.accounts.insert(c, a);
                a
            },
        }
    }

    /// Stores `a` as the account of client `c`, replacing any previous
    /// account.
    pub fn set_acct(&mut self, c: ClientId, a: Account)
        ensures
            final(self)@.txs == old(self)@.txs,
            final(self)@.accounts == old(self)@.accounts.insert(c, a),
    {
        self.accounts.insert(c, a);
    }

    /// The account for the given client, or `None` if the client has
    /// never been referenced. Returns a copy; no account is created.
    pub fn acct_mut_if_exists(&mut self, client: &ClientId) -> (r: Option<Account>)
        ensures
            final(self)@ == old(self)@,
            match r {
                Some(a) => old(self)@.accounts.contains_key(*client) && a == old(
                    self,
                )@.accounts[*client],
                None => !old(self)@.accounts.contains_key(*client),
            },
    {
        match self.accounts.get(client) {
            Some(a) => Some(*a),
            None => None,
        }
    }

    /// A read-only borrow of the account for the given client, or `None`
    /// if the client has never been referenced.
    pub fn acct(&self, client: ClientId) -> (r: Option<&Account>)
        ensures
            match r {
                Some(a) => self@.accounts.contains_key(client) && *a == self@.accounts[client],
                None => !self@.accounts.contains_key(client),
            },
    {
        self.accounts.get(&client)
    }

    /// Whether a transaction record exists for `tx`.
    pub fn tx_contains(&self, tx: TxId) -> (r: bool)
        ensures
            r == self@.txs.contains_key(tx),
    {
        self.txs.contains_key(&tx)
    }

    /// A read-only borrow of the record for `tx`, if any.
    pub fn tx_get(&self, tx: TxId) -> (r: Option<&TxRecord>)
        ensures
            match r {
                Some(rec) => self@.txs.contains_key(tx) && *rec == self@.txs[tx],
                None => !self@.txs.contains_key(tx),
            },
    {
        self.txs.get(&tx)
    }

    /// Stores `rec` as the record of transaction `tx`, replacing any
    /// previous record.
    pub fn tx_insert(&mut self, tx: TxId, rec: TxRecord)
        ensures
            final(self)@.accounts == old(self)@.accounts,
            final(self)@.txs == old(self)@.txs.insert(tx, rec),
    {
        self.txs.insert(tx, rec);
    }

    /// A snapshot of all accounts as `(client, account)` pairs, in no
    /// particular order: every known client appears exactly once with
    /// its current account.
    #[verifier::loop_isolation(false)]
    pub fn accounts_iter(&self) -> (v: Vec<(ClientId, Account)>)
        ensures
            v@.len() == self@.accounts.dom().len(),
            forall|i: int|
                0 <= i < v@.len() ==> self@.accounts.contains_pair(
                    #[trigger] v@[i].0,
                    v@[i].1,
                ),
            forall|c: ClientId|
                #[trigger] self@.accounts.contains_key(c) ==> exists|i: int|
                    0 <= i < v@.len() && v@[i].0 == c,
            forall|i: int, j: int| 0 <= i < j < v@.len() ==> v@[i].0 != v@[j].0,
    {
        let mut v: Vec<(ClientId, Account)> = Vec::new();
        let n = self.accounts.len();
        let iter0 = self.accounts.iter();
        let ghost r = iter0.remaining();
        let ghost init: Option<&std::collections::hash_map::Iter<ClientId, Account>> = None;
        let mut w = VerusForLoopWrapper::new(iter0, Ghost(init));
        loop
            invariant
                w.wf(),
                w.seq() == r,
                n == r.len(),
                v@.len() == w.index(),
                forall|i: int| 0 <= i < v@.len() ==> v@[i] == (*r[i].0, *r[i].1),
            decreases n - v@.len(),
        {
            match w.next() {
                Some(p) => {
                    v.push((*p.0, *p.1));
                },
                None => {
                    break ;
                },
            }
        }
        proof {
            assert(v@.len() == r.len());
            assert forall|c: ClientId| #[trigger]
                self@.accounts.contains_key(c) implies exists|i: int|
                0 <= i < v@.len() && v@[i].0 == c by {
                assert(r.contains((&c, &self.accounts@[c])));
                let i = choose|i: int| 0 <= i < r.len() && r[i] == (&c, &self.accounts@[c]);
                assert(v@[i].0 == c);
            }
            assert forall|i: int, j: int| 0 <= i < j < v@.len() implies v@[i].0 != v@[j].0 by {
                if v@[i].0 == v@[j].0 {
                    assert(self@.accounts[*r[i].0] == *r[i].1);
                    assert(self@.accounts[*r[j].0] == *r[j].1);
                    assert(r[i] == r[j]);
                    assert(r.no_duplicates());
                }
            }
        }
        v
    }
}

} // verus!
