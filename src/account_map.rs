//! The ledger: every client's account, created on first use, and the logs of the
//! accepted and the refused transactions.
use std::collections::HashMap;

use vstd::prelude::*;

use crate::account::{apply, Account, AccountView};
use crate::transaction::Transaction;

verus! {

broadcast use vstd::std_specs::hash::group_hash_axioms;

/// The accounts of all clients seen so far, with the log of accepted transactions
/// (`total_transaction_log`) and of refused ones (`total_error_transaction_log`).
pub struct AccountMap {
    pub accounts: HashMap<i32, Account>,
    pub total_transaction_log: Vec<Transaction>,
    pub total_error_transaction_log: Vec<Transaction>,
}

/// The mathematical state of a ledger.
pub struct LedgerView {
    pub accounts: Map<i32, AccountView>,
    pub accepted: Seq<Transaction>,
    pub rejected: Seq<Transaction>,
}

impl View for AccountMap {
    type V = LedgerView;

    open spec fn view(&self) -> LedgerView {
        LedgerView {
            accounts: self.accounts@.map_values(|a: Account| a@),
            accepted: self.total_transaction_log@,
            rejected: self.total_error_transaction_log@,
        }
    }
}

impl LedgerView {
    /// No accounts and empty logs.
    pub open spec fn empty() -> LedgerView {
        LedgerView { accounts: Map::empty(), accepted: Seq::empty(), rejected: Seq::empty() }
    }

    /// Each account is well formed and filed under its own id.
    pub open spec fn wf(self) -> bool {
        forall|id: i32| #[trigger]
            self.accounts.contains_key(id) ==> self.accounts[id].wf() && self.accounts[id].id
                == id
    }

    /// The account of client `id`, or a fresh one where the client has none yet.
    pub open spec fn account_of(self, id: i32) -> AccountView {
        if self.accounts.contains_key(id) {
            self.accounts[id]
        } else {
            AccountView::fresh(id)
        }
    }
}

/// The ledger after `t`: where the client's account (fresh if it had none) accepts
/// `t`, the new account is filed and `t` is logged as accepted; otherwise the
/// accounts stay as they were and `t` is logged as refused.
pub open spec fn ledger_apply(l: LedgerView, t: Transaction) -> LedgerView {
    match apply(l.account_of(t.client), t) {
        Ok(a) => LedgerView {
            accounts: l.accounts.insert(t.client, a),
            accepted: l.accepted.push(t),
            rejected: l.rejected,
        },
        Err(_) => LedgerView {
            accounts: l.accounts,
            accepted: l.accepted,
            rejected: l.rejected.push(t),
        },
    }
}

impl AccountMap {
    /// An empty ledger.
    pub fn new() -> (r: AccountMap)
        ensures
            r@ == LedgerView::empty(),
            r@.wf(),
    {
        let accounts: HashMap<i32, Account> = HashMap::new();
        let total_transaction_log: Vec<Transaction> = Vec::new();
        let total_error_transaction_log: Vec<Transaction> = Vec::new();
        let r = AccountMap { accounts, total_transaction_log, total_error_transaction_log };
        assert(r@.accounts =~= Map::empty());
        assert(r@.accepted =~= Seq::empty());
        assert(r@.rejected =~= Seq::empty());
        r
    }

    /// Applies `transaction` to the account of `account_id`, creating that account
    /// if it is not there yet, and logs the transaction as accepted or refused.
    pub fn add_transaction(self, transaction: Transaction, account_id: i32) -> (r: Self)
        requires
            self@.wf(),
            transaction.well_formed(),
            account_id == transaction.client,
        ensures
            r@ == ledger_apply(self@, transaction),
            r@.wf(),
    {
        let mut this = self;
        let account = match this.accounts.get(&account_id) {
            Some(found_account) => found_account.clone(),
            None => Account::new(account_id),
        };
        assert(account@ == self@.account_of(account_id));
        let transaction_result = account.add_transaction(transaction);
        match transaction_result {
            Ok(new_state) => {
                let ghost state = new_state;
                this.accounts.insert(account_id, new_state);
                this.total_transaction_log.push(transaction);
                assert(this@.accounts =~= self@.accounts.insert(account_id, state@));
            },
            Err(_) => {
                this.total_error_transaction_log.push(transaction);
            },
        }
        this
    }
}

/// Applies `transaction` to the given ledger, or to a new empty one where none is
/// given, so that a stream of transactions can be folded into one ledger.
pub fn log_transaction(current_state: Option<AccountMap>, transaction: Transaction) -> (r:
    AccountMap)
    requires
        transaction.well_formed(),
        match current_state {
            Some(m) => m@.wf(),
            None => true,
        },
    ensures
        r@ == ledger_apply(
            match current_state {
                Some(m) => m@,
                None => LedgerView::empty(),
            },
            transaction,
        ),
        r@.wf(),
{
    let account_state = match current_state {
        Some(account_data) => account_data,
        None => AccountMap::new(),
    };
    account_state.add_transaction(transaction, transaction.client)
}

} // verus!
