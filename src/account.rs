//! One client's account: its balances, its lock, and the history of the
//! transactions it accepted, with the rules that apply a transaction to it.
use vstd::prelude::*;

use crate::transaction::{Transaction, TransactionType};

verus! {

/// Why an account refuses a transaction. The refused transaction leaves the
/// account as it was.
#[derive(Debug, PartialEq, Eq, Clone, Copy, Structural)]
pub enum RuleViolation {
    /// The account was locked by a chargeback.
    AccountLocked,
    /// A withdrawal asks for more than is available.
    InsufficientFunds,
    /// A chargeback names a transaction that is not under dispute.
    NoDisputeFound,
    /// A chargeback asks for more than is held.
    InsufficientHeldFunds,
    /// A balance would leave the range of `i64`.
    BalanceOverflow,
}

/// One client's account.
///
/// `total` is `amount_available + amount_held`; `transaction_log` holds the
/// transactions that changed the account, oldest first.
#[derive(Debug)]
pub struct Account {
    pub id: i32,
    pub amount_available: i64,
    pub amount_held: i64,
    pub total: i64,
    pub locked: bool,
    pub transaction_log: Vec<Transaction>,
}

/// The mathematical state of an account.
pub struct AccountView {
    pub id: i32,
    pub available: int,
    pub held: int,
    pub total: int,
    pub locked: bool,
    pub log: Seq<Transaction>,
}

impl View for Account {
    type V = AccountView;

    open spec fn view(&self) -> AccountView {
        AccountView {
            id: self.id,
            available: self.amount_available as int,
            held: self.amount_held as int,
            total: self.total as int,
            locked: self.locked,
            log: self.transaction_log@,
        }
    }
}

pub open spec fn fits_i64(x: int) -> bool {
    i64::MIN <= x <= i64::MAX
}

/// The kind of earlier transaction that a transaction of kind `kind` refers to:
/// a dispute refers to a deposit, a resolve or a chargeback to a dispute.
pub open spec fn antecedent(kind: TransactionType) -> Option<TransactionType> {
    match kind {
        TransactionType::DISPUTE => Some(TransactionType::DEPOSIT),
        TransactionType::RESOLVE => Some(TransactionType::DISPUTE),
        TransactionType::CHARGEBACK => Some(TransactionType::DISPUTE),
        _ => None,
    }
}

pub open spec fn is_match(t: Transaction, tx: i32, kind: TransactionType) -> bool {
    t.tx == tx && t.transaction_type == kind
}

/// The first transaction of `log`, from position `i` on, with id `tx` and kind `kind`.
pub open spec fn find_from(log: Seq<Transaction>, tx: i32, kind: TransactionType, i: int) -> Option<
    Transaction,
>
    decreases log.len() - i,
{
    if i < 0 || i >= log.len() {
        None
    } else if is_match(log[i], tx, kind) {
        Some(log[i])
    } else {
        find_from(log, tx, kind, i + 1)
    }
}

/// The first transaction of `log` with id `tx` and kind `kind`.
pub open spec fn find(log: Seq<Transaction>, tx: i32, kind: TransactionType) -> Option<Transaction> {
    find_from(log, tx, kind, 0)
}

impl AccountView {
    /// A new account: zero balances, unlocked, empty history.
    pub open spec fn fresh(id: i32) -> AccountView {
        AccountView { id, available: 0, held: 0, total: 0, locked: false, log: Seq::empty() }
    }

    /// Each balance lies in the range of `i64`, as those of every `Account` do.
    pub open spec fn in_range(self) -> bool {
        fits_i64(self.available) && fits_i64(self.held) && fits_i64(self.total)
    }

    /// `total == available + held`.
    pub open spec fn balanced(self) -> bool {
        self.total == self.available + self.held
    }

    /// The history holds well-formed transactions, and each dispute in it refers to a
    /// deposit in it.
    pub open spec fn wf(self) -> bool {
        &&& forall|i: int| 0 <= i < self.log.len() ==> #[trigger] self.log[i].well_formed()
        &&& forall|i: int|
            0 <= i < self.log.len() && #[trigger] self.log[i].transaction_type
                == TransactionType::DISPUTE ==> find(
                self.log,
                self.log[i].tx,
                TransactionType::DEPOSIT,
            ).is_some()
    }

    /// The amount of the deposit with id `tx` (zero where there is none).
    pub open spec fn deposit_amount(self, tx: i32) -> int {
        match find(self.log, tx, TransactionType::DEPOSIT) {
            Some(d) => d.amount_value(),
            None => 0,
        }
    }

    /// Moves the balances by the given differences, records `t` and sets the lock to
    /// `locked`; refused where a balance would leave the range of `i64`.
    pub open spec fn adjust(
        self,
        d_available: int,
        d_held: int,
        d_total: int,
        t: Transaction,
        locked: bool,
    ) -> Result<AccountView, RuleViolation> {
        let available = self.available + d_available;
        let held = self.held + d_held;
        let total = self.total + d_total;
        if fits_i64(available) && fits_i64(held) && fits_i64(total) {
            Ok(
                AccountView {
                    id: self.id,
                    available,
                    held,
                    total,
                    locked,
                    log: self.log.push(t),
                },
            )
        } else {
            Err(RuleViolation::BalanceOverflow)
        }
    }
}

/// What applying `t` to an account in state `a` yields: its next state, or why it
/// refuses `t`.
pub open spec fn apply(a: AccountView, t: Transaction) -> Result<AccountView, RuleViolation> {
    if a.locked {
        Err(RuleViolation::AccountLocked)
    } else {
        match t.transaction_type {
            TransactionType::DEPOSIT => {
                let amount = t.amount_value();
                a.adjust(amount, 0, amount, t, false)
            },
            TransactionType::WITHDRAWAL => {
                let amount = t.amount_value();
                if amount > a.available {
                    Err(RuleViolation::InsufficientFunds)
                } else {
                    a.adjust(-amount, 0, -amount, t, false)
                }
            },
            TransactionType::DISPUTE => {
                if find(a.log, t.tx, TransactionType::DEPOSIT).is_some() {
                    let amount = a.deposit_amount(t.tx);
                    a.adjust(-amount, amount, 0, t, false)
                } else {
                    Ok(a)
                }
            },
            TransactionType::RESOLVE => {
                if find(a.log, t.tx, TransactionType::DISPUTE).is_some() {
                    let amount = a.deposit_amount(t.tx);
                    a.adjust(amount, -amount, 0, t, false)
                } else {
                    Ok(a)
                }
            },
            TransactionType::CHARGEBACK => {
                if find(a.log, t.tx, TransactionType::DISPUTE).is_some() {
                    let amount = a.deposit_amount(t.tx);
                    if a.held < amount {
                        Err(RuleViolation::InsufficientHeldFunds)
                    } else {
                        a.adjust(0, -amount, -amount, t, true)
                    }
                } else {
                    Err(RuleViolation::NoDisputeFound)
                }
            },
        }
    }
}

/// A search that starts inside the sequence and finds something finds an element of
/// it that matches.
pub proof fn lemma_find_from_found(log: Seq<Transaction>, tx: i32, kind: TransactionType, i: int)
    requires
        0 <= i,
        find_from(log, tx, kind, i).is_some(),
    ensures
        exists|j: int|
            i <= j < log.len() && log[j] == find_from(log, tx, kind, i).unwrap() && is_match(
                log[j],
                tx,
                kind,
            ),
    decreases log.len() - i,
{
    if i < log.len() && !is_match(log[i], tx, kind) {
        lemma_find_from_found(log, tx, kind, i + 1);
    }
}

/// Appending to the sequence changes a search only where it found nothing before.
pub proof fn lemma_find_from_push(
    log: Seq<Transaction>,
    t: Transaction,
    tx: i32,
    kind: TransactionType,
    i: int,
)
    requires
        0 <= i <= log.len(),
    ensures
        find_from(log.push(t), tx, kind, i) == (if find_from(log, tx, kind, i).is_some() {
            find_from(log, tx, kind, i)
        } else if is_match(t, tx, kind) {
            Some(t)
        } else {
            None
        }),
    decreases log.len() - i,
{
    if i < log.len() {
        assert(log.push(t)[i] == log[i]);
        lemma_find_from_push(log, t, tx, kind, i + 1);
    } else {
        assert(log.push(t)[i] == t);
        assert(find_from(log.push(t), tx, kind, i + 1).is_none());
    }
}

/// Recording a well-formed transaction keeps the history well formed, provided a
/// recorded dispute refers to a deposit already there.
pub proof fn lemma_push_keeps_wf(a: AccountView, t: Transaction)
    requires
        a.wf(),
        t.well_formed(),
        t.transaction_type == TransactionType::DISPUTE ==> find(
            a.log,
            t.tx,
            TransactionType::DEPOSIT,
        ).is_some(),
    ensures
        (AccountView { log: a.log.push(t), ..a }).wf(),
{
    let log2 = a.log.push(t);
    assert forall|i: int| 0 <= i < log2.len() implies #[trigger] log2[i].well_formed() by {
        if i < a.log.len() {
            assert(log2[i] == a.log[i]);
        }
    }
    assert forall|i: int|
        0 <= i < log2.len() && #[trigger] log2[i].transaction_type
            == TransactionType::DISPUTE implies find(
        log2,
        log2[i].tx,
        TransactionType::DEPOSIT,
    ).is_some() by {
        if i < a.log.len() {
            assert(log2[i] == a.log[i]);
        }
        lemma_find_from_push(a.log, t, log2[i].tx, TransactionType::DEPOSIT, 0);
    }
}

/// Where the history is well formed, a dispute found in it has its deposit there, and
/// that deposit carries an amount.
pub proof fn lemma_dispute_has_deposit(a: AccountView, tx: i32)
    requires
        a.wf(),
        find(a.log, tx, TransactionType::DISPUTE).is_some(),
    ensures
        find(a.log, tx, TransactionType::DEPOSIT).is_some(),
{
    lemma_find_from_found(a.log, tx, TransactionType::DISPUTE, 0);
    let j = choose|j: int|
        0 <= j < a.log.len() && a.log[j] == find(a.log, tx, TransactionType::DISPUTE).unwrap()
            && is_match(a.log[j], tx, TransactionType::DISPUTE);
    assert(a.log[j].transaction_type == TransactionType::DISPUTE);
}

/// A deposit found in a well-formed history carries an amount.
pub proof fn lemma_found_deposit_has_amount(a: AccountView, tx: i32)
    requires
        a.wf(),
        find(a.log, tx, TransactionType::DEPOSIT).is_some(),
    ensures
        find(a.log, tx, TransactionType::DEPOSIT).unwrap().amount.is_some(),
{
    lemma_find_from_found(a.log, tx, TransactionType::DEPOSIT, 0);
    let j = choose|j: int|
        0 <= j < a.log.len() && a.log[j] == find(a.log, tx, TransactionType::DEPOSIT).unwrap()
            && is_match(a.log[j], tx, TransactionType::DEPOSIT);
    assert(a.log[j].well_formed());
}

/// The kind of earlier transaction that a transaction of kind `kind` refers to.
fn antecedent_of(kind: TransactionType) -> (r: Option<TransactionType>)
    ensures
        r == antecedent(kind),
{
    match kind {
        TransactionType::DISPUTE => Some(TransactionType::DEPOSIT),
        TransactionType::RESOLVE => Some(TransactionType::DISPUTE),
        TransactionType::CHARGEBACK => Some(TransactionType::DISPUTE),
        TransactionType::DEPOSIT => None,
        TransactionType::WITHDRAWAL => None,
    }
}

/// Looks up, by a linear scan in insertion order, the first transaction of
/// `transactions` with id `tx` and of the kind that `transaction_type` refers to.
fn extract_transaction(
    transactions: &Vec<Transaction>,
    tx: i32,
    transaction_type: TransactionType,
) -> (r: Option<Transaction>)
    requires
        antecedent(transaction_type).is_some(),
    ensures
        r == find(transactions@, tx, antecedent(transaction_type).unwrap()),
        match r {
            Some(t) => is_match(t, tx, antecedent(transaction_type).unwrap()),
            None => true,
        },
{
    let allowed_category = antecedent_of(transaction_type).unwrap();
    let ghost kind = antecedent(transaction_type).unwrap();
    let mut i: usize = 0;
    while i < transactions.len()
        invariant
            i <= transactions@.len(),
            allowed_category == kind,
            kind == antecedent(transaction_type).unwrap(),
            find(transactions@, tx, kind) == find_from(transactions@, tx, kind, i as int),
        decreases transactions@.len() - i,
    {
        let logged_transaction = transactions[i];
        assert(transactions@[i as int] == logged_transaction);
        assert(find_from(transactions@, tx, kind, i as int) == if is_match(
            logged_transaction,
            tx,
            kind,
        ) {
            Some(logged_transaction)
        } else {
            find_from(transactions@, tx, kind, i as int + 1)
        });
        if logged_transaction.tx == tx && logged_transaction.transaction_type == allowed_category {
            return Some(logged_transaction);
        }
        i = i + 1;
    }
    None
}

impl Clone for Account {
    /// A copy with the same balances, lock and history.
    fn clone(&self) -> (r: Self)
        ensures
            r@ == self@,
    {
        let mut transaction_log: Vec<Transaction> = Vec::new();
        let mut i: usize = 0;
        while i < self.transaction_log.len()
            invariant
                i <= self.transaction_log@.len(),
                transaction_log@ == self.transaction_log@.subrange(0, i as int),
            decreases self.transaction_log@.len() - i,
        {
            transaction_log.push(self.transaction_log[i]);
            i = i + 1;
        }
        assert(transaction_log@ =~= self.transaction_log@);
        Account {
            id: self.id,
            amount_available: self.amount_available,
            amount_held: self.amount_held,
            total: self.total,
            locked: self.locked,
            transaction_log,
        }
    }
}

impl Account {
    /// A new account for client `id`: zero balances, unlocked, empty history.
    pub fn new(id: i32) -> (r: Account)
        ensures
            r@ == AccountView::fresh(id),
            r@.wf(),
    {
        let transaction_log: Vec<Transaction> = Vec::new();
        let r = Account {
            id,
            transaction_log,
            amount_available: 0,
            amount_held: 0,
            total: 0,
            locked: false,
        };
        assert(r@.log =~= Seq::empty());
        r
    }

    /// Moves the balances by the given differences, records `transaction` and sets
    /// the lock to `lock`.
    fn adjust(
        self,
        d_available: i128,
        d_held: i128,
        d_total: i128,
        transaction: Transaction,
        lock: bool,
    ) -> (r: Result<Account, RuleViolation>)
        requires
            -(u64::MAX as int) <= d_available <= u64::MAX,
            -(u64::MAX as int) <= d_held <= u64::MAX,
            -(u64::MAX as int) <= d_total <= u64::MAX,
        ensures
            match r {
                Ok(a) => self@.adjust(
                    d_available as int,
                    d_held as int,
                    d_total as int,
                    transaction,
                    lock,
                ) == Ok::<AccountView, RuleViolation>(a@),
                Err(e) => self@.adjust(
                    d_available as int,
                    d_held as int,
                    d_total as int,
                    transaction,
                    lock,
                ) == Err::<AccountView, RuleViolation>(e),
            },
    {
        let available = self.amount_available as i128 + d_available;
        let held = self.amount_held as i128 + d_held;
        let total = self.total as i128 + d_total;
        if available < i64::MIN as i128 || available > i64::MAX as i128 || held < i64::MIN as i128
            || held > i64::MAX as i128 || total < i64::MIN as i128 || total > i64::MAX as i128 {
            return Err(RuleViolation::BalanceOverflow);
        }
        let mut account = self;
        account.amount_available = available as i64;
        account.amount_held = held as i64;
        account.total = total as i64;
        account.locked = lock;
        account.transaction_log.push(transaction);
        Ok(account)
    }

    /// Applies `transaction` to the account: the next state of the account, or the
    /// rule that refuses the transaction.
    ///
    /// The transaction must belong to this account; routing it is the caller's task.
    pub fn add_transaction(self, transaction: Transaction) -> (r: Result<Account, RuleViolation>)
        requires
            self@.wf(),
            transaction.well_formed(),
            transaction.client == self.id,
        ensures
            match r {
                Ok(a) => apply(self@, transaction) == Ok::<AccountView, RuleViolation>(a@)
                    && a@.wf(),
                Err(e) => apply(self@, transaction) == Err::<AccountView, RuleViolation>(e),
            },
            self@.balanced() ==> match r {
                Ok(a) => a@.balanced(),
                Err(_) => true,
            },
    {
        if self.locked {
            return Err(RuleViolation::AccountLocked);
        }
        let tx = transaction.tx;
        proof {
            if transaction.transaction_type != TransactionType::DISPUTE {
                lemma_push_keeps_wf(self@, transaction);
            }
        }
        match transaction.transaction_type {
            TransactionType::CHARGEBACK => {
                let dispute = extract_transaction(
                    &self.transaction_log,
                    tx,
                    transaction.transaction_type,
                );
                match dispute {
                    None => Err(RuleViolation::NoDisputeFound),
                    Some(dispute_transaction) => {
                        proof {
                            lemma_dispute_has_deposit(self@, tx);
                            lemma_found_deposit_has_amount(self@, tx);
                        }
                        let disputed_transaction = extract_transaction(
                            &self.transaction_log,
                            tx,
                            dispute_transaction.transaction_type,
                        ).unwrap();
                        let amount = disputed_transaction.amount.unwrap();
                        if self.amount_held < amount {
                            return Err(RuleViolation::InsufficientHeldFunds);
                        }
                        self.adjust(0, -(amount as i128), -(amount as i128), transaction, true)
                    },
                }
            },
            TransactionType::DEPOSIT => {
                let amount = transaction.amount.unwrap();
                self.adjust(amount as i128, 0, amount as i128, transaction, false)
            },
            TransactionType::WITHDRAWAL => {
                let amount = transaction.amount.unwrap();
                if amount > self.amount_available {
                    return Err(RuleViolation::InsufficientFunds);
                }
                self.adjust(-(amount as i128), 0, -(amount as i128), transaction, false)
            },
            TransactionType::DISPUTE => {
                let disputed_transaction = extract_transaction(
                    &self.transaction_log,
                    tx,
                    transaction.transaction_type,
                );
                match disputed_transaction {
                    Some(inner_transaction) => {
                        proof {
                            lemma_found_deposit_has_amount(self@, tx);
                            lemma_push_keeps_wf(self@, transaction);
                        }
                        let amount = inner_transaction.amount.unwrap();
                        self.adjust(-(amount as i128), amount as i128, 0, transaction, false)
                    },
                    None => Ok(self),
                }
            },
            TransactionType::RESOLVE => {
                let logged_dispute = extract_transaction(
                    &self.transaction_log,
                    tx,
                    transaction.transaction_type,
                );
                match logged_dispute {
                    Some(inner_transaction) => {
                        proof {
                            lemma_dispute_has_deposit(self@, tx);
                            lemma_found_deposit_has_amount(self@, tx);
                        }
                        let disputed_transaction = extract_transaction(
                            &self.transaction_log,
                            tx,
                            inner_transaction.transaction_type,
                        ).unwrap();
                        let amount = disputed_transaction.amount.unwrap();
                        self.adjust(amount as i128, -(amount as i128), 0, transaction, false)
                    },
                    None => Ok(self),
                }
            },
        }
    }
}

} // verus!
