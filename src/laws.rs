//! Properties of the account rules and of the ledger, proved over the models that
//! `Account::add_transaction` and `AccountMap::add_transaction` follow.
use vstd::prelude::*;

use crate::account::{
    apply, find, fits_i64, lemma_find_from_push, AccountView, RuleViolation,
};
use crate::account_map::{ledger_apply, LedgerView};
use crate::transaction::{Transaction, TransactionType};

verus! {

/// The account reached from `a` by applying each of `txs` in order, where a refused
/// transaction leaves the account as it was.
pub open spec fn replay(a: AccountView, txs: Seq<Transaction>) -> AccountView
    decreases txs.len(),
{
    if txs.len() == 0 {
        a
    } else {
        let prev = replay(a, txs.drop_last());
        match apply(prev, txs.last()) {
            Ok(next) => next,
            Err(_) => prev,
        }
    }
}

/// A deposit or a withdrawal.
pub open spec fn is_cash(t: Transaction) -> bool {
    t.transaction_type == TransactionType::DEPOSIT || t.transaction_type
        == TransactionType::WITHDRAWAL
}

proof fn lemma_cash_replay(a: AccountView, txs: Seq<Transaction>)
    requires
        a.balanced(),
        a.held == 0,
        forall|i: int| 0 <= i < txs.len() ==> is_cash(#[trigger] txs[i]),
    ensures
        replay(a, txs).balanced(),
        replay(a, txs).held == 0,
    decreases txs.len(),
{
    if txs.len() > 0 {
        let init = txs.drop_last();
        assert forall|i: int| 0 <= i < init.len() implies is_cash(#[trigger] init[i]) by {
            assert(init[i] == txs[i]);
        }
        lemma_cash_replay(a, init);
        assert(is_cash(txs[txs.len() - 1]));
    }
}

/// Through any sequence of deposits and withdrawals, an account that starts balanced
/// with nothing held stays so after every step: `total == available + held` and
/// `held == 0`.
pub proof fn lemma_cash_only_keeps_balance(a: AccountView, txs: Seq<Transaction>)
    requires
        a.balanced(),
        a.held == 0,
        forall|i: int| 0 <= i < txs.len() ==> is_cash(#[trigger] txs[i]),
    ensures
        forall|n: int|
            0 <= n <= txs.len() ==> (#[trigger] replay(a, txs.take(n))).balanced() && replay(
                a,
                txs.take(n),
            ).held == 0,
{
    assert forall|n: int| 0 <= n <= txs.len() implies (#[trigger] replay(
        a,
        txs.take(n),
    )).balanced() && replay(a, txs.take(n)).held == 0 by {
        let pre = txs.take(n);
        assert forall|i: int| 0 <= i < pre.len() implies is_cash(#[trigger] pre[i]) by {
            assert(pre[i] == txs[i]);
        }
        lemma_cash_replay(a, pre);
    }
}

/// Depositing `a` under a fresh id and then disputing that id moves `a` from
/// available to held, leaves the total as it was and the account unlocked.
pub proof fn lemma_deposit_then_dispute(acct: AccountView, deposit: Transaction, dispute: Transaction)
    requires
        acct.in_range(),
        !acct.locked,
        deposit.transaction_type == TransactionType::DEPOSIT,
        deposit.amount.is_some(),
        deposit.amount_value() >= 0,
        dispute.transaction_type == TransactionType::DISPUTE,
        dispute.tx == deposit.tx,
        find(acct.log, deposit.tx, TransactionType::DEPOSIT).is_none(),
        fits_i64(acct.available + deposit.amount_value()),
        fits_i64(acct.held + deposit.amount_value()),
        fits_i64(acct.total + deposit.amount_value()),
    ensures
        apply(acct, deposit) is Ok,
        apply(apply(acct, deposit)->Ok_0, dispute) is Ok,
        ({
            let a1 = apply(acct, deposit)->Ok_0;
            let a2 = apply(a1, dispute)->Ok_0;
            &&& a2.available == a1.available - deposit.amount_value()
            &&& a2.held == a1.held + deposit.amount_value()
            &&& a2.total == a1.total
            &&& !a2.locked
        }),
{
    lemma_find_from_push(acct.log, deposit, deposit.tx, TransactionType::DEPOSIT, 0);
}

/// Disputing an id with no deposit on record changes nothing: the dispute is
/// accepted, and the account, its history included, stays as it was.
pub proof fn lemma_dispute_without_deposit(acct: AccountView, dispute: Transaction)
    requires
        !acct.locked,
        dispute.transaction_type == TransactionType::DISPUTE,
        find(acct.log, dispute.tx, TransactionType::DEPOSIT).is_none(),
    ensures
        apply(acct, dispute) == Ok::<AccountView, RuleViolation>(acct),
{
}

/// In the ledger, a dispute of a client's id that has no deposit on record leaves
/// every account as it was, records no refusal and is logged as accepted.
pub proof fn lemma_ledger_dispute_without_deposit(l: LedgerView, dispute: Transaction)
    requires
        l.accounts.contains_key(dispute.client),
        !l.accounts[dispute.client].locked,
        dispute.transaction_type == TransactionType::DISPUTE,
        find(l.accounts[dispute.client].log, dispute.tx, TransactionType::DEPOSIT).is_none(),
    ensures
        ledger_apply(l, dispute).accounts == l.accounts,
        ledger_apply(l, dispute).rejected == l.rejected,
        ledger_apply(l, dispute).accepted == l.accepted.push(dispute),
{
    assert(l.accounts.insert(dispute.client, l.accounts[dispute.client]) =~= l.accounts);
}

/// A resolve after a dispute of a deposit moves exactly the held amount back to
/// available: the account returns to its balances before the dispute.
pub proof fn lemma_resolve_after_dispute(
    acct: AccountView,
    dispute: Transaction,
    resolve: Transaction,
)
    requires
        acct.in_range(),
        !acct.locked,
        dispute.transaction_type == TransactionType::DISPUTE,
        resolve.transaction_type == TransactionType::RESOLVE,
        resolve.tx == dispute.tx,
        find(acct.log, dispute.tx, TransactionType::DEPOSIT).is_some(),
        fits_i64(acct.available - acct.deposit_amount(dispute.tx)),
        fits_i64(acct.held + acct.deposit_amount(dispute.tx)),
    ensures
        apply(acct, dispute) is Ok,
        apply(apply(acct, dispute)->Ok_0, resolve) is Ok,
        ({
            let amount = acct.deposit_amount(dispute.tx);
            let a1 = apply(acct, dispute)->Ok_0;
            let a2 = apply(a1, resolve)->Ok_0;
            &&& a1.available == acct.available - amount
            &&& a1.held == acct.held + amount
            &&& a2.available == a1.available + amount
            &&& a2.held == a1.held - amount
            &&& a2.total == acct.total
            &&& !a2.locked
        }),
{
    lemma_find_from_push(acct.log, dispute, dispute.tx, TransactionType::DEPOSIT, 0);
    lemma_find_from_push(acct.log, dispute, dispute.tx, TransactionType::DISPUTE, 0);
}

/// Resolving an id that is not under dispute changes nothing.
pub proof fn lemma_resolve_without_dispute(acct: AccountView, resolve: Transaction)
    requires
        !acct.locked,
        resolve.transaction_type == TransactionType::RESOLVE,
        find(acct.log, resolve.tx, TransactionType::DISPUTE).is_none(),
    ensures
        apply(acct, resolve) == Ok::<AccountView, RuleViolation>(acct),
{
}

/// A chargeback after a dispute of a deposit of a non-negative amount takes the
/// amount out of held and total and locks the account.
pub proof fn lemma_chargeback_after_dispute(
    acct: AccountView,
    dispute: Transaction,
    chargeback: Transaction,
)
    requires
        acct.in_range(),
        !acct.locked,
        acct.held >= 0,
        dispute.transaction_type == TransactionType::DISPUTE,
        chargeback.transaction_type == TransactionType::CHARGEBACK,
        chargeback.tx == dispute.tx,
        find(acct.log, dispute.tx, TransactionType::DEPOSIT).is_some(),
        acct.deposit_amount(dispute.tx) >= 0,
        fits_i64(acct.available - acct.deposit_amount(dispute.tx)),
        fits_i64(acct.held + acct.deposit_amount(dispute.tx)),
        fits_i64(acct.total - acct.deposit_amount(dispute.tx)),
    ensures
        apply(acct, dispute) is Ok,
        apply(apply(acct, dispute)->Ok_0, chargeback) is Ok,
        ({
            let amount = acct.deposit_amount(dispute.tx);
            let a1 = apply(acct, dispute)->Ok_0;
            let a2 = apply(a1, chargeback)->Ok_0;
            &&& a2.available == a1.available
            &&& a2.held == a1.held - amount
            &&& a2.total == a1.total - amount
            &&& a2.locked
        }),
{
    lemma_find_from_push(acct.log, dispute, dispute.tx, TransactionType::DEPOSIT, 0);
    lemma_find_from_push(acct.log, dispute, dispute.tx, TransactionType::DISPUTE, 0);
}

/// A locked account refuses every transaction with `AccountLocked`.
pub proof fn lemma_locked_refuses_all(acct: AccountView, t: Transaction)
    requires
        acct.locked,
    ensures
        apply(acct, t) == Err::<AccountView, RuleViolation>(RuleViolation::AccountLocked),
{
}

/// In the ledger, every transaction for a locked account is refused and logged as
/// refused, and the accounts stay as they were.
pub proof fn lemma_ledger_locked_refuses_all(l: LedgerView, t: Transaction)
    requires
        l.accounts.contains_key(t.client),
        l.accounts[t.client].locked,
    ensures
        apply(l.accounts[t.client], t) == Err::<AccountView, RuleViolation>(
            RuleViolation::AccountLocked,
        ),
        ledger_apply(l, t).accounts == l.accounts,
        ledger_apply(l, t).accepted == l.accepted,
        ledger_apply(l, t).rejected == l.rejected.push(t),
{
}

/// A chargeback of an id that is not under dispute is refused with
/// `NoDisputeFound`.
pub proof fn lemma_chargeback_without_dispute(acct: AccountView, chargeback: Transaction)
    requires
        !acct.locked,
        chargeback.transaction_type == TransactionType::CHARGEBACK,
        find(acct.log, chargeback.tx, TransactionType::DISPUTE).is_none(),
    ensures
        apply(acct, chargeback) == Err::<AccountView, RuleViolation>(
            RuleViolation::NoDisputeFound,
        ),
{
}

/// In the ledger, a chargeback of an id that is not under dispute is logged as
/// refused and leaves every account, its balances and its lock, as it was.
pub proof fn lemma_ledger_chargeback_without_dispute(l: LedgerView, chargeback: Transaction)
    requires
        !l.account_of(chargeback.client).locked,
        chargeback.transaction_type == TransactionType::CHARGEBACK,
        find(l.account_of(chargeback.client).log, chargeback.tx, TransactionType::DISPUTE).is_none(),
    ensures
        ledger_apply(l, chargeback).accounts == l.accounts,
        ledger_apply(l, chargeback).accepted == l.accepted,
        ledger_apply(l, chargeback).rejected == l.rejected.push(chargeback),
{
}

/// Every transaction handed to the ledger ends up in exactly one of its two logs.
pub proof fn lemma_logged_exactly_once(l: LedgerView, t: Transaction)
    ensures
        ledger_apply(l, t).accepted == l.accepted.push(t) && ledger_apply(l, t).rejected
            == l.rejected || ledger_apply(l, t).accepted == l.accepted && ledger_apply(
            l,
            t,
        ).rejected == l.rejected.push(t),
{
}

} // verus!
