//! The kinds of transaction and the transaction record itself.
use vstd::prelude::*;
use vstd::string::StringExecFns;

verus! {

/// The five kinds of operation a transaction can perform.
///
/// * `DEPOSIT`: a credit; raises the available and total funds.
/// * `WITHDRAWAL`: a debit; lowers the available and total funds.
/// * `DISPUTE`: a claim that an earlier deposit was erroneous.
/// * `RESOLVE`: ends a dispute, releasing the held funds.
/// * `CHARGEBACK`: ends a dispute by reversing the deposit and locking the account.
#[allow(non_camel_case_types)]
#[derive(Debug, PartialEq, Eq, Clone, Copy, Structural)]
pub enum TransactionType {
    DEPOSIT,
    WITHDRAWAL,
    DISPUTE,
    RESOLVE,
    CHARGEBACK,
}

/// The kind named by a keyword of the input, if the text is one of the five keywords
/// (exact, lowercase).
pub open spec fn keyword_kind(text: Seq<char>) -> Option<TransactionType> {
    if text == "deposit"@ {
        Some(TransactionType::DEPOSIT)
    } else if text == "withdrawal"@ {
        Some(TransactionType::WITHDRAWAL)
    } else if text == "dispute"@ {
        Some(TransactionType::DISPUTE)
    } else if text == "resolve"@ {
        Some(TransactionType::RESOLVE)
    } else if text == "chargeback"@ {
        Some(TransactionType::CHARGEBACK)
    } else {
        None
    }
}

impl TransactionType {
    /// Reads a kind from its keyword; `None` for any other text.
    pub fn parse(selection: &str) -> (r: Option<TransactionType>)
        ensures
            r == keyword_kind(selection@),
    {
        let text = String::from_str(selection);
        if text == String::from_str("deposit") {
            Some(TransactionType::DEPOSIT)
        } else if text == String::from_str("withdrawal") {
            Some(TransactionType::WITHDRAWAL)
        } else if text == String::from_str("dispute") {
            Some(TransactionType::DISPUTE)
        } else if text == String::from_str("resolve") {
            Some(TransactionType::RESOLVE)
        } else if text == String::from_str("chargeback") {
            Some(TransactionType::CHARGEBACK)
        } else {
            None
        }
    }

    /// Builds the kind named by `selection`, which must be one of the five keywords:
    /// any other text is malformed input that the caller rejects first.
    pub fn new(selection: String) -> (r: TransactionType)
        requires
            keyword_kind(selection@).is_some(),
        ensures
            keyword_kind(selection@) == Some(r),
    {
        TransactionType::parse(selection.as_str()).unwrap()
    }
}

/// One transaction of the stream.
///
/// `amount` is present for deposits and withdrawals; the dispute kinds refer to an
/// earlier deposit by `tx` and carry no amount of their own.
#[derive(Debug, Clone, Copy, PartialEq, Eq)]
pub struct Transaction {
    pub transaction_type: TransactionType,
    pub client: i32,
    pub tx: i32,
    pub amount: Option<i64>,
}

impl Transaction {
    /// A deposit or a withdrawal carries its amount.
    pub open spec fn well_formed(self) -> bool {
        (self.transaction_type == TransactionType::DEPOSIT || self.transaction_type
            == TransactionType::WITHDRAWAL) ==> self.amount.is_some()
    }

    /// The amount as an integer (zero where there is none).
    pub open spec fn amount_value(self) -> int {
        match self.amount {
            Some(a) => a as int,
            None => 0,
        }
    }
}

} // verus!
