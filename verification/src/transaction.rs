//! One line of a bank statement.

use crate::day_month_year_format::StatementDate;
use crate::text::str_eq;
use vstd::prelude::*;
use vstd::string::*;

verus! {

/// Whether a statement line adds to the account or takes from it.
#[derive(Clone, Copy, Debug, PartialEq, Eq, Structural)]
pub enum TransactionType {
    Credit,
    Debit,
}

impl TransactionType {
    /// Reads `C` as a credit and `D` as a debit; any other text is refused,
    /// with a message that quotes it.
    pub fn from_str(s: &str) -> (read: Result<TransactionType, String>)
        ensures
            s@ == seq!['C'] ==> read == Ok::<TransactionType, String>(TransactionType::Credit),
            s@ == seq!['D'] ==> read == Ok::<TransactionType, String>(TransactionType::Debit),
            s@ != seq!['C'] && s@ != seq!['D'] ==> (read matches Err(message) && message@ == seq![
                '\'',
            ] + s@ + "' is not a valid value for TransactionType"@),
    {
        proof {
            reveal_strlit("C");
            reveal_strlit("D");
            reveal_strlit("'");
            assert("C"@ =~= seq!['C']);
            assert("D"@ =~= seq!['D']);
            assert("'"@ =~= seq!['\'']);
            assert(seq!['C'][0] != seq!['D'][0]);
        }
        if str_eq(s, "C") {
            Ok(TransactionType::Credit)
        } else if str_eq(s, "D") {
            Ok(TransactionType::Debit)
        } else {
            let mut message = "'".to_owned();
            message.append(s);
            message.append("' is not a valid value for TransactionType");
            Err(message)
        }
    }
}

impl std::str::FromStr for TransactionType {
    type Err = String;

    fn from_str(s: &str) -> (read: Result<TransactionType, String>)
        ensures
            s@ == seq!['C'] ==> read == Ok::<TransactionType, String>(TransactionType::Credit),
            s@ == seq!['D'] ==> read == Ok::<TransactionType, String>(TransactionType::Debit),
            s@ != seq!['C'] && s@ != seq!['D'] ==> (read matches Err(message) && message@ == seq![
                '\'',
            ] + s@ + "' is not a valid value for TransactionType"@),
    {
        TransactionType::from_str(s)
    }
}

/// One line of a bank statement.
#[derive(Clone, Debug, PartialEq, Eq)]
pub struct Transaction {
    pub amount: String,
    pub card: String,
    pub conversion_charge: String,
    pub details: String,
    pub foreign_currency_amount: String,
    pub processed_date: StatementDate,
    pub transaction_date: StatementDate,
    pub kind: TransactionType,
}

} // verus!
