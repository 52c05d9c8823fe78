//! The budget ledger: what is asked of it for a bank transaction, and what
//! its answer means for the watermark store.

use crate::bank_api::AkahuTransaction;
use crate::payee::{find_payee, payee_of, rule_views, PayeeRule, PayeeRuleView};
use crate::transaction_cache::{
    lookup, upsert, TransactionCache, TransactionCacheItem, WatermarkRecord,
};
use vstd::prelude::*;
use vstd::string::*;

verus! {

/// Why a transaction did not reach the ledger.
#[derive(Debug, PartialEq, Eq)]
pub enum BudgetError {
    /// The ledger did not create the transaction.
    ApiError(String),
    /// Nothing was asked of the ledger.
    DryRun,
}

impl BudgetError {
    /// The error in words.
    pub fn to_string(&self) -> (text: String)
        ensures
            match self {
                BudgetError::DryRun => text@ == "DRY RUN"@,
                BudgetError::ApiError(message) => text@ == "BudgetAPI error: "@ + message@,
            },
    {
        match self {
            BudgetError::DryRun => "DRY RUN".to_owned(),
            BudgetError::ApiError(message) => {
                let mut text = "BudgetAPI error: ".to_owned();
                text.append(message.as_str());
                text
            },
        }
    }
}

/// Whether the ledger counts a transaction as cleared.
#[derive(Clone, Copy, Debug, PartialEq, Eq, Structural)]
pub enum Cleared {
    Cleared,
    Uncleared,
    Reconciled,
}

/// The flag that the ledger shows on a transaction.
#[derive(Clone, Copy, Debug, PartialEq, Eq, Structural)]
pub enum FlagColor {
    Red,
    Orange,
    Yellow,
    Green,
    Blue,
    Purple,
}

/// One transaction as the ledger is asked to create it.
#[derive(Clone, Debug, PartialEq, Eq)]
pub struct SaveTransaction {
    pub account_id: String,
    /// The calendar date, year first.
    pub date: String,
    /// The amount in thousandths of the currency unit.
    pub amount: i64,
    pub payee_id: Option<String>,
    pub payee_name: Option<String>,
    pub category_id: Option<String>,
    pub memo: Option<String>,
    pub cleared: Option<Cleared>,
    pub approved: Option<bool>,
    pub flag_color: Option<FlagColor>,
    pub import_id: Option<String>,
}

/// What is sent to the ledger: one transaction or several.
#[derive(Clone, Debug, PartialEq, Eq)]
pub struct SaveTransactionsWrapper {
    pub transaction: Option<SaveTransaction>,
    pub transactions: Option<Vec<SaveTransaction>>,
}

/// A transaction as the ledger reports it after creating it.
#[derive(Clone, Debug, PartialEq, Eq)]
pub struct TransactionDetail {
    pub id: String,
    pub date: String,
    pub amount: i64,
    pub account_id: String,
    pub payee_id: Option<String>,
    pub payee_name: Option<String>,
    pub memo: Option<String>,
}

/// What the answer of the ledger holds.
#[derive(Clone, Debug, PartialEq, Eq)]
pub struct SaveTransactionsResponseData {
    pub transaction_ids: Vec<String>,
    pub transaction: Option<TransactionDetail>,
    pub server_knowledge: i64,
}

/// The answer of the ledger to a `SaveTransactionsWrapper`.
#[derive(Clone, Debug, PartialEq, Eq)]
pub struct SaveTransactionsResponse {
    pub data: SaveTransactionsResponseData,
}

/// How a bank transaction fared on its way to the ledger.
#[derive(Debug, PartialEq, Eq)]
pub enum Delivery {
    /// The ledger created it, and this is the new watermark of its account.
    Created(TransactionCacheItem),
    /// A dry run: this would have been sent, and the store is as it was.
    Simulated(SaveTransactionsWrapper),
}

/// Whether `wrapper` is what the ledger is asked for the bank transaction:
/// one approved, uncleared transaction on `account_id`, with the amount, the
/// calendar date and the memo, and with the payee that the rules find in the
/// description, or else the description itself as the name of the payee.
pub open spec fn is_request_for(
    wrapper: SaveTransactionsWrapper,
    rules: Seq<PayeeRuleView>,
    account_id: Seq<char>,
    transaction: AkahuTransaction,
) -> bool {
    &&& wrapper.transactions is None
    &&& wrapper.transaction matches Some(asked)
    &&& asked.account_id@ == account_id
    &&& asked.amount == transaction.amount
    &&& asked.approved == Some(true)
    &&& asked.category_id is None
    &&& asked.cleared == Some(Cleared::Uncleared)
    &&& asked.date@ == transaction.date.calendar_date()
    &&& asked.flag_color is None
    &&& asked.import_id is None
    &&& asked.memo.deep_view() == Some("\u{1F916}"@)
    &&& asked.payee_id.deep_view() == payee_of(rules, transaction.description@)
    &&& asked.payee_name.deep_view() == if payee_of(rules, transaction.description@) is Some {
        None
    } else {
        Some(transaction.description@)
    }
}

/// The watermark that a bank transaction leaves once the ledger has created
/// it on `account_id` under the name `created_id`.
pub open spec fn watermark_for(
    transaction: AkahuTransaction,
    account_id: Seq<char>,
    created_id: Seq<char>,
) -> WatermarkRecord {
    WatermarkRecord {
        akahu_account_id: transaction._account@,
        akahu_transaction_id: transaction._id@,
        transaction_date: transaction.date,
        ynab_account_id: account_id,
        ynab_transaction_id: created_id,
    }
}

/// Whether `delivered` is what comes of carrying the bank transaction to the
/// ledger: in a dry run the request that would have been sent; otherwise the
/// new watermark where the ledger reports the transaction that it created, an
/// error where it gave no answer, and another where its answer names no
/// transaction.
pub open spec fn is_delivery_of(
    delivered: Result<Delivery, BudgetError>,
    rules: Seq<PayeeRuleView>,
    account_id: Seq<char>,
    transaction: AkahuTransaction,
    dry_run: bool,
    reply: Option<SaveTransactionsResponse>,
) -> bool {
    if dry_run {
        delivered matches Ok(Delivery::Simulated(wrapper)) && is_request_for(
            wrapper,
            rules,
            account_id,
            transaction,
        )
    } else {
        match reply {
            None => delivered matches Err(BudgetError::ApiError(message)) && message@
                == "Unable to create transaction."@,
            Some(response) => match response.data.transaction {
                None => delivered matches Err(BudgetError::ApiError(message)) && message@
                    == "No transaction detail available."@,
                Some(detail) => delivered matches Ok(Delivery::Created(item)) && item@
                    == watermark_for(transaction, account_id, detail.id@),
            },
        }
    }
}

/// The store after the bank transaction was carried to the ledger: with the
/// new watermark where the ledger created the transaction, and as it was in
/// every other case.
pub open spec fn store_after(
    records: Seq<WatermarkRecord>,
    account_id: Seq<char>,
    transaction: AkahuTransaction,
    dry_run: bool,
    reply: Option<SaveTransactionsResponse>,
) -> Seq<WatermarkRecord> {
    match reply {
        Some(response) => match response.data.transaction {
            Some(detail) => if dry_run {
                records
            } else {
                upsert(records, watermark_for(transaction, account_id, detail.id@))
            },
            None => records,
        },
        None => records,
    }
}

/// One budget of the ledger and the rules that find payees for it.
pub struct BudgetAPI {
    budget_id: String,
    payee_regex: Vec<PayeeRule>,
}

impl BudgetAPI {
    /// The budget `budget_id` with its payee rules, which are tried in the
    /// order given.
    pub fn new(budget_id: &str, payee_regex: Vec<PayeeRule>) -> (budget: BudgetAPI)
        ensures
            budget.id() == budget_id@,
            budget.rules() == rule_views(payee_regex@),
    {
        BudgetAPI { budget_id: budget_id.to_owned(), payee_regex }
    }

    /// The name of the budget.
    pub closed spec fn id(&self) -> Seq<char> {
        self.budget_id@
    }

    /// The payee rules, in the order in which they are tried.
    pub closed spec fn rules(&self) -> Seq<PayeeRuleView> {
        rule_views(self.payee_regex@)
    }

    /// The name of the budget.
    pub fn budget_id(&self) -> (id: &str)
        ensures
            id@ == self.id(),
    {
        self.budget_id.as_str()
    }

    /// The payee of the first rule whose pattern matches `details`.
    pub fn find_payee_id(&self, details: &str) -> (payee: Option<String>)
        ensures
            payee.deep_view() == payee_of(self.rules(), details@),
    {
        find_payee(&self.payee_regex, details)
    }

    /// What the ledger is asked for the bank transaction.
    pub fn save_transaction(&self, account_id: &str, akahu_transaction: &AkahuTransaction) -> (wrapper:
        SaveTransactionsWrapper)
        ensures
            is_request_for(wrapper, self.rules(), account_id@, *akahu_transaction),
    {
        let payee_id = self.find_payee_id(akahu_transaction.description.as_str());
        // Only use a name if no id matched
        let payee_name = match payee_id {
            Some(_) => None,
            None => Some(akahu_transaction.description.clone()),
        };
        SaveTransactionsWrapper {
            transaction: Some(
                SaveTransaction {
                    account_id: account_id.to_owned(),
                    amount: akahu_transaction.amount,
                    approved: Some(true),
                    category_id: None,
                    cleared: Some(Cleared::Uncleared),
                    date: akahu_transaction.date.to_calendar_date(),
                    flag_color: None,
                    import_id: None,
                    memo: Some("\u{1F916}".to_owned()),
                    payee_id,
                    payee_name,
                },
            ),
            transactions: None,
        }
    }

    /// What comes of asking the ledger to create a transaction: in a dry run
    /// nothing is asked; otherwise `reply` is the answer of the ledger, `None`
    /// where it gave none.
    pub fn create_transaction(&self, dry_run: bool, reply: Option<SaveTransactionsResponse>) -> (created:
        Result<SaveTransactionsResponse, BudgetError>)
        ensures
            dry_run ==> created == Err::<SaveTransactionsResponse, BudgetError>(BudgetError::DryRun),
            !dry_run ==> match reply {
                Some(response) => created == Ok::<SaveTransactionsResponse, BudgetError>(response),
                None => created matches Err(BudgetError::ApiError(message)) && message@
                    == "Unable to create transaction."@,
            },
    {
        if dry_run {
            return Err(BudgetError::DryRun);
        }
        match reply {
            Some(response) => Ok(response),
            None => Err(BudgetError::ApiError("Unable to create transaction.".to_owned())),
        }
    }

    /// Carries one bank transaction to the ledger and, where the ledger
    /// created it, makes it the watermark of its bank account.
    ///
    /// `reply` is the answer of the ledger to `save_transaction` for the same
    /// arguments, `None` where it gave none; in a dry run it is not looked at,
    /// and the store stays as it was.
    pub fn create_transaction_from_akahu_transaction(
        &self,
        cache: &mut TransactionCache,
        account_id: &str,
        akahu_transaction: &AkahuTransaction,
        dry_run: bool,
        reply: Option<SaveTransactionsResponse>,
    ) -> (delivered: Result<Delivery, BudgetError>)
        ensures
            is_delivery_of(
                delivered,
                self.rules(),
                account_id@,
                *akahu_transaction,
                dry_run,
                reply,
            ),
            final(cache)@ == store_after(
                old(cache)@,
                account_id@,
                *akahu_transaction,
                dry_run,
                reply,
            ),
            delivered matches Ok(Delivery::Created(item)) ==> lookup(
                final(cache)@,
                akahu_transaction._account@,
            ) == Some(item@),
    {
        let response = match self.create_transaction(dry_run, reply) {
            Ok(response) => response,
            Err(BudgetError::DryRun) => {
                let wrapper = self.save_transaction(account_id, akahu_transaction);
                return Ok(Delivery::Simulated(wrapper));
            },
            Err(error) => {
                return Err(error);
            },
        };
        let detail = match response.data.transaction {
            Some(detail) => detail,
            None => {
                return Err(BudgetError::ApiError("No transaction detail available.".to_owned()));
            },
        };
        let latest_transaction = TransactionCacheItem {
            akahu_account_id: akahu_transaction._account.clone(),
            akahu_transaction_id: akahu_transaction._id.clone(),
            transaction_date: akahu_transaction.date,
            ynab_account_id: account_id.to_owned(),
            ynab_transaction_id: detail.id,
        };
        cache.set_latest_transaction(&latest_transaction);
        Ok(Delivery::Created(latest_transaction))
    }
}

} // verus!
