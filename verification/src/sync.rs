//! The run that brings one bank account up to date: walk the feed for what
//! is new, then carry each new transaction to the ledger, newest first, and
//! stop at the first that the ledger does not create.
//!
//! The run does no talking itself. Whoever drives it asks `action` what to
//! do, does it, and hands back what came of it: a page of the feed to
//! `accept_page`, the answer of the ledger to `record`.

use crate::bank_api::{
    collect_new, lemma_nothing_new, start, step, walk_over, watermark_of, AkahuTransaction,
    AkahuTransactionResponse, BankAPI, PageRequest, PaginationWalker, Walk,
};
use crate::budget_api::{
    is_delivery_of, is_request_for, store_after, watermark_for, BudgetAPI, BudgetError, Delivery,
    SaveTransactionsResponse, SaveTransactionsWrapper,
};
use crate::settings::AccountSettings;
use crate::transaction_cache::{lemma_upsert, well_formed, TransactionCache, WatermarkRecord};
use vstd::prelude::*;
use vstd::string::*;

verus! {

/// What the driver of a run has to do next.
#[derive(Debug, PartialEq, Eq)]
pub enum SyncAction {
    /// Fetch a page of the feed: the first, or the one that the cursor leads
    /// to. Hand it to `accept_page`.
    Fetch(Option<String>),
    /// Ask the ledger to create this. Hand its answer to `record`.
    Create(SaveTransactionsWrapper),
    /// A dry run: report this, ask nothing of the ledger, and call `record`.
    Simulate(SaveTransactionsWrapper),
    /// Nothing: the run has ended.
    Done,
}

/// Where a run stands.
pub struct SyncState {
    /// The bank account.
    pub akahu_id: Seq<char>,
    /// The budget account that follows it.
    pub ynab_id: Seq<char>,
    /// Whether nothing is asked of the ledger.
    pub dry_run: bool,
    /// The walk over the feed.
    pub walk: Walk,
    /// How many of the collected transactions have been dealt with.
    pub next: int,
    /// Whether the ledger failed to create a transaction.
    pub stopped: bool,
}

/// The transaction that waits to be carried to the ledger.
pub open spec fn pending(sync: SyncState) -> Option<AkahuTransaction> {
    if sync.walk.finished && !sync.stopped && 0 <= sync.next < sync.walk.collected.len() {
        Some(sync.walk.collected[sync.next])
    } else {
        None
    }
}

/// The run after the answer for the pending transaction: one further where
/// the transaction was dealt with, stopped where the ledger did not create
/// it.
pub open spec fn recorded(sync: SyncState, delivered: Result<Delivery, BudgetError>) -> SyncState {
    match delivered {
        Ok(_) => SyncState { next: sync.next + 1, ..sync },
        Err(_) => SyncState { stopped: true, ..sync },
    }
}

/// The run that brings one bank account up to date.
pub struct AccountSync {
    account: AccountSettings,
    dry_run: bool,
    walker: PaginationWalker,
    next: usize,
    stopped: bool,
}

impl View for AccountSync {
    type V = SyncState;

    closed spec fn view(&self) -> SyncState {
        SyncState {
            akahu_id: self.account.akahu_id@,
            ynab_id: self.account.ynab_id@,
            dry_run: self.dry_run,
            walk: self.walker@,
            next: self.next as int,
            stopped: self.stopped,
        }
    }
}

impl AccountSync {
    /// A run for `account` that starts from the watermark which the store
    /// keeps for it.
    pub fn new(bank: &BankAPI, cache: &TransactionCache, account: AccountSettings, dry_run: bool) -> (sync:
        AccountSync)
        ensures
            sync@ == (SyncState {
                akahu_id: account.akahu_id@,
                ynab_id: account.ynab_id@,
                dry_run,
                walk: start(watermark_of(cache@, account.akahu_id@)),
                next: 0,
                stopped: false,
            }),
    {
        let walker = bank.walk(cache, account.akahu_id.as_str());
        AccountSync { account, dry_run, walker, next: 0, stopped: false }
    }

    /// What to do next.
    pub fn action(&self, budget: &BudgetAPI) -> (action: SyncAction)
        ensures
            match action {
                SyncAction::Fetch(cursor) => !self@.walk.finished && cursor.deep_view()
                    == self@.walk.cursor,
                SyncAction::Create(wrapper) => !self@.dry_run && (pending(self@) matches Some(
                    transaction,
                ) && is_request_for(wrapper, budget.rules(), self@.ynab_id, transaction)),
                SyncAction::Simulate(wrapper) => self@.dry_run && (pending(self@) matches Some(
                    transaction,
                ) && is_request_for(wrapper, budget.rules(), self@.ynab_id, transaction)),
                SyncAction::Done => self@.walk.finished && pending(self@) is None,
            },
    {
        match self.walker.request() {
            PageRequest::First => SyncAction::Fetch(None),
            PageRequest::After(cursor) => SyncAction::Fetch(Some(cursor)),
            PageRequest::Done => {
                let transactions = self.walker.transactions();
                if self.stopped || self.next >= transactions.len() {
                    SyncAction::Done
                } else {
                    let wrapper = budget.save_transaction(
                        self.account.ynab_id.as_str(),
                        &transactions[self.next],
                    );
                    if self.dry_run {
                        SyncAction::Simulate(wrapper)
                    } else {
                        SyncAction::Create(wrapper)
                    }
                }
            },
        }
    }

    /// Takes in the page that the feed gave for the last `Fetch`.
    pub fn accept_page(&mut self, page: AkahuTransactionResponse)
        ensures
            final(self)@ == (SyncState { walk: step(old(self)@.walk, page), ..old(self)@ }),
    {
        self.walker.accept(page);
    }

    /// Takes in what came of the last `Create` or `Simulate`: `reply` is the
    /// answer of the ledger, `None` where it gave none or was not asked.
    ///
    /// Where the ledger created the transaction, it becomes the watermark of
    /// the bank account in `cache`, and the run goes on to the next. Where it
    /// did not, the run stops, and the store stays as it is. Where no
    /// transaction was pending, nothing happens.
    pub fn record(
        &mut self,
        budget: &BudgetAPI,
        cache: &mut TransactionCache,
        reply: Option<SaveTransactionsResponse>,
    ) -> (delivered: Option<Result<Delivery, BudgetError>>)
        ensures
            match pending(old(self)@) {
                None => delivered is None && final(self)@ == old(self)@ && final(cache)@ == old(
                    cache,
                )@,
                Some(transaction) => delivered is Some && is_delivery_of(
                    delivered->0,
                    budget.rules(),
                    old(self)@.ynab_id,
                    transaction,
                    old(self)@.dry_run,
                    reply,
                ) && final(self)@ == recorded(old(self)@, delivered->0) && final(cache)@
                    == store_after(
                    old(cache)@,
                    old(self)@.ynab_id,
                    transaction,
                    old(self)@.dry_run,
                    reply,
                ),
            },
    {
        if !self.walker.is_finished() || self.stopped || self.next >= self.walker.transactions().len() {
            return None;
        }
        let delivered = budget.create_transaction_from_akahu_transaction(
            cache,
            self.account.ynab_id.as_str(),
            &self.walker.transactions()[self.next],
            self.dry_run,
            reply,
        );
        if delivered.is_ok() {
            self.next = self.next + 1;
        } else {
            self.stopped = true;
        }
        Some(delivered)
    }

    /// Whether a creation failed and stopped the run.
    pub fn is_stopped(&self) -> (stopped: bool)
        ensures
            stopped == self@.stopped,
    {
        self.stopped
    }
}

/// Idempotence: a run over a feed whose newest transaction is the watermark
/// has no transaction to carry to the ledger, so that nothing is created and
/// the store stays as it is.
pub proof fn lemma_run_with_nothing_new(
    sync: SyncState,
    pages: Seq<AkahuTransactionResponse>,
    watermark: Seq<char>,
)
    requires
        pages.len() > 0,
        pages[0].items@.len() > 0,
        pages[0].items@[0]._id@ == watermark,
        sync.walk == walk_over(start(Some(watermark)), pages),
    ensures
        pending(sync) is None,
{
    lemma_nothing_new(pages, watermark);
    assert(collect_new(pages, Some(watermark)).len() == 0);
}

/// The hazard of carrying the newest first: where the ledger creates
/// transaction `a` and then fails on the older `b`, the watermark of the
/// account is `a`, and the next walk over a feed that serves `a` first
/// collects nothing, so that `b` is not offered again.
pub proof fn lemma_failure_skips_the_older(
    records: Seq<WatermarkRecord>,
    account_id: Seq<char>,
    a: AkahuTransaction,
    b: AkahuTransaction,
    reply: SaveTransactionsResponse,
    pages: Seq<AkahuTransactionResponse>,
)
    requires
        well_formed(records),
        a.date.representable(),
        reply.data.transaction is Some,
        pages.len() > 0,
        pages[0].items@.len() > 0,
        pages[0].items@[0] == a,
    ensures
        ({
            let after_a = store_after(records, account_id, a, false, Some(reply));
            let after_b = store_after(after_a, account_id, b, false, None);
            &&& watermark_of(after_b, a._account@) == Some(a._id@)
            &&& collect_new(pages, watermark_of(after_b, a._account@)) == Seq::<
                AkahuTransaction,
            >::empty()
        }),
{
    let record = watermark_for(a, account_id, reply.data.transaction->0.id@);
    lemma_upsert(records, record);
    lemma_nothing_new(pages, a._id@);
}

} // verus!
