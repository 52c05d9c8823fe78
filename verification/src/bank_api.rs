//! The bank's transaction feed: what a page of it holds, and the walk over
//! its pages that collects the transactions newer than a watermark.

use crate::text::str_eq;
use crate::timestamp::Timestamp;
use crate::transaction_cache::{lookup, TransactionCache, WatermarkRecord};
use vstd::prelude::*;
use vstd::string::*;

verus! {

/// A group of categories, as the feed names it.
#[derive(Clone, Debug, PartialEq, Eq)]
pub struct AkahuCategoryGroup {
    pub _id: String,
    pub name: String,
}

/// The category that the feed gives a transaction.
#[derive(Clone, Debug, PartialEq, Eq)]
pub struct AkahuCategory {
    pub _id: String,
    pub name: String,
    /// The groups that the category belongs to, each under its key.
    pub groups: Vec<(String, AkahuCategoryGroup)>,
}

/// The merchant that the feed knows a transaction by.
#[derive(Clone, Debug, PartialEq, Eq)]
pub struct AkahuMerchant {
    pub _id: String,
    pub name: String,
}

/// One transaction as the feed reports it.
#[derive(Clone, Debug, PartialEq, Eq)]
pub struct AkahuTransaction {
    pub _id: String,
    pub _account: String,
    pub _user: String,
    pub _connection: String,
    pub created_at: Timestamp,
    pub updated_at: Timestamp,
    pub date: Timestamp,
    pub hash: String,
    pub description: String,
    /// The amount in thousandths of the currency unit, as the budget counts.
    pub amount: i64,
    pub kind: String,
    pub merchant: Option<AkahuMerchant>,
    pub category: Option<AkahuCategory>,
}

/// Where the feed goes on after a page.
#[derive(Clone, Debug, PartialEq, Eq)]
pub struct AkahuCursor {
    pub next: Option<String>,
}

/// One page of the feed, newest transaction first.
#[derive(Clone, Debug, PartialEq, Eq)]
pub struct AkahuTransactionResponse {
    pub cursor: Option<AkahuCursor>,
    pub items: Vec<AkahuTransaction>,
    pub success: bool,
}

/// Whether the transaction is not the one that the watermark names.
pub open spec fn is_new(transaction: AkahuTransaction, watermark: Option<Seq<char>>) -> bool {
    watermark != Some(transaction._id@)
}

/// Whether a scan of `items` from the front, for the watermark, stops before
/// item `k`: the items before it are new, and item `k`, if there is one, is
/// the watermark's.
pub open spec fn stops_at(items: Seq<AkahuTransaction>, watermark: Option<Seq<char>>, k: int) -> bool {
    &&& 0 <= k <= items.len()
    &&& forall|j: int| 0 <= j < k ==> is_new(#[trigger] items[j], watermark)
    &&& k < items.len() ==> !is_new(items[k], watermark)
}

/// How many items at the front of `items` are new.
pub open spec fn new_count(items: Seq<AkahuTransaction>, watermark: Option<Seq<char>>) -> int {
    choose|k: int| stops_at(items, watermark, k)
}

/// The cursor that leads on from `page`, if the feed has more.
pub open spec fn next_cursor(page: AkahuTransactionResponse) -> Option<Seq<char>> {
    match page.cursor {
        Some(cursor) => match cursor.next {
            Some(token) => Some(token@),
            None => None,
        },
        None => None,
    }
}

/// How far a walk over the feed has come.
pub struct Walk {
    /// The transaction at which the walk stops; `None` on a cold start.
    pub watermark: Option<Seq<char>>,
    /// The new transactions met so far, newest first.
    pub collected: Seq<AkahuTransaction>,
    /// The cursor of the page to ask for; `None` for the first page.
    pub cursor: Option<Seq<char>>,
    /// Whether the walk has ended.
    pub finished: bool,
}

/// The walk before its first page.
pub open spec fn start(watermark: Option<Seq<char>>) -> Walk {
    Walk { watermark, collected: Seq::empty(), cursor: None, finished: false }
}

/// The walk after `page` has come in: its new items are kept, and the walk
/// ends where the watermark was met or the feed has no further page. A page
/// that comes in after the end changes nothing.
pub open spec fn step(walk: Walk, page: AkahuTransactionResponse) -> Walk {
    if walk.finished {
        walk
    } else {
        let taken = new_count(page.items@, walk.watermark);
        let collected = walk.collected + page.items@.take(taken);
        if taken < page.items@.len() {
            Walk { collected, finished: true, ..walk }
        } else {
            match next_cursor(page) {
                Some(token) => Walk { collected, cursor: Some(token), ..walk },
                None => Walk { collected, finished: true, ..walk },
            }
        }
    }
}

/// The walk after `pages` have come in, in this order.
pub open spec fn walk_over(begin: Walk, pages: Seq<AkahuTransactionResponse>) -> Walk
    decreases pages.len(),
{
    if pages.len() == 0 {
        begin
    } else {
        step(walk_over(begin, pages.drop_last()), pages.last())
    }
}

/// The new transactions that a feed of `pages` holds for the watermark.
pub open spec fn collect_new(
    pages: Seq<AkahuTransactionResponse>,
    watermark: Option<Seq<char>>,
) -> Seq<AkahuTransaction> {
    walk_over(start(watermark), pages).collected
}

/// The watermark that `records` give for the account: the bank's name for
/// the last transaction that reached the budget.
pub open spec fn watermark_of(records: Seq<WatermarkRecord>, account_id: Seq<char>) -> Option<
    Seq<char>,
> {
    match lookup(records, account_id) {
        Some(record) => Some(record.akahu_transaction_id),
        None => None,
    }
}

/// A scan stops at one place only.
pub proof fn lemma_new_count(items: Seq<AkahuTransaction>, watermark: Option<Seq<char>>, k: int)
    requires
        stops_at(items, watermark, k),
    ensures
        new_count(items, watermark) == k,
{
    let chosen = new_count(items, watermark);
    assert(stops_at(items, watermark, chosen));
    if chosen < k {
        assert(is_new(items[chosen], watermark));
    } else if k < chosen {
        assert(is_new(items[k], watermark));
    }
}

/// The items of all `pages`, in the order in which the feed serves them.
pub open spec fn items_of(pages: Seq<AkahuTransactionResponse>) -> Seq<AkahuTransaction>
    decreases pages.len(),
{
    if pages.len() == 0 {
        Seq::empty()
    } else {
        items_of(pages.drop_last()) + pages.last().items@
    }
}

/// A walk that has ended stays as it is, whatever pages come in.
pub proof fn lemma_finished_stays(walk: Walk, pages: Seq<AkahuTransactionResponse>)
    requires
        walk.finished,
    ensures
        walk_over(walk, pages) == walk,
    decreases pages.len(),
{
    if pages.len() > 0 {
        lemma_finished_stays(walk, pages.drop_last());
    }
}

/// A walk over `pages` is the walk over the first of them, carried on over
/// the rest.
pub proof fn lemma_walk_from_first(walk: Walk, pages: Seq<AkahuTransactionResponse>)
    requires
        pages.len() > 0,
    ensures
        walk_over(walk, pages) == walk_over(step(walk, pages[0]), pages.drop_first()),
    decreases pages.len(),
{
    if pages.len() == 1 {
        assert(pages.drop_last() =~= Seq::<AkahuTransactionResponse>::empty());
        assert(pages.drop_first() =~= Seq::<AkahuTransactionResponse>::empty());
        assert(walk_over(walk, pages.drop_last()) == walk);
    } else {
        lemma_walk_from_first(walk, pages.drop_last());
        assert(pages.drop_last().drop_first() =~= pages.drop_first().drop_last());
        assert(pages.drop_last()[0] == pages[0]);
        assert(pages.drop_first().last() == pages.last());
    }
}

/// Idempotence: where the newest transaction that the feed serves is the
/// watermark, nothing is new.
pub proof fn lemma_nothing_new(pages: Seq<AkahuTransactionResponse>, watermark: Seq<char>)
    requires
        pages.len() > 0,
        pages[0].items@.len() > 0,
        pages[0].items@[0]._id@ == watermark,
    ensures
        collect_new(pages, Some(watermark)) == Seq::<AkahuTransaction>::empty(),
{
    let begin = start(Some(watermark));
    lemma_new_count(pages[0].items@, Some(watermark), 0);
    let first = step(begin, pages[0]);
    assert(first.collected =~= Seq::<AkahuTransaction>::empty());
    lemma_walk_from_first(begin, pages);
    lemma_finished_stays(first, pages.drop_first());
}

/// Stop-scan: where the watermark is first met as item `k` of page `p`, and
/// every page before leads on to a next one, the walk collects the items of
/// the pages before `p` and the first `k` items of page `p`, and no more,
/// whatever pages follow.
pub proof fn lemma_stops_at_watermark(
    pages: Seq<AkahuTransactionResponse>,
    watermark: Seq<char>,
    p: int,
    k: int,
)
    requires
        0 <= p < pages.len(),
        0 <= k < pages[p].items@.len(),
        pages[p].items@[k]._id@ == watermark,
        forall|j: int| 0 <= j < k ==> (#[trigger] pages[p].items@[j])._id@ != watermark,
        forall|q: int, j: int|
            0 <= q < p && 0 <= j < pages[q].items@.len() ==> (#[trigger] pages[q].items@[j])._id@
                != watermark,
        forall|q: int| 0 <= q < p ==> next_cursor(#[trigger] pages[q]) is Some,
    ensures
        collect_new(pages, Some(watermark)) == items_of(pages.take(p)) + pages[p].items@.take(k),
{
    let mark = Some(watermark);
    let begin = start(mark);
    lemma_walks_on(pages, mark, p);
    let before = walk_over(begin, pages.take(p));
    lemma_new_count(pages[p].items@, mark, k);
    let at = step(before, pages[p]);
    assert(pages.take(p + 1).drop_last() =~= pages.take(p));
    assert(walk_over(begin, pages.take(p + 1)) == at);
    lemma_walk_split(begin, pages, p + 1);
    lemma_finished_stays(at, pages.skip(p + 1));
}

/// Cold start: without a watermark, and with every page but the last
/// leading on to a next one, the walk collects all that the feed holds.
pub proof fn lemma_cold_start_drains(pages: Seq<AkahuTransactionResponse>)
    requires
        forall|q: int| 0 <= q < pages.len() - 1 ==> next_cursor(#[trigger] pages[q]) is Some,
    ensures
        collect_new(pages, None) == items_of(pages),
{
    if pages.len() > 0 {
        let last = pages.len() - 1;
        let begin = start(None);
        lemma_walks_on(pages, None, last);
        lemma_new_count(pages[last].items@, None, pages[last].items@.len() as int);
        assert(pages.take(last).push(pages[last]) =~= pages);
        assert(pages.drop_last() =~= pages.take(last));
        assert(pages[last].items@.take(pages[last].items@.len() as int) =~= pages[last].items@);
    }
}

/// What a walk collects is new, and is what the feed served first, in the
/// order in which it served it.
pub proof fn lemma_collects_new_prefix(
    pages: Seq<AkahuTransactionResponse>,
    watermark: Option<Seq<char>>,
)
    ensures
        collect_new(pages, watermark).len() <= items_of(pages).len(),
        collect_new(pages, watermark) == items_of(pages).take(
            collect_new(pages, watermark).len() as int,
        ),
        forall|i: int|
            0 <= i < collect_new(pages, watermark).len() ==> is_new(
                #[trigger] collect_new(pages, watermark)[i],
                watermark,
            ),
{
    lemma_walk_shape(pages, watermark);
}

/// While no page holds the watermark and every page leads on, the walk goes
/// on and keeps all items.
proof fn lemma_walks_on(pages: Seq<AkahuTransactionResponse>, watermark: Option<Seq<char>>, p: int)
    requires
        0 <= p <= pages.len(),
        forall|q: int, j: int|
            0 <= q < p && 0 <= j < pages[q].items@.len() ==> is_new(
                #[trigger] pages[q].items@[j],
                watermark,
            ),
        forall|q: int| 0 <= q < p ==> next_cursor(#[trigger] pages[q]) is Some,
    ensures
        !walk_over(start(watermark), pages.take(p)).finished,
        walk_over(start(watermark), pages.take(p)).watermark == watermark,
        walk_over(start(watermark), pages.take(p)).collected == items_of(pages.take(p)),
    decreases p,
{
    if p == 0 {
        assert(pages.take(0) =~= Seq::<AkahuTransactionResponse>::empty());
    } else {
        lemma_walks_on(pages, watermark, p - 1);
        assert(pages.take(p).drop_last() =~= pages.take(p - 1));
        let page = pages[p - 1];
        assert(pages.take(p).last() == page);
        assert forall|j: int| 0 <= j < page.items@.len() implies is_new(
            #[trigger] page.items@[j],
            watermark,
        ) by {
            assert(is_new(pages[p - 1].items@[j], watermark));
        }
        lemma_new_count(page.items@, watermark, page.items@.len() as int);
        assert(page.items@.take(page.items@.len() as int) =~= page.items@);
    }
}

/// A walk over `pages` is the walk over the first `n` of them, carried on
/// over the rest.
proof fn lemma_walk_split(walk: Walk, pages: Seq<AkahuTransactionResponse>, n: int)
    requires
        0 <= n <= pages.len(),
    ensures
        walk_over(walk, pages) == walk_over(walk_over(walk, pages.take(n)), pages.skip(n)),
    decreases pages.len() - n,
{
    if n == pages.len() {
        assert(pages.take(n) =~= pages);
        assert(pages.skip(n) =~= Seq::<AkahuTransactionResponse>::empty());
    } else {
        lemma_walk_split(walk, pages, n + 1);
        assert(pages.take(n + 1).drop_last() =~= pages.take(n));
        assert(pages.take(n + 1).last() == pages[n]);
        lemma_walk_from_first(walk_over(walk, pages.take(n)), pages.skip(n));
        assert(pages.skip(n).drop_first() =~= pages.skip(n + 1));
        assert(pages.skip(n)[0] == pages[n]);
    }
}

/// What holds of a walk from the start after any pages.
proof fn lemma_walk_shape(pages: Seq<AkahuTransactionResponse>, watermark: Option<Seq<char>>)
    ensures
        walk_over(start(watermark), pages).watermark == watermark,
        walk_over(start(watermark), pages).collected.len() <= items_of(pages).len(),
        walk_over(start(watermark), pages).collected == items_of(pages).take(
            walk_over(start(watermark), pages).collected.len() as int,
        ),
        !walk_over(start(watermark), pages).finished ==> walk_over(
            start(watermark),
            pages,
        ).collected == items_of(pages),
        forall|i: int|
            0 <= i < walk_over(start(watermark), pages).collected.len() ==> is_new(
                #[trigger] walk_over(start(watermark), pages).collected[i],
                watermark,
            ),
    decreases pages.len(),
{
    if pages.len() > 0 {
        lemma_walk_shape(pages.drop_last(), watermark);
        let before = walk_over(start(watermark), pages.drop_last());
        let after = walk_over(start(watermark), pages);
        let page = pages.last();
        if before.finished {
            assert(after.collected =~= items_of(pages).take(after.collected.len() as int));
        } else {
            let taken = new_count(page.items@, watermark);
            lemma_scan_stops(page.items@, watermark);
            assert(after.collected =~= items_of(pages).take(after.collected.len() as int));
            assert(page.items@.take(page.items@.len() as int) =~= page.items@);
        }
    } else {
        assert(items_of(pages).take(0) =~= Seq::<AkahuTransaction>::empty());
    }
}

/// Every scan stops somewhere.
pub proof fn lemma_scan_stops(items: Seq<AkahuTransaction>, watermark: Option<Seq<char>>)
    ensures
        stops_at(items, watermark, new_count(items, watermark)),
{
    lemma_scan_stops_by(items, watermark, 0);
}

/// A scan that has found the first `k` items new stops at or after `k`.
proof fn lemma_scan_stops_by(items: Seq<AkahuTransaction>, watermark: Option<Seq<char>>, k: int)
    requires
        0 <= k <= items.len(),
        forall|j: int| 0 <= j < k ==> is_new(#[trigger] items[j], watermark),
    ensures
        exists|n: int| stops_at(items, watermark, n),
    decreases items.len() - k,
{
    if k == items.len() || !is_new(items[k], watermark) {
        assert(stops_at(items, watermark, k));
    } else {
        lemma_scan_stops_by(items, watermark, k + 1);
    }
}

/// How many items at the front of `items` differ from the watermark.
fn count_new(items: &Vec<AkahuTransaction>, watermark: &Option<String>) -> (k: usize)
    ensures
        k == new_count(items@, watermark.deep_view()),
        k <= items.len(),
{
    let ghost mark = watermark.deep_view();
    match watermark {
        None => {
            proof {
                lemma_new_count(items@, mark, items.len() as int);
            }
            items.len()
        },
        Some(id) => {
            let mut k: usize = 0;
            while k < items.len()
                invariant
                    k <= items.len(),
                    mark == Some(id@),
                    mark == watermark.deep_view(),
                    forall|j: int| 0 <= j < k ==> is_new(#[trigger] items@[j], mark),
                decreases items.len() - k,
            {
                if str_eq(items[k]._id.as_str(), id.as_str()) {
                    proof {
                        lemma_new_count(items@, mark, k as int);
                    }
                    return k;
                }
                k += 1;
            }
            proof {
                lemma_new_count(items@, mark, k as int);
            }
            k
        },
    }
}

/// The walk over the pages of the feed that collects the transactions newer
/// than a watermark. Whoever talks to the feed asks `request` what to fetch,
/// and hands each page to `accept`.
pub struct PaginationWalker {
    watermark: Option<String>,
    collected: Vec<AkahuTransaction>,
    cursor: Option<String>,
    finished: bool,
}

/// What the walk asks of the feed next.
#[derive(Clone, Debug, PartialEq, Eq)]
pub enum PageRequest {
    /// The first page.
    First,
    /// The page that this cursor leads to.
    After(String),
    /// Nothing: the walk has ended.
    Done,
}

impl View for PaginationWalker {
    type V = Walk;

    closed spec fn view(&self) -> Walk {
        Walk {
            watermark: self.watermark.deep_view(),
            collected: self.collected@,
            cursor: self.cursor.deep_view(),
            finished: self.finished,
        }
    }
}

impl PaginationWalker {
    /// A walk that stops at the transaction `watermark`; with `None` it goes
    /// through all that the feed holds.
    pub fn new(watermark: Option<String>) -> (walker: PaginationWalker)
        ensures
            walker@ == start(watermark.deep_view()),
    {
        PaginationWalker { watermark, collected: Vec::new(), cursor: None, finished: false }
    }

    /// What to ask of the feed next.
    pub fn request(&self) -> (next: PageRequest)
        ensures
            match next {
                PageRequest::Done => self@.finished,
                PageRequest::First => !self@.finished && self@.cursor is None,
                PageRequest::After(token) => !self@.finished && self@.cursor == Some(token@),
            },
    {
        if self.finished {
            PageRequest::Done
        } else {
            match &self.cursor {
                None => PageRequest::First,
                Some(token) => PageRequest::After(token.clone()),
            }
        }
    }

    /// Takes in the page that the feed gave for the last request.
    pub fn accept(&mut self, page: AkahuTransactionResponse)
        ensures
            final(self)@ == step(old(self)@, page),
    {
        if self.finished {
            return ;
        }
        let AkahuTransactionResponse { cursor, items, success: _ } = page;
        let mut items = items;
        let served = items.len();
        let taken = count_new(&items, &self.watermark);
        items.truncate(taken);
        self.collected.append(&mut items);
        if taken < served {
            self.finished = true;
        } else {
            match cursor {
                Some(AkahuCursor { next: Some(token) }) => {
                    self.cursor = Some(token);
                },
                _ => {
                    self.finished = true;
                },
            }
        }
    }

    /// Whether the walk has ended.
    pub fn is_finished(&self) -> (finished: bool)
        ensures
            finished == self@.finished,
    {
        self.finished
    }

    /// The new transactions met so far, newest first.
    pub fn transactions(&self) -> (transactions: &Vec<AkahuTransaction>)
        ensures
            transactions@ == self@.collected,
    {
        &self.collected
    }

    /// The new transactions met, newest first.
    pub fn into_transactions(self) -> (transactions: Vec<AkahuTransaction>)
        ensures
            transactions@ == self@.collected,
    {
        self.collected
    }
}

/// The address of the feed and the tokens that open it.
pub struct BankAPI {
    app_token: String,
    base_url: String,
    user_token: String,
}

impl BankAPI {
    /// The feed at its usual address, opened with these tokens.
    pub fn new(app_token: &str, user_token: &str) -> (bank: BankAPI)
        ensures
            bank.app_token()@ == app_token@,
            bank.user_token()@ == user_token@,
            bank.base_url()@ == "https://api.akahu.io/v1"@,
    {
        BankAPI {
            app_token: app_token.to_owned(),
            base_url: "https://api.akahu.io/v1".to_owned(),
            user_token: user_token.to_owned(),
        }
    }

    /// The token that names the application to the feed.
    pub closed spec fn spec_app_token(&self) -> String {
        self.app_token
    }

    /// The token that names the user to the feed.
    pub closed spec fn spec_user_token(&self) -> String {
        self.user_token
    }

    /// The address under which the feed answers.
    pub closed spec fn spec_base_url(&self) -> String {
        self.base_url
    }

    /// The token that names the application to the feed.
    #[verifier::when_used_as_spec(spec_app_token)]
    pub fn app_token(&self) -> (token: String)
        ensures
            token == self.spec_app_token(),
    {
        self.app_token.clone()
    }

    /// The token that names the user to the feed.
    #[verifier::when_used_as_spec(spec_user_token)]
    pub fn user_token(&self) -> (token: String)
        ensures
            token == self.spec_user_token(),
    {
        self.user_token.clone()
    }

    /// The address under which the feed answers.
    #[verifier::when_used_as_spec(spec_base_url)]
    pub fn base_url(&self) -> (url: String)
        ensures
            url == self.spec_base_url(),
    {
        self.base_url.clone()
    }

    /// What the `Authorization` header of a request to the feed holds.
    pub fn authorization(&self) -> (value: String)
        ensures
            value@ == "Bearer "@ + self.user_token()@,
    {
        let mut value = "Bearer ".to_owned();
        value.append(self.user_token.as_str());
        value
    }

    /// The address of a page of the account's transactions: the first page
    /// without a cursor, any other with the cursor that the page before gave.
    pub fn transactions_url(&self, account_id: &str, cursor: Option<&str>) -> (url: String)
        ensures
            url@ == self.base_url()@ + "/accounts/"@ + account_id@ + "/transactions"@ + (match cursor {
                Some(token) => "?cursor="@ + token@,
                None => Seq::<char>::empty(),
            }),
    {
        let mut url = self.base_url.clone();
        url.append("/accounts/");
        url.append(account_id);
        url.append("/transactions");
        match cursor {
            Some(token) => {
                url.append("?cursor=");
                url.append(token);
                assert(url@ =~= self.base_url()@ + "/accounts/"@ + account_id@ + "/transactions"@
                    + ("?cursor="@ + token@));
            },
            None => {
                assert(url@ =~= self.base_url()@ + "/accounts/"@ + account_id@ + "/transactions"@
                    + Seq::<char>::empty());
            },
        }
        url
    }

    /// The walk that collects what is new for the account: it stops at the
    /// transaction that the store remembers, or at none where the store has
    /// no record of the account.
    pub fn walk(&self, cache: &TransactionCache, account_id: &str) -> (walker: PaginationWalker)
        ensures
            walker@ == start(watermark_of(cache@, account_id@)),
    {
        let watermark = match cache.get_latest_transaction(account_id) {
            Ok(item) => Some(item.akahu_transaction_id),
            Err(_) => None,
        };
        PaginationWalker::new(watermark)
    }

    /// The transactions of the account that are newer than its watermark in
    /// the store, newest first, where the feed serves `pages` in this order.
    /// The pages after the one that ends the walk are not looked at.
    pub fn latest_transactions(
        &self,
        cache: &TransactionCache,
        account_id: &str,
        pages: Vec<AkahuTransactionResponse>,
    ) -> (transactions: Vec<AkahuTransaction>)
        ensures
            transactions@ == collect_new(pages@, watermark_of(cache@, account_id@)),
    {
        let mut walker = self.walk(cache, account_id);
        let ghost begin = walker@;
        let ghost served = pages@;
        for page in it: pages.into_iter()
            invariant
                it.seq() == served,
                walker@ == walk_over(begin, served.take(it.index())),
        {
            proof {
                assert(served.take(it.index() + 1).drop_last() =~= served.take(it.index()));
            }
            walker.accept(page);
        }
        assert(served.take(served.len() as int) =~= served);
        walker.into_transactions()
    }
}

} // verus!
