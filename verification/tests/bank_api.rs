use ynabber::bank_api::{
    AkahuCursor, AkahuTransaction, AkahuTransactionResponse, BankAPI, PageRequest,
    PaginationWalker,
};
use ynabber::timestamp::Timestamp;
use ynabber::transaction_cache::{TransactionCache, TransactionCacheItem};

fn transaction(id: &str) -> AkahuTransaction {
    let date = Timestamp::new(1658145600, 0).unwrap();
    AkahuTransaction {
        _id: id.to_string(),
        _account: "acc_1".to_string(),
        _user: "user_1".to_string(),
        _connection: "conn_1".to_string(),
        created_at: date,
        updated_at: date,
        date,
        hash: format!("hash-{}", id),
        description: format!("PURCHASE {}", id),
        amount: -12_340,
        kind: "DEBIT".to_string(),
        merchant: None,
        category: None,
    }
}

fn page(ids: &[&str], next: Option<&str>) -> AkahuTransactionResponse {
    AkahuTransactionResponse {
        cursor: Some(AkahuCursor { next: next.map(|token| token.to_string()) }),
        items: ids.iter().map(|id| transaction(id)).collect(),
        success: true,
    }
}

fn cache_with(account: &str, transaction_id: &str) -> TransactionCache {
    let mut cache = TransactionCache::new();
    cache.set_latest_transaction(&TransactionCacheItem {
        akahu_account_id: account.to_string(),
        akahu_transaction_id: transaction_id.to_string(),
        transaction_date: Timestamp::new(1658145600, 0).unwrap(),
        ynab_account_id: "budget_1".to_string(),
        ynab_transaction_id: "created_1".to_string(),
    });
    cache
}

fn ids(transactions: &[AkahuTransaction]) -> Vec<String> {
    transactions.iter().map(|t| t._id.clone()).collect()
}

/// Walks a feed that serves `pages` in order, and counts the requests.
fn walk(watermark: Option<&str>, pages: Vec<AkahuTransactionResponse>) -> (Vec<String>, usize) {
    let mut walker = PaginationWalker::new(watermark.map(|id| id.to_string()));
    let mut feed = pages.into_iter();
    let mut requests = 0;
    let mut expected_cursor: Option<String> = None;
    loop {
        match walker.request() {
            PageRequest::Done => break,
            PageRequest::First => assert_eq!(expected_cursor, None),
            PageRequest::After(token) => assert_eq!(expected_cursor, Some(token)),
        }
        requests += 1;
        let served = feed.next().expect("the walk asked for a page that the feed does not have");
        expected_cursor = served.cursor.clone().and_then(|cursor| cursor.next);
        walker.accept(served);
    }
    (ids(&walker.into_transactions()), requests)
}

#[test]
fn pagination_stops_at_the_watermark() {
    let pages = vec![
        page(&["tx_1001", "tx_1000"], Some("page-2")),
        page(&["tx_999", "tx_998"], Some("page-3")),
        page(&["tx_997", "tx_996"], None),
    ];
    let (collected, requests) = walk(Some("tx_999"), pages.clone());
    assert_eq!(collected, vec!["tx_1001", "tx_1000"]);
    assert_eq!(requests, 2);

    let bank = BankAPI::new("app", "user");
    let latest = bank.latest_transactions(&cache_with("acc_1", "tx_999"), "acc_1", pages);
    assert_eq!(ids(&latest), vec!["tx_1001", "tx_1000"]);
}

#[test]
fn pagination_stops_in_the_middle_of_a_page() {
    let pages = vec![
        page(&["tx_5", "tx_4"], Some("page-2")),
        page(&["tx_3", "tx_2", "tx_1"], Some("page-3")),
    ];
    let (collected, requests) = walk(Some("tx_2"), pages);
    assert_eq!(collected, vec!["tx_5", "tx_4", "tx_3"]);
    assert_eq!(requests, 2);
}

#[test]
fn cold_start_drains_the_feed() {
    let pages = vec![
        page(&["tx_6", "tx_5"], Some("page-2")),
        page(&["tx_4", "tx_3"], Some("page-3")),
        page(&["tx_2", "tx_1"], None),
    ];
    let (collected, requests) = walk(None, pages.clone());
    assert_eq!(collected, vec!["tx_6", "tx_5", "tx_4", "tx_3", "tx_2", "tx_1"]);
    assert_eq!(requests, 3);

    let bank = BankAPI::new("app", "user");
    let latest = bank.latest_transactions(&TransactionCache::new(), "acc_1", pages);
    assert_eq!(latest.len(), 6);
    assert_eq!(latest[0], transaction("tx_6"));
    assert_eq!(latest[5], transaction("tx_1"));
}

#[test]
fn nothing_new_gives_nothing() {
    let pages = vec![
        page(&["tx_1001", "tx_1000"], Some("page-2")),
        page(&["tx_999", "tx_998"], None),
    ];
    let (collected, requests) = walk(Some("tx_1001"), pages.clone());
    assert!(collected.is_empty());
    assert_eq!(requests, 1);

    let bank = BankAPI::new("app", "user");
    let latest = bank.latest_transactions(&cache_with("acc_1", "tx_1001"), "acc_1", pages);
    assert!(latest.is_empty());
}

#[test]
fn a_watermark_that_the_feed_has_lost_gives_everything() {
    let pages = vec![page(&["tx_9", "tx_8"], Some("page-2")), page(&["tx_7"], None)];
    let (collected, requests) = walk(Some("tx_1"), pages);
    assert_eq!(collected, vec!["tx_9", "tx_8", "tx_7"]);
    assert_eq!(requests, 2);
}

#[test]
fn a_page_without_a_cursor_ends_the_walk() {
    let first = AkahuTransactionResponse {
        cursor: None,
        items: vec![transaction("tx_2"), transaction("tx_1")],
        success: true,
    };
    let (collected, requests) = walk(None, vec![first, page(&["tx_0"], None)]);
    assert_eq!(collected, vec!["tx_2", "tx_1"]);
    assert_eq!(requests, 1);
}

#[test]
fn an_empty_feed_gives_nothing() {
    let (collected, requests) = walk(Some("tx_1"), vec![page(&[], None)]);
    assert!(collected.is_empty());
    assert_eq!(requests, 1);
    let bank = BankAPI::new("app", "user");
    assert!(bank
        .latest_transactions(&TransactionCache::new(), "acc_1", Vec::new())
        .is_empty());
}

#[test]
fn the_watermark_of_another_account_is_not_used() {
    let pages = vec![page(&["tx_3", "tx_2", "tx_1"], None)];
    let bank = BankAPI::new("app", "user");
    let latest = bank.latest_transactions(&cache_with("acc_other", "tx_2"), "acc_1", pages);
    assert_eq!(ids(&latest), vec!["tx_3", "tx_2", "tx_1"]);
}

#[test]
fn a_finished_walk_ignores_further_pages() {
    let mut walker = PaginationWalker::new(Some("tx_2".to_string()));
    walker.accept(page(&["tx_3", "tx_2"], Some("page-2")));
    assert!(walker.is_finished());
    walker.accept(page(&["tx_1"], None));
    assert_eq!(walker.request(), PageRequest::Done);
    assert_eq!(ids(&walker.into_transactions()), vec!["tx_3"]);
}

#[test]
fn bank_addresses_its_pages() {
    let bank = BankAPI::new("app_token_1", "user_token_1");
    assert_eq!(bank.app_token(), "app_token_1");
    assert_eq!(bank.user_token(), "user_token_1");
    assert_eq!(bank.base_url(), "https://api.akahu.io/v1");
    assert_eq!(bank.authorization(), "Bearer user_token_1");
    assert_eq!(
        bank.transactions_url("acc_1", None),
        "https://api.akahu.io/v1/accounts/acc_1/transactions"
    );
    assert_eq!(
        bank.transactions_url("acc_1", Some("abc")),
        "https://api.akahu.io/v1/accounts/acc_1/transactions?cursor=abc"
    );
}
