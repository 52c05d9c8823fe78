use ynabber::bank_api::{AkahuCursor, AkahuTransaction, AkahuTransactionResponse, BankAPI};
use ynabber::budget_api::{
    BudgetAPI, BudgetError, Delivery, SaveTransactionsResponse, SaveTransactionsResponseData,
    SaveTransactionsWrapper, TransactionDetail,
};
use ynabber::payee::PayeeRule;
use ynabber::settings::AccountSettings;
use ynabber::sync::{AccountSync, SyncAction};
use ynabber::timestamp::Timestamp;
use ynabber::transaction_cache::{TransactionCache, TransactionCacheItem};

fn bank_transaction(id: &str, description: &str) -> AkahuTransaction {
    let date = Timestamp::new(1658145600, 0).unwrap();
    AkahuTransaction {
        _id: id.to_string(),
        _account: "acc_1".to_string(),
        _user: "user_1".to_string(),
        _connection: "conn_1".to_string(),
        created_at: date,
        updated_at: date,
        date,
        hash: "hash".to_string(),
        description: description.to_string(),
        amount: 4_500,
        kind: "CREDIT".to_string(),
        merchant: None,
        category: None,
    }
}

fn feed_page(ids: &[&str], next: Option<&str>) -> AkahuTransactionResponse {
    AkahuTransactionResponse {
        cursor: Some(AkahuCursor { next: next.map(|token| token.to_string()) }),
        items: ids.iter().map(|id| bank_transaction(id, "UNKNOWN MERCHANT 123")).collect(),
        success: true,
    }
}

fn account() -> AccountSettings {
    AccountSettings { akahu_id: "acc_1".to_string(), ynab_id: "ynab_acc_1".to_string() }
}

fn budget() -> BudgetAPI {
    BudgetAPI::new("budget_1", vec![PayeeRule::new("uber", "(?i)uber").unwrap()])
}

fn store_at(transaction_id: &str) -> TransactionCache {
    let mut cache = TransactionCache::new();
    cache.set_latest_transaction(&TransactionCacheItem {
        akahu_account_id: "acc_1".to_string(),
        akahu_transaction_id: transaction_id.to_string(),
        transaction_date: Timestamp::new(1658145600, 0).unwrap(),
        ynab_account_id: "ynab_acc_1".to_string(),
        ynab_transaction_id: "created_before".to_string(),
    });
    cache
}

/// What a run did, as its driver saw it.
struct Seen {
    fetched: Vec<Option<String>>,
    sent: Vec<SaveTransactionsWrapper>,
    simulated: Vec<SaveTransactionsWrapper>,
    error: Option<BudgetError>,
}

/// Drives a run against a feed that serves `pages` in order and a ledger
/// that creates every transaction but the ones at the places in `failing`.
fn drive(
    cache: &mut TransactionCache,
    pages: Vec<AkahuTransactionResponse>,
    failing: &[usize],
    dry_run: bool,
) -> Seen {
    let bank = BankAPI::new("app", "user");
    let budget = budget();
    let mut sync = AccountSync::new(&bank, cache, account(), dry_run);
    let mut feed = pages.into_iter();
    let mut seen = Seen { fetched: vec![], sent: vec![], simulated: vec![], error: None };
    loop {
        match sync.action(&budget) {
            SyncAction::Done => break,
            SyncAction::Fetch(cursor) => {
                seen.fetched.push(cursor);
                sync.accept_page(feed.next().expect("the feed has no such page"));
            }
            SyncAction::Create(wrapper) => {
                let place = seen.sent.len();
                seen.sent.push(wrapper);
                let reply = if failing.contains(&place) {
                    None
                } else {
                    Some(SaveTransactionsResponse {
                        data: SaveTransactionsResponseData {
                            transaction_ids: vec![format!("created_{}", place)],
                            transaction: Some(TransactionDetail {
                                id: format!("created_{}", place),
                                date: "2022-07-18".to_string(),
                                amount: 4_500,
                                account_id: "ynab_acc_1".to_string(),
                                payee_id: None,
                                payee_name: None,
                                memo: None,
                            }),
                            server_knowledge: 1,
                        },
                    })
                };
                match sync.record(&budget, cache, reply) {
                    Some(Ok(Delivery::Created(_))) => {}
                    Some(Err(error)) => seen.error = Some(error),
                    other => panic!("unexpected outcome {:?}", other),
                }
            }
            SyncAction::Simulate(wrapper) => {
                seen.simulated.push(wrapper.clone());
                assert_eq!(
                    sync.record(&budget, cache, None),
                    Some(Ok(Delivery::Simulated(wrapper)))
                );
            }
        }
    }
    assert_eq!(sync.is_stopped(), seen.error.is_some());
    seen
}

#[test]
fn run_with_nothing_new_creates_nothing() {
    let mut cache = store_at("tx_5");
    let before = cache.contents();
    let pages = vec![feed_page(&["tx_5", "tx_4"], Some("page-2")), feed_page(&["tx_3"], None)];
    let seen = drive(&mut cache, pages, &[], false);
    assert_eq!(seen.fetched, vec![None]);
    assert!(seen.sent.is_empty());
    assert!(seen.error.is_none());
    assert_eq!(cache.contents(), before);
}

#[test]
fn run_delivers_newest_first_and_commits_each() {
    let mut cache = store_at("tx_3");
    let pages = vec![
        feed_page(&["tx_6", "tx_5"], Some("page-2")),
        feed_page(&["tx_4", "tx_3"], Some("page-3")),
        feed_page(&["tx_2"], None),
    ];
    let seen = drive(&mut cache, pages, &[], false);
    assert_eq!(seen.fetched, vec![None, Some("page-2".to_string())]);
    assert_eq!(seen.sent.len(), 3);
    assert!(seen.error.is_none());
    // The oldest of the new transactions was carried last, and is the watermark.
    let watermark = cache.get_latest_transaction("acc_1").unwrap();
    assert_eq!(watermark.akahu_transaction_id, "tx_4");
    assert_eq!(watermark.ynab_transaction_id, "created_2");
}

#[test]
fn run_stops_at_the_first_failure() {
    let mut cache = TransactionCache::new();
    let pages = vec![feed_page(&["tx_A", "tx_B", "tx_C"], None)];
    let seen = drive(&mut cache, pages, &[1], false);
    // A was created, B failed, C was never tried.
    assert_eq!(seen.sent.len(), 2);
    assert_eq!(
        seen.error,
        Some(BudgetError::ApiError("Unable to create transaction.".to_string()))
    );
    assert_eq!(
        cache.get_latest_transaction("acc_1").unwrap().akahu_transaction_id,
        "tx_A"
    );
    // The next run stops at A: B and C are not offered again.
    let again = drive(&mut cache, vec![feed_page(&["tx_A", "tx_B", "tx_C"], None)], &[], false);
    assert!(again.sent.is_empty());
}

#[test]
fn run_that_fails_at_once_leaves_the_store() {
    let mut cache = store_at("tx_1");
    let before = cache.contents();
    let seen = drive(&mut cache, vec![feed_page(&["tx_3", "tx_2", "tx_1"], None)], &[0], false);
    assert_eq!(seen.sent.len(), 1);
    assert!(seen.error.is_some());
    assert_eq!(cache.contents(), before);
}

#[test]
fn dry_run_reports_every_request_and_leaves_the_store() {
    let mut cache = store_at("tx_1");
    let before = cache.contents();
    let seen = drive(&mut cache, vec![feed_page(&["tx_3", "tx_2", "tx_1"], None)], &[], true);
    assert!(seen.sent.is_empty());
    assert_eq!(seen.simulated.len(), 2);
    let asked = seen.simulated[0].transaction.clone().unwrap();
    assert_eq!(asked.account_id, "ynab_acc_1");
    assert_eq!(asked.amount, 4_500);
    assert_eq!(asked.date, "2022-07-18");
    assert_eq!(asked.payee_id, None);
    assert_eq!(asked.payee_name, Some("UNKNOWN MERCHANT 123".to_string()));
    assert_eq!(cache.contents(), before);
}

#[test]
fn record_without_a_pending_transaction_does_nothing() {
    let bank = BankAPI::new("app", "user");
    let budget = budget();
    let mut cache = store_at("tx_1");
    let before = cache.contents();
    let mut sync = AccountSync::new(&bank, &cache, account(), false);
    // Still walking: nothing is pending.
    assert_eq!(sync.record(&budget, &mut cache, None), None);
    assert_eq!(sync.action(&budget), SyncAction::Fetch(None));
    sync.accept_page(feed_page(&["tx_1"], None));
    // Finished with nothing new.
    assert_eq!(sync.action(&budget), SyncAction::Done);
    assert_eq!(sync.record(&budget, &mut cache, None), None);
    assert!(!sync.is_stopped());
    assert_eq!(cache.contents(), before);
}
