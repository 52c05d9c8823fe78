use ynabber::timestamp::Timestamp;
use ynabber::transaction_cache::{CacheError, TransactionCache, TransactionCacheItem};

fn item(account: &str, transaction: &str, secs: i64) -> TransactionCacheItem {
    TransactionCacheItem {
        akahu_account_id: account.to_string(),
        akahu_transaction_id: transaction.to_string(),
        transaction_date: Timestamp::new(secs, 0).unwrap(),
        ynab_account_id: format!("budget-{}", account),
        ynab_transaction_id: format!("created-{}", transaction),
    }
}

fn lines_of(text: &str) -> Vec<String> {
    text.lines().map(|line| line.to_string()).collect()
}

#[test]
fn cache_starts_empty() {
    let cache = TransactionCache::new();
    assert_eq!(cache.len(), 0);
    assert_eq!(cache.contents(), "");
    assert_eq!(
        cache.get_latest_transaction("acc_1"),
        Err(CacheError::NotFound("acc_1".to_string()))
    );
}

#[test]
fn cache_reads_the_sample_file() {
    let lines = lines_of(
        "acc_cl2y4h0sy000009lc1g8eg7zk\n\
         c33bd5ef-2538-4ff2-b1b9-004b6ae7ccc9\n\
         trans_cl5uopvg808b509jr4k62ggth\n\
         37f12dc1-6e83-4e3b-8811-262ab1396f03\n\
         2022-07-18T12:00:00Z\n",
    );
    let cache = TransactionCache::from_lines(&lines).unwrap();
    assert_eq!(cache.len(), 1);
    let found = cache
        .get_latest_transaction("acc_cl2y4h0sy000009lc1g8eg7zk")
        .unwrap();
    assert_eq!(found.akahu_account_id, "acc_cl2y4h0sy000009lc1g8eg7zk");
    assert_eq!(found.ynab_account_id, "c33bd5ef-2538-4ff2-b1b9-004b6ae7ccc9");
    assert_eq!(found.akahu_transaction_id, "trans_cl5uopvg808b509jr4k62ggth");
    assert_eq!(found.ynab_transaction_id, "37f12dc1-6e83-4e3b-8811-262ab1396f03");
    assert_eq!(found.transaction_date.secs(), 1658145600);
}

#[test]
fn cache_round_trip_keeps_every_record() {
    let mut cache = TransactionCache::new();
    let first = item("acc_1", "trans_10", 1658145600);
    let second = item("acc_2", "trans_20", 1658149200);
    cache.set_latest_transaction(&first);
    cache.set_latest_transaction(&second);
    let written = cache.contents();
    let read = TransactionCache::from_lines(&lines_of(&written)).unwrap();
    assert_eq!(read.len(), 2);
    assert_eq!(read.get_latest_transaction("acc_1"), Ok(first));
    assert_eq!(read.get_latest_transaction("acc_2"), Ok(second));
    assert_eq!(read.contents(), written);
}

#[test]
fn cache_writes_five_lines_for_each_record() {
    let mut cache = TransactionCache::new();
    cache.set_latest_transaction(&item("acc_1", "trans_10", 1658145600));
    cache.set_latest_transaction(&item("acc_2", "trans_20", 0));
    assert_eq!(
        cache.contents(),
        "acc_1\nbudget-acc_1\ntrans_10\ncreated-trans_10\n2022-07-18T12:00:00+00:00\n\
         acc_2\nbudget-acc_2\ntrans_20\ncreated-trans_20\n1970-01-01T00:00:00+00:00\n"
    );
}

#[test]
fn cache_set_replaces_the_record_of_the_account_only() {
    let mut cache = TransactionCache::new();
    let other = item("acc_2", "trans_20", 1658149200);
    cache.set_latest_transaction(&item("acc_1", "trans_10", 1658145600));
    cache.set_latest_transaction(&other);
    let newer = item("acc_1", "trans_11", 1658152800);
    cache.set_latest_transaction(&newer);
    assert_eq!(cache.len(), 2);
    assert_eq!(cache.get_latest_transaction("acc_1"), Ok(newer));
    assert_eq!(cache.get_latest_transaction("acc_2"), Ok(other));
    // The record keeps its place in the file.
    assert!(cache.contents().starts_with("acc_1\nbudget-acc_1\ntrans_11\n"));
}

#[test]
fn cache_set_adds_an_account_that_has_no_record() {
    let mut cache = TransactionCache::new();
    let first = item("acc_new", "trans_1", 1658145600);
    cache.set_latest_transaction(&first);
    assert_eq!(cache.len(), 1);
    assert_eq!(cache.get_latest_transaction("acc_new"), Ok(first));
}

#[test]
fn cache_refuses_a_line_count_that_is_no_multiple_of_five() {
    let lines = lines_of("acc_1\nbudget\ntrans\ncreated\n2022-07-18T12:00:00Z\nacc_2\n");
    assert_eq!(
        TransactionCache::from_lines(&lines),
        Err(CacheError::Truncated)
    );
    let four = lines_of("acc_1\nbudget\ntrans\ncreated\n");
    assert_eq!(TransactionCache::from_lines(&four), Err(CacheError::Truncated));
}

#[test]
fn cache_refuses_a_timestamp_that_cannot_be_read() {
    let lines = lines_of(
        "acc_1\nbudget\ntrans\ncreated\n2022-07-18T12:00:00Z\n\
         acc_2\nbudget\ntrans\ncreated\nlast tuesday\n",
    );
    assert_eq!(
        TransactionCache::from_lines(&lines),
        Err(CacheError::BadTimestamp("last tuesday".to_string()))
    );
}

#[test]
fn cache_keeps_the_first_of_two_records_for_one_account() {
    let lines = lines_of(
        "acc_1\nbudget\ntrans_first\ncreated\n2022-07-18T12:00:00Z\n\
         acc_1\nbudget\ntrans_second\ncreated\n2022-07-19T12:00:00Z\n",
    );
    let cache = TransactionCache::from_lines(&lines).unwrap();
    assert_eq!(cache.len(), 1);
    assert_eq!(
        cache
            .get_latest_transaction("acc_1")
            .unwrap()
            .akahu_transaction_id,
        "trans_first"
    );
}

#[test]
fn cache_reads_no_lines_as_an_empty_store() {
    let cache = TransactionCache::from_lines(&Vec::new()).unwrap();
    assert_eq!(cache.len(), 0);
}
