//! The watermark store: for each bank account, the last transaction that
//! reached the budget, kept in a line-oriented file of five lines per account.

use crate::text::str_eq;
use crate::timestamp::Timestamp;
use vstd::prelude::*;
use vstd::string::*;

verus! {

/// The last transaction of one bank account that reached the budget.
#[derive(Debug, PartialEq, Eq)]
pub struct TransactionCacheItem {
    pub akahu_account_id: String,
    pub akahu_transaction_id: String,
    pub transaction_date: Timestamp,
    pub ynab_account_id: String,
    pub ynab_transaction_id: String,
}

/// A `TransactionCacheItem` as contracts see it: its texts as sequences of
/// characters.
pub struct WatermarkRecord {
    pub akahu_account_id: Seq<char>,
    pub akahu_transaction_id: Seq<char>,
    pub transaction_date: Timestamp,
    pub ynab_account_id: Seq<char>,
    pub ynab_transaction_id: Seq<char>,
}

impl View for TransactionCacheItem {
    type V = WatermarkRecord;

    open spec fn view(&self) -> WatermarkRecord {
        WatermarkRecord {
            akahu_account_id: self.akahu_account_id@,
            akahu_transaction_id: self.akahu_transaction_id@,
            transaction_date: self.transaction_date,
            ynab_account_id: self.ynab_account_id@,
            ynab_transaction_id: self.ynab_transaction_id@,
        }
    }
}

impl Clone for TransactionCacheItem {
    fn clone(&self) -> (copy: Self)
        ensures
            copy@ == self@,
    {
        TransactionCacheItem {
            akahu_account_id: self.akahu_account_id.clone(),
            akahu_transaction_id: self.akahu_transaction_id.clone(),
            transaction_date: self.transaction_date,
            ynab_account_id: self.ynab_account_id.clone(),
            ynab_transaction_id: self.ynab_transaction_id.clone(),
        }
    }
}

/// Why the store could not answer.
#[derive(Debug, PartialEq, Eq)]
pub enum CacheError {
    /// No record is kept for this bank account.
    NotFound(String),
    /// The file does not end on a record boundary.
    Truncated,
    /// This line stands where a timestamp belongs and is not RFC 3339.
    BadTimestamp(String),
}

/// Whether `i` is the first place in `records` that belongs to `account_id`.
pub open spec fn first_at(records: Seq<WatermarkRecord>, account_id: Seq<char>, i: int) -> bool {
    &&& 0 <= i < records.len()
    &&& records[i].akahu_account_id == account_id
    &&& forall|j: int| 0 <= j < i ==> (#[trigger] records[j]).akahu_account_id != account_id
}

/// The first place in `records` that belongs to `account_id`.
pub open spec fn position(records: Seq<WatermarkRecord>, account_id: Seq<char>) -> Option<int> {
    if exists|i: int| first_at(records, account_id, i) {
        Some(choose|i: int| first_at(records, account_id, i))
    } else {
        None
    }
}

/// The record that `records` keeps for `account_id`.
pub open spec fn lookup(records: Seq<WatermarkRecord>, account_id: Seq<char>) -> Option<
    WatermarkRecord,
> {
    match position(records, account_id) {
        Some(i) => Some(records[i]),
        None => None,
    }
}

/// `records` with `record` in the place of the one kept for its account, or
/// at the end where none was kept.
pub open spec fn upsert(records: Seq<WatermarkRecord>, record: WatermarkRecord) -> Seq<
    WatermarkRecord,
> {
    match position(records, record.akahu_account_id) {
        Some(i) => records.update(i, record),
        None => records.push(record),
    }
}

/// No two records belong to the same bank account.
pub open spec fn distinct_accounts(records: Seq<WatermarkRecord>) -> bool {
    forall|i: int, j: int|
        0 <= i < j < records.len() ==> (#[trigger] records[i]).akahu_account_id != (
        #[trigger] records[j]).akahu_account_id
}

/// Every timestamp in `records` can be written and read back.
pub open spec fn representable_dates(records: Seq<WatermarkRecord>) -> bool {
    forall|i: int|
        0 <= i < records.len() ==> (#[trigger] records[i]).transaction_date.representable()
}

/// What holds of every store: one record for each account, and timestamps
/// that can be written and read back.
pub open spec fn well_formed(records: Seq<WatermarkRecord>) -> bool {
    distinct_accounts(records) && representable_dates(records)
}

/// The record that the five lines from line `5 * k` on spell out, if the
/// fifth is a timestamp.
pub open spec fn record_at(lines: Seq<Seq<char>>, k: int) -> Option<WatermarkRecord> {
    match Timestamp::parsed(lines[5 * k + 4]) {
        Some(stamp) => Some(
            WatermarkRecord {
                akahu_account_id: lines[5 * k],
                ynab_account_id: lines[5 * k + 1],
                akahu_transaction_id: lines[5 * k + 2],
                ynab_transaction_id: lines[5 * k + 3],
                transaction_date: stamp,
            },
        ),
        None => None,
    }
}

/// What the first `n` records of `lines` leave in the store: of two records
/// for one account the earlier stays.
pub open spec fn loaded(lines: Seq<Seq<char>>, n: nat) -> Seq<WatermarkRecord>
    decreases n,
{
    if n == 0 {
        Seq::empty()
    } else {
        let before = loaded(lines, (n - 1) as nat);
        match record_at(lines, n - 1) {
            Some(record) => if position(before, record.akahu_account_id) is Some {
                before
            } else {
                before.push(record)
            },
            None => before,
        }
    }
}

/// Whether record `k` of `lines` is the first whose timestamp cannot be read.
pub open spec fn first_bad_timestamp(lines: Seq<Seq<char>>, k: int) -> bool {
    &&& 0 <= k < lines.len() / 5
    &&& record_at(lines, k) is None
    &&& forall|j: int| 0 <= j < k ==> (#[trigger] record_at(lines, j)) is Some
}

/// The store that `lines` spell out; `None` where they do not end on a record
/// boundary or hold a timestamp that cannot be read.
pub open spec fn parse_lines(lines: Seq<Seq<char>>) -> Option<Seq<WatermarkRecord>> {
    if lines.len() % 5 == 0 && forall|k: int|
        0 <= k < lines.len() / 5 ==> (#[trigger] record_at(lines, k)) is Some {
        Some(loaded(lines, lines.len() / 5))
    } else {
        None
    }
}

/// Line `i` of the file that holds `records`.
pub open spec fn line_of(records: Seq<WatermarkRecord>, i: int) -> Seq<char> {
    let record = records[i / 5];
    if i % 5 == 0 {
        record.akahu_account_id
    } else if i % 5 == 1 {
        record.ynab_account_id
    } else if i % 5 == 2 {
        record.akahu_transaction_id
    } else if i % 5 == 3 {
        record.ynab_transaction_id
    } else {
        record.transaction_date.rfc3339()
    }
}

/// The lines of the file that holds `records`, five for each.
pub open spec fn record_lines(records: Seq<WatermarkRecord>) -> Seq<Seq<char>> {
    Seq::new(5 * records.len(), |i: int| line_of(records, i))
}

/// `lines`, each closed by a line feed, one after the other.
pub open spec fn joined(lines: Seq<Seq<char>>) -> Seq<char>
    decreases lines.len(),
{
    if lines.len() == 0 {
        Seq::empty()
    } else {
        joined(lines.drop_last()) + lines.last() + seq!['\n']
    }
}

/// The records that `items` stand for.
pub open spec fn records_of(items: Seq<TransactionCacheItem>) -> Seq<WatermarkRecord> {
    items.map_values(|item: TransactionCacheItem| item@)
}

/// Where a record for the account is first, `position` finds it there.
pub proof fn lemma_position_found(records: Seq<WatermarkRecord>, account_id: Seq<char>, i: int)
    requires
        first_at(records, account_id, i),
    ensures
        position(records, account_id) == Some(i),
        lookup(records, account_id) == Some(records[i]),
{
    let chosen = choose|k: int| first_at(records, account_id, k);
    assert(first_at(records, account_id, chosen));
    if chosen < i {
        assert(records[chosen].akahu_account_id != account_id);
    } else if i < chosen {
        assert(records[i].akahu_account_id != account_id);
    }
}

/// Where no record belongs to the account, `position` finds none.
pub proof fn lemma_position_missing(records: Seq<WatermarkRecord>, account_id: Seq<char>)
    requires
        forall|j: int|
            0 <= j < records.len() ==> (#[trigger] records[j]).akahu_account_id != account_id,
    ensures
        position(records, account_id) is None,
        lookup(records, account_id) is None,
{
    if exists|i: int| first_at(records, account_id, i) {
        let i = choose|i: int| first_at(records, account_id, i);
        assert(records[i].akahu_account_id == account_id);
    }
}

/// The place of the first of `items` that belongs to `account_id`.
fn find_account(items: &Vec<TransactionCacheItem>, account_id: &str) -> (found: Option<usize>)
    ensures
        match found {
            Some(i) => position(records_of(items@), account_id@) == Some(i as int) && i
                < items.len(),
            None => position(records_of(items@), account_id@) is None,
        },
{
    let ghost records = records_of(items@);
    let mut i: usize = 0;
    while i < items.len()
        invariant
            i <= items.len(),
            records == records_of(items@),
            forall|j: int| 0 <= j < i ==> (#[trigger] records[j]).akahu_account_id != account_id@,
        decreases items.len() - i,
    {
        if str_eq(items[i].akahu_account_id.as_str(), account_id) {
            proof {
                lemma_position_found(records, account_id@, i as int);
            }
            return Some(i);
        }
        i += 1;
    }
    proof {
        lemma_position_missing(records, account_id@);
    }
    None
}

/// The store of watermarks, one record for each bank account, in the order
/// in which the file holds them.
#[derive(Debug, PartialEq, Eq)]
pub struct TransactionCache {
    items: Vec<TransactionCacheItem>,
}

impl View for TransactionCache {
    type V = Seq<WatermarkRecord>;

    closed spec fn view(&self) -> Seq<WatermarkRecord> {
        records_of(self.items@)
    }
}

impl TransactionCache {
    #[verifier::type_invariant]
    closed spec fn holds_well_formed(self) -> bool {
        well_formed(records_of(self.items@))
    }

    /// A store that holds no record.
    pub fn new() -> (cache: TransactionCache)
        ensures
            cache@ == Seq::<WatermarkRecord>::empty(),
            well_formed(cache@),
    {
        let cache = TransactionCache { items: Vec::new() };
        assert(cache@ =~= Seq::<WatermarkRecord>::empty());
        cache
    }

    /// Reads the store from the lines of its file.
    ///
    /// The lines are taken five at a time: bank account, budget account, bank
    /// transaction, budget transaction, timestamp. Of two records for one
    /// bank account the earlier stays.
    pub fn from_lines(lines: &Vec<String>) -> (read: Result<TransactionCache, CacheError>)
        ensures
            match read {
                Ok(cache) => parse_lines(lines.deep_view()) == Some(cache@) && well_formed(cache@),
                Err(CacheError::Truncated) => lines.len() % 5 != 0,
                Err(CacheError::BadTimestamp(text)) => lines.len() % 5 == 0 && exists|k: int|
                    first_bad_timestamp(lines.deep_view(), k) && text@ == #[trigger] lines[5 * k
                        + 4]@,
                Err(CacheError::NotFound(_)) => false,
            },
    {
        let n = lines.len();
        if n % 5 != 0 {
            return Err(CacheError::Truncated);
        }
        let ghost texts = lines.deep_view();
        let mut items: Vec<TransactionCacheItem> = Vec::new();
        let mut k: usize = 0;
        assert(records_of(items@) =~= loaded(texts, 0));
        while k < n / 5
            invariant
                n == lines.len(),
                n % 5 == 0,
                k <= n / 5,
                texts == lines.deep_view(),
                records_of(items@) == loaded(texts, k as nat),
                well_formed(records_of(items@)),
                forall|j: int| 0 <= j < k ==> (#[trigger] record_at(texts, j)) is Some,
            decreases n / 5 - k,
        {
            let at = 5 * k;
            let ghost before = records_of(items@);
            assert(texts[at as int] == lines[at as int]@);
            assert(texts[at + 1] == lines[at + 1]@);
            assert(texts[at + 2] == lines[at + 2]@);
            assert(texts[at + 3] == lines[at + 3]@);
            assert(texts[at + 4] == lines[at + 4]@);
            match Timestamp::parse_from_rfc3339(lines[at + 4].as_str()) {
                None => {
                    assert(first_bad_timestamp(texts, k as int));
                    return Err(CacheError::BadTimestamp(lines[at + 4].clone()));
                },
                Some(stamp) => {
                    if find_account(&items, lines[at].as_str()).is_none() {
                        items.push(
                            TransactionCacheItem {
                                akahu_account_id: lines[at].clone(),
                                ynab_account_id: lines[at + 1].clone(),
                                akahu_transaction_id: lines[at + 2].clone(),
                                ynab_transaction_id: lines[at + 3].clone(),
                                transaction_date: stamp,
                            },
                        );
                        proof {
                            let record = record_at(texts, k as int).unwrap();
                            assert(records_of(items@) =~= before.push(record));
                            lemma_push_distinct(before, record);
                        }
                    }
                },
            }
            k += 1;
        }
        Ok(TransactionCache { items })
    }

    /// The number of accounts that the store keeps a record for.
    pub fn len(&self) -> (n: usize)
        ensures
            n == self@.len(),
    {
        self.items.len()
    }

    /// The watermark of the bank account `account_id`.
    pub fn get_latest_transaction(&self, account_id: &str) -> (latest: Result<
        TransactionCacheItem,
        CacheError,
    >)
        ensures
            well_formed(self@),
            match latest {
                Ok(item) => lookup(self@, account_id@) == Some(item@),
                Err(CacheError::NotFound(id)) => lookup(self@, account_id@) is None && id@
                    == account_id@,
                Err(_) => false,
            },
    {
        proof {
            use_type_invariant(self);
        }
        match find_account(&self.items, account_id) {
            Some(i) => Ok(self.items[i].clone()),
            None => Err(CacheError::NotFound(account_id.to_owned())),
        }
    }

    /// Makes `t` the watermark of its bank account, and leaves the records of
    /// the other accounts as they are.
    pub fn set_latest_transaction(&mut self, t: &TransactionCacheItem)
        ensures
            final(self)@ == upsert(old(self)@, t@),
            well_formed(final(self)@),
            lookup(final(self)@, t@.akahu_account_id) == Some(t@),
            forall|other: Seq<char>|
                other != t@.akahu_account_id ==> #[trigger] lookup(final(self)@, other) == lookup(
                    old(self)@,
                    other,
                ),
    {
        proof {
            use_type_invariant(&*self);
            use_type_invariant(t.transaction_date);
            lemma_upsert(self@, t@);
        }
        let ghost before = self@;
        let mut items: Vec<TransactionCacheItem> = Vec::new();
        std::mem::swap(&mut items, &mut self.items);
        match find_account(&items, t.akahu_account_id.as_str()) {
            Some(i) => {
                items.set(i, t.clone());
                assert(records_of(items@) =~= before.update(i as int, t@));
            },
            None => {
                items.push(t.clone());
                assert(records_of(items@) =~= before.push(t@));
            },
        }
        self.items = items;
    }

    /// The text of the file that holds the store: for each record its five
    /// lines, each closed by a line feed. Read line by line, the text gives
    /// the store back.
    pub fn contents(&self) -> (text: String)
        ensures
            text@ == joined(record_lines(self@)),
            parse_lines(record_lines(self@)) == Some(self@),
            well_formed(self@),
    {
        proof {
            use_type_invariant(self);
            lemma_lines_round_trip(self@);
            reveal_strlit("\n");
        }
        let ghost records = self@;
        let mut text = String::new();
        let mut i: usize = 0;
        assert(record_lines(records.take(0)) =~= Seq::<Seq<char>>::empty());
        while i < self.items.len()
            invariant
                i <= self.items.len(),
                records == self@,
                records.len() == self.items.len(),
                "\n"@ == seq!['\n'],
                text@ == joined(record_lines(records.take(i as int))),
            decreases self.items.len() - i,
        {
            let item = &self.items[i];
            let stamp = item.transaction_date.to_rfc3339();
            proof {
                assert(records[i as int] == item@);
                assert(records.take(i + 1) =~= records.take(i as int).push(item@));
                lemma_joined_record(records.take(i as int), item@);
            }
            text.append(item.akahu_account_id.as_str());
            text.append("\n");
            text.append(item.ynab_account_id.as_str());
            text.append("\n");
            text.append(item.akahu_transaction_id.as_str());
            text.append("\n");
            text.append(item.ynab_transaction_id.as_str());
            text.append("\n");
            text.append(stamp.as_str());
            text.append("\n");
            i += 1;
        }
        assert(records.take(i as int) =~= records);
        text
    }
}

/// After `upsert` the store keeps `record` for its account, every other
/// account keeps what it had, and the store stays well formed.
pub proof fn lemma_upsert(records: Seq<WatermarkRecord>, record: WatermarkRecord)
    requires
        well_formed(records),
        record.transaction_date.representable(),
    ensures
        well_formed(upsert(records, record)),
        lookup(upsert(records, record), record.akahu_account_id) == Some(record),
        forall|other: Seq<char>|
            other != record.akahu_account_id ==> #[trigger] lookup(upsert(records, record), other)
                == lookup(records, other),
{
    let after = upsert(records, record);
    let account = record.akahu_account_id;
    match position(records, account) {
        Some(i) => {
            assert(first_at(records, account, i));
            assert(first_at(after, account, i));
            lemma_position_found(after, account, i);
        },
        None => {
            assert forall|j: int| 0 <= j < records.len() implies (
            #[trigger] records[j]).akahu_account_id != account by {
                if records[j].akahu_account_id == account {
                    lemma_has_first(records, account, j);
                }
            }
            assert(first_at(after, account, records.len() as int));
            lemma_position_found(after, account, records.len() as int);
        },
    }
    assert forall|other: Seq<char>| other != account implies #[trigger] lookup(after, other)
        == lookup(records, other) by {
        match position(records, other) {
            Some(k) => {
                assert(first_at(records, other, k));
                assert(first_at(after, other, k));
                lemma_position_found(after, other, k);
            },
            None => {
                assert forall|j: int| 0 <= j < after.len() implies (
                #[trigger] after[j]).akahu_account_id != other by {
                    if j < records.len() && records[j].akahu_account_id == other {
                        lemma_has_first(records, other, j);
                    }
                }
                lemma_position_missing(after, other);
            },
        }
    }
}

/// A record for an account that has none yet can join the others.
pub proof fn lemma_push_distinct(records: Seq<WatermarkRecord>, record: WatermarkRecord)
    requires
        well_formed(records),
        record.transaction_date.representable(),
        position(records, record.akahu_account_id) is None,
    ensures
        well_formed(records.push(record)),
{
    let after = records.push(record);
    assert forall|i: int, j: int| 0 <= i < j < after.len() implies (
    #[trigger] after[i]).akahu_account_id != (#[trigger] after[j]).akahu_account_id by {
        if j == records.len() && records[i].akahu_account_id == record.akahu_account_id {
            lemma_has_first(records, record.akahu_account_id, i);
        }
    }
}

/// Where some record belongs to the account, one of them is the first.
pub proof fn lemma_has_first(records: Seq<WatermarkRecord>, account_id: Seq<char>, j: int)
    requires
        0 <= j < records.len(),
        records[j].akahu_account_id == account_id,
    ensures
        position(records, account_id) is Some,
    decreases j,
{
    if forall|k: int| 0 <= k < j ==> (#[trigger] records[k]).akahu_account_id != account_id {
        assert(first_at(records, account_id, j));
    } else {
        let k = choose|k: int| 0 <= k < j && (#[trigger] records[k]).akahu_account_id == account_id;
        lemma_has_first(records, account_id, k);
    }
}

/// The text grows by the five lines of a record that joins the store.
pub proof fn lemma_joined_record(records: Seq<WatermarkRecord>, record: WatermarkRecord)
    ensures
        joined(record_lines(records.push(record))) == joined(record_lines(records))
            + record.akahu_account_id + seq!['\n'] + record.ynab_account_id + seq!['\n']
            + record.akahu_transaction_id + seq!['\n'] + record.ynab_transaction_id + seq![
            '\n',
        ] + record.transaction_date.rfc3339() + seq!['\n'],
{
    let lines = record_lines(records);
    let l1 = lines.push(record.akahu_account_id);
    let l2 = l1.push(record.ynab_account_id);
    let l3 = l2.push(record.akahu_transaction_id);
    let l4 = l3.push(record.ynab_transaction_id);
    let l5 = l4.push(record.transaction_date.rfc3339());
    assert(record_lines(records.push(record)) =~= l5);
    assert(l1.drop_last() =~= lines);
    assert(l2.drop_last() =~= l1);
    assert(l3.drop_last() =~= l2);
    assert(l4.drop_last() =~= l3);
    assert(l5.drop_last() =~= l4);
    assert(joined(l1) == joined(lines) + record.akahu_account_id + seq!['\n']);
    assert(joined(l2) == joined(l1) + record.ynab_account_id + seq!['\n']);
    assert(joined(l3) == joined(l2) + record.akahu_transaction_id + seq!['\n']);
    assert(joined(l4) == joined(l3) + record.ynab_transaction_id + seq!['\n']);
    assert(joined(l5) == joined(l4) + record.transaction_date.rfc3339() + seq!['\n']);
}

/// Writing a well-formed store as lines and reading the lines gives the
/// store back: every account with the record it had, in the same order.
pub proof fn lemma_lines_round_trip(records: Seq<WatermarkRecord>)
    requires
        well_formed(records),
    ensures
        parse_lines(record_lines(records)) == Some(records),
{
    let lines = record_lines(records);
    assert forall|k: int| 0 <= k < records.len() implies #[trigger] record_at(lines, k) == Some(
        records[k],
    ) by {
        records[k].transaction_date.lemma_rfc3339_round_trip();
    }
    lemma_loaded_prefix(records, records.len());
    assert(records.take(records.len() as int) =~= records);
}

/// Reading the lines of the first `n` records of a well-formed store gives
/// those records.
proof fn lemma_loaded_prefix(records: Seq<WatermarkRecord>, n: nat)
    requires
        well_formed(records),
        n <= records.len(),
        forall|k: int|
            0 <= k < records.len() ==> #[trigger] record_at(record_lines(records), k) == Some(
                records[k],
            ),
    ensures
        loaded(record_lines(records), n) == records.take(n as int),
    decreases n,
{
    if n == 0 {
        assert(records.take(0) =~= Seq::<WatermarkRecord>::empty());
    } else {
        lemma_loaded_prefix(records, (n - 1) as nat);
        let before = records.take(n - 1);
        let record = records[n - 1];
        assert(record_at(record_lines(records), n - 1) == Some(record));
        assert forall|j: int| 0 <= j < before.len() implies (
        #[trigger] before[j]).akahu_account_id != record.akahu_account_id by {
            assert(before[j] == records[j]);
        }
        lemma_position_missing(before, record.akahu_account_id);
        assert(records.take(n as int) =~= before.push(record));
    }
}

} // verus!
