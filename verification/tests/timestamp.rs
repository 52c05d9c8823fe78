use ynabber::day_month_year_format::{deserialize, InvalidDate, StatementDate};
use ynabber::timestamp::Timestamp;

#[test]
fn timestamp_reads_utc_text() {
    let t = Timestamp::parse_from_rfc3339("2022-07-18T12:00:00Z").unwrap();
    assert_eq!(t.secs(), 1658145600);
    assert_eq!(t.nanos(), 0);
}

#[test]
fn timestamp_reads_an_offset_as_utc() {
    let t = Timestamp::parse_from_rfc3339("1996-12-19T16:39:57-08:00").unwrap();
    assert_eq!(t.secs(), 851042397);
    assert_eq!(t.to_rfc3339(), "1996-12-20T00:39:57+00:00");
}

#[test]
fn timestamp_writes_rfc3339() {
    let t = Timestamp::new(1658145600, 0).unwrap();
    assert_eq!(t.to_rfc3339(), "2022-07-18T12:00:00+00:00");
    let fine = Timestamp::new(1658145600, 453_000_000).unwrap();
    assert_eq!(fine.to_rfc3339(), "2022-07-18T12:00:00.453+00:00");
}

#[test]
fn timestamp_round_trips_through_text() {
    let t = Timestamp::new(1431648000, 123_456_789).unwrap();
    assert_eq!(Timestamp::parse_from_rfc3339(&t.to_rfc3339()), Some(t));
}

#[test]
fn timestamp_writes_the_calendar_date() {
    let t = Timestamp::new(1658145600, 0).unwrap();
    assert_eq!(t.to_calendar_date(), "2022-07-18");
    let late = Timestamp::parse_from_rfc3339("2022-07-18T23:30:00-02:00").unwrap();
    assert_eq!(late.to_calendar_date(), "2022-07-19");
}

#[test]
fn timestamp_refuses_what_is_no_rfc3339() {
    assert_eq!(Timestamp::parse_from_rfc3339("yesterday"), None);
    assert_eq!(Timestamp::parse_from_rfc3339(""), None);
    assert_eq!(Timestamp::parse_from_rfc3339("2022-07-18"), None);
}

#[test]
fn timestamp_refuses_instants_that_text_cannot_carry() {
    // Too many nanoseconds for one second.
    assert_eq!(Timestamp::new(0, 2_000_000_000), None);
    // Beyond the years that the calendar of the library reaches.
    assert_eq!(Timestamp::new(i64::MAX, 0), None);
    // The year 10000 has five digits, which RFC 3339 does not read.
    assert_eq!(Timestamp::new(253_402_300_800, 0), None);
    assert!(Timestamp::new(253_402_300_799, 0).is_some());
}

#[test]
fn statement_date_is_read_day_first() {
    assert_eq!(
        deserialize("18/07/2022"),
        Ok(StatementDate { year: 2022, month: 7, day: 18 })
    );
    assert_eq!(
        deserialize("01/02/2021"),
        Ok(StatementDate { year: 2021, month: 2, day: 1 })
    );
}

#[test]
fn statement_date_refuses_other_text() {
    assert_eq!(deserialize("2022-07-18"), Err(InvalidDate));
    assert_eq!(deserialize("31/02/2022"), Err(InvalidDate));
    assert_eq!(deserialize(""), Err(InvalidDate));
}
