//! Instants of UTC time that RFC 3339 text can carry.

use vstd::prelude::*;

verus! {

/// Whether `chrono::DateTime::from_timestamp` makes an instant of `secs`
/// whole seconds since the Unix epoch and `nanos` nanoseconds.
pub uninterp spec fn instant_exists(secs: int, nanos: int) -> bool;

/// The text that `chrono::DateTime::to_rfc3339` writes for the instant of
/// `secs` seconds since the Unix epoch and `nanos` nanoseconds, in UTC.
pub uninterp spec fn rfc3339_text(secs: int, nanos: int) -> Seq<char>;

/// The instant that `chrono::DateTime::parse_from_rfc3339` reads out of
/// `text`, as seconds since the Unix epoch and nanoseconds; `None` where it
/// reports an error.
pub uninterp spec fn rfc3339_instant(text: Seq<char>) -> Option<(i64, u32)>;

/// The text that `chrono::NaiveDate` displays for the calendar date, in UTC,
/// of the instant of `secs` seconds since the Unix epoch and `nanos`
/// nanoseconds.
pub uninterp spec fn calendar_date_text(secs: int, nanos: int) -> Seq<char>;

/// Calls `chrono::DateTime::from_timestamp` and, on the instant it returns,
/// `chrono::DateTime::to_rfc3339`. Assumed: the result is `Some` exactly where
/// `from_timestamp` returns an instant, and then holds the text that
/// `to_rfc3339` wrote for it; equal arguments give equal results.
#[verifier::external_body]
fn format_rfc3339(secs: i64, nanos: u32) -> (text: Option<String>)
    ensures
        text is Some <==> instant_exists(secs as int, nanos as int),
        text matches Some(t) ==> t@ == rfc3339_text(secs as int, nanos as int),
{
    chrono::DateTime::from_timestamp(secs, nanos).map(|instant| instant.to_rfc3339())
}

/// Calls `chrono::DateTime::parse_from_rfc3339` and takes `timestamp()` and
/// `timestamp_subsec_nanos()` from the instant it returns. Assumed: equal
/// texts give equal results.
#[verifier::external_body]
fn parse_rfc3339(text: &str) -> (instant: Option<(i64, u32)>)
    ensures
        instant == rfc3339_instant(text@),
{
    match chrono::DateTime::parse_from_rfc3339(text) {
        Ok(instant) => Some((instant.timestamp(), instant.timestamp_subsec_nanos())),
        Err(_) => None,
    }
}

/// Calls `chrono::DateTime::from_timestamp`, then `date_naive()` on the
/// instant and `to_string()` on that date. Assumed: the result is `Some`
/// exactly where `from_timestamp` returns an instant, and then holds the text
/// that the date displays as; equal arguments give equal results.
#[verifier::external_body]
fn format_calendar_date(secs: i64, nanos: u32) -> (text: Option<String>)
    ensures
        text is Some <==> instant_exists(secs as int, nanos as int),
        text matches Some(t) ==> t@ == calendar_date_text(secs as int, nanos as int),
{
    chrono::DateTime::from_timestamp(secs, nanos).map(|instant| instant.date_naive().to_string())
}

/// Whether the instant of `secs` and `nanos` exists and its RFC 3339 text
/// reads back as the same instant.
pub open spec fn survives_rfc3339(secs: int, nanos: int) -> bool {
    &&& instant_exists(secs, nanos)
    &&& rfc3339_instant(rfc3339_text(secs, nanos)) matches Some(back)
    &&& back.0 == secs
    &&& back.1 == nanos
}

/// An instant of UTC time: whole seconds since the Unix epoch and the
/// nanoseconds past them.
///
/// Every value can be written as RFC 3339 text and read back unchanged: the
/// constructors refuse the instants of which that does not hold.
#[derive(Clone, Copy, Debug, PartialEq, Eq, Structural)]
pub struct Timestamp {
    secs: i64,
    nanos: u32,
}

impl Timestamp {
    /// What every `Timestamp` in executable code satisfies.
    #[verifier::type_invariant]
    pub closed spec fn representable(self) -> bool {
        survives_rfc3339(self.secs as int, self.nanos as int)
    }

    /// Seconds since the Unix epoch.
    pub closed spec fn spec_secs(&self) -> i64 {
        self.secs
    }

    /// Nanoseconds past the whole second.
    pub closed spec fn spec_nanos(&self) -> u32 {
        self.nanos
    }

    /// The RFC 3339 text of this instant.
    pub closed spec fn rfc3339(self) -> Seq<char> {
        rfc3339_text(self.secs as int, self.nanos as int)
    }

    /// The calendar date of this instant in UTC, as text.
    pub closed spec fn calendar_date(self) -> Seq<char> {
        calendar_date_text(self.secs as int, self.nanos as int)
    }

    /// The timestamp that `text` stands for, if it is RFC 3339 text of an
    /// instant that survives being written and read again.
    pub closed spec fn parsed(text: Seq<char>) -> Option<Timestamp> {
        match rfc3339_instant(text) {
            Some(instant) => if survives_rfc3339(instant.0 as int, instant.1 as int) {
                Some(Timestamp { secs: instant.0, nanos: instant.1 })
            } else {
                None
            },
            None => None,
        }
    }

    /// The instant of `secs` seconds since the Unix epoch and `nanos`
    /// nanoseconds, if RFC 3339 text can carry it.
    pub fn new(secs: i64, nanos: u32) -> (made: Option<Timestamp>)
        ensures
            made is Some <==> survives_rfc3339(secs as int, nanos as int),
            made matches Some(t) ==> t.secs() == secs && t.nanos() == nanos && t.representable(),
    {
        match format_rfc3339(secs, nanos) {
            None => None,
            Some(text) => match parse_rfc3339(text.as_str()) {
                None => None,
                Some(back) => if back.0 == secs && back.1 == nanos {
                    Some(Timestamp { secs, nanos })
                } else {
                    None
                },
            },
        }
    }

    /// Reads RFC 3339 text, with any offset from UTC, as an instant of UTC.
    pub fn parse_from_rfc3339(text: &str) -> (read: Option<Timestamp>)
        ensures
            read == Timestamp::parsed(text@),
            read matches Some(t) ==> t.representable(),
    {
        match parse_rfc3339(text) {
            None => None,
            Some(instant) => Timestamp::new(instant.0, instant.1),
        }
    }

    /// Writes the instant as RFC 3339 text.
    pub fn to_rfc3339(&self) -> (text: String)
        ensures
            text@ == self.rfc3339(),
            Timestamp::parsed(text@) == Some(*self),
    {
        proof {
            use_type_invariant(self);
        }
        format_rfc3339(self.secs, self.nanos).unwrap()
    }

    /// Writes the calendar date of the instant in UTC.
    pub fn to_calendar_date(&self) -> (text: String)
        ensures
            text@ == self.calendar_date(),
    {
        proof {
            use_type_invariant(self);
        }
        format_calendar_date(self.secs, self.nanos).unwrap()
    }

    /// Seconds since the Unix epoch.
    #[verifier::when_used_as_spec(spec_secs)]
    pub fn secs(&self) -> (secs: i64)
        ensures
            secs == self.spec_secs(),
    {
        self.secs
    }

    /// Nanoseconds past the whole second.
    #[verifier::when_used_as_spec(spec_nanos)]
    pub fn nanos(&self) -> (nanos: u32)
        ensures
            nanos == self.spec_nanos(),
    {
        self.nanos
    }

    /// A representable timestamp, written as RFC 3339 text, reads back as
    /// itself.
    pub proof fn lemma_rfc3339_round_trip(self)
        requires
            self.representable(),
        ensures
            Timestamp::parsed(self.rfc3339()) == Some(self),
    {
    }
}

} // verus!
