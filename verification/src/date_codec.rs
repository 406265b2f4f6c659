//! The date codec: commit timestamps as text, in the pattern
//! `YYYY-MM-DD HH:MM:SS <zone>`, and back.

use chrono::format::ParseError;
use chrono::{DateTime, TimeZone, Utc};
use std::fmt::Write;
use vstd::prelude::*;

verus! {

/// The pattern of an encoded timestamp, in chrono's `strftime` notation.
pub const DATE_FORMAT: &'static str = "%Y-%m-%d %H:%M:%S %Z";

/// The text that stands for an absent timestamp.
pub const ABSENT: &'static str = "null";

/// chrono's `format::ParseError`: carried from the call that reads a text to
/// the call that puts the error in words, and never looked into.
#[verifier::external_type_specification]
#[verifier::external_body]
pub struct ExParseError(ParseError);

/// What chrono writes for the UTC instant `secs` seconds and `nanos`
/// nanoseconds after the Unix epoch under `format`; `None` where chrono has no
/// such instant or rejects the format.
pub uninterp spec fn utc_text(secs: int, nanos: int, format: Seq<char>) -> Option<Seq<char>>;

/// The UTC instant that chrono reads from `text` under `format`, as seconds and
/// nanoseconds after the Unix epoch; `None` where chrono rejects the text.
pub uninterp spec fn utc_instant(text: Seq<char>, format: Seq<char>) -> Option<(int, int)>;

/// Calls `DateTime::<Utc>::from_timestamp` and `DateTime::format`, and lets the
/// formatter write into a fresh string. The contract only names the outcome:
/// the text is `utc_text` of the arguments, and there is none exactly where
/// chrono refuses the instant or the format.
#[verifier::external_body]
fn format_utc(secs: i64, nanos: u32, format: &str) -> (out: Option<String>)
    ensures
        out is Some <==> utc_text(secs as int, nanos as int, format@) is Some,
        out matches Some(s) ==> utc_text(secs as int, nanos as int, format@) == Some(s@),
{
    let moment = DateTime::<Utc>::from_timestamp(secs, nanos)?;
    let mut out = String::new();
    write!(out, "{}", moment.format(format)).ok()?;
    Some(out)
}

/// Calls `TimeZone::datetime_from_str` on `Utc` and takes the instant apart
/// with `DateTime::timestamp` and `DateTime::timestamp_subsec_nanos`. The
/// contract only names the outcome: the instant is `utc_instant` of the
/// arguments, and the call fails exactly where that is `None`.
#[verifier::external_body]
#[allow(deprecated)]
fn parse_utc(text: &str, format: &str) -> (out: Result<(i64, u32), ParseError>)
    ensures
        out is Ok <==> utc_instant(text@, format@) is Some,
        out matches Ok(at) ==> utc_instant(text@, format@) == Some((at.0 as int, at.1 as int)),
{
    Utc.datetime_from_str(text, format).map(
        |moment| (moment.timestamp(), moment.timestamp_subsec_nanos()),
    )
}

/// Calls `ParseError`'s `Display`: chrono's own words for why a text was
/// rejected. Nothing is claimed of them.
#[verifier::external_body]
fn describe(error: &ParseError) -> (message: String) {
    error.to_string()
}

/// An instant in UTC that the codec writes as a text which it reads back as
/// the same second.
#[derive(Clone, Copy, Debug, PartialEq, Eq)]
pub struct Timestamp {
    secs: i64,
    nanos: u32,
}

/// Why a text is no timestamp.
#[derive(Debug, PartialEq, Eq)]
pub struct DateError {
    /// What is wrong with the text, in words.
    pub reason: String,
}

/// The reason given for a text that names an instant which the codec does
/// not read back as it writes it.
pub const NOT_READ_BACK: &'static str = "instant is not read back as written";

impl View for Timestamp {
    type V = (int, int);

    /// Seconds and nanoseconds after the Unix epoch.
    closed spec fn view(&self) -> (int, int) {
        (self.secs as int, self.nanos as int)
    }
}

/// The text that the codec writes for the instant `at`, if it writes one.
pub open spec fn written(at: (int, int)) -> Option<Seq<char>> {
    utc_text(at.0, at.1, DATE_FORMAT@)
}

/// The instant that the codec reads from `text`, if it reads one.
pub open spec fn read_back(text: Seq<char>) -> Option<(int, int)> {
    utc_instant(text, DATE_FORMAT@)
}

/// Whether `at` is written as a text that is read back as `at` itself.
pub open spec fn settled(at: (int, int)) -> bool {
    written(at) matches Some(text) && read_back(text) == Some(at)
}

/// Whether `at` is written as a text that is read back as an instant of the
/// same second, which is itself settled. This is what makes an instant a
/// timestamp.
pub open spec fn faithful(at: (int, int)) -> bool {
    &&& written(at) matches Some(text)
    &&& read_back(text) matches Some(back)
    &&& back.0 == at.0
    &&& settled(back)
}

/// What a timestamp is encoded as: `null` where there is none.
pub open spec fn encoded(date: Option<(int, int)>) -> Seq<char> {
    match date {
        Some(at) => written(at)->0,
        None => ABSENT@,
    }
}

/// The timestamp that a text is decoded as, if it is one.
pub open spec fn decoded(text: Seq<char>) -> Option<(int, int)> {
    match read_back(text) {
        Some(at) => if faithful(at) {
            Some(at)
        } else {
            None
        },
        None => None,
    }
}

/// A timestamp that may be unset, as a mathematical value.
pub open spec fn shown_date(date: Option<Timestamp>) -> Option<(int, int)> {
    match date {
        Some(t) => Some(t@),
        None => None,
    }
}

/// Whether the codec reads `text` back as the instant `at`.
fn reads_as(text: &str, at: (i64, u32)) -> (same: bool)
    ensures
        same == (read_back(text@) == Some((at.0 as int, at.1 as int))),
{
    match parse_utc(text, DATE_FORMAT) {
        Ok(back) => back.0 == at.0 && back.1 == at.1,
        Err(_) => false,
    }
}

/// Whether the instant `at` is settled.
fn is_settled(at: (i64, u32)) -> (yes: bool)
    ensures
        yes == settled((at.0 as int, at.1 as int)),
{
    match format_utc(at.0, at.1, DATE_FORMAT) {
        Some(text) => reads_as(text.as_str(), at),
        None => false,
    }
}

impl Timestamp {
    #[verifier::type_invariant]
    spec fn keeps_faith(self) -> bool {
        faithful(self@)
    }

    /// The instant `secs` seconds and `nanos` nanoseconds after the Unix
    /// epoch, if the codec writes it and reads it back as the same second.
    /// Whether it does is found out by trying.
    pub fn new(secs: i64, nanos: u32) -> (out: Option<Timestamp>)
        ensures
            out is Some <==> faithful((secs as int, nanos as int)),
            out matches Some(t) ==> t@ == (secs as int, nanos as int),
    {
        let text = match format_utc(secs, nanos, DATE_FORMAT) {
            Some(text) => text,
            None => { return None; },
        };
        let back = match parse_utc(text.as_str(), DATE_FORMAT) {
            Ok(back) => back,
            Err(_) => { return None; },
        };
        if back.0 != secs {
            return None;
        }
        if back.1 == nanos || is_settled(back) {
            Some(Timestamp { secs, nanos })
        } else {
            None
        }
    }

    /// Whole seconds after the Unix epoch.
    pub fn secs(&self) -> (secs: i64)
        ensures
            secs == self@.0,
    {
        self.secs
    }

    /// Nanoseconds after the last whole second.
    pub fn nanos(&self) -> (nanos: u32)
        ensures
            nanos == self@.1,
    {
        self.nanos
    }
}

/// Encodes a timestamp; an absent one is the text `null`.
pub fn serialize(date: &Option<Timestamp>) -> (text: String)
    ensures
        text@ == encoded(shown_date(*date)),
        date matches Some(t) ==> faithful(t@),
{
    match date {
        Some(t) => {
            proof {
                use_type_invariant(t);
            }
            match format_utc(t.secs, t.nanos, DATE_FORMAT) {
                Some(text) => text,
                None => vstd::pervasive::unreached(),
            }
        },
        None => ABSENT.to_owned(),
    }
}

/// Decodes a timestamp. The text is read as UTC whatever zone it names. A
/// text that decodes gives a timestamp, never an absent one; a text that
/// does not is an error, with chrono's reason where chrono rejects it.
pub fn deserialize(text: &str) -> (out: Result<Option<Timestamp>, DateError>)
    ensures
        match out {
            Ok(date) => date is Some && shown_date(date) == decoded(text@),
            Err(error) => decoded(text@) is None && (read_back(text@) is Some ==> error.reason@
                == NOT_READ_BACK@),
        },
{
    match parse_utc(text, DATE_FORMAT) {
        Ok(at) => match Timestamp::new(at.0, at.1) {
            Some(t) => Ok(Some(t)),
            None => Err(DateError { reason: NOT_READ_BACK.to_owned() }),
        },
        Err(error) => Err(DateError { reason: describe(&error) }),
    }
}

/// A timestamp that is encoded and then decoded comes back, equal to the
/// second.
pub proof fn law_round_trip(at: (int, int))
    requires
        faithful(at),
    ensures
        decoded(encoded(Some(at))) matches Some(back) && back.0 == at.0,
{
    let text = written(at)->0;
    let back = read_back(text)->0;
    assert(faithful(back));
}

/// Decoding is the same for a text that was decoded and encoded again: a
/// second round trip changes nothing.
pub proof fn law_round_trip_settles(at: (int, int))
    requires
        faithful(at),
    ensures
        decoded(encoded(Some(at))) matches Some(back) && decoded(encoded(Some(back))) == Some(
            back,
        ),
{
    let text = written(at)->0;
    let back = read_back(text)->0;
    assert(faithful(back));
}

} // verus!
