//! Dates and output paths of the RSS feeds.
use vstd::prelude::*;
use chrono::{Datelike, Local, MappedLocalTime, NaiveDate, NaiveTime, Utc};
use std::fmt::Write;
use crate::env::RenderEnv;
use crate::render_markdown::clean_path;
use crate::text::{concat, trim, trim_end_matches, trim_start_matches};

verus! {

/// The date (year, month, day) that `chrono::NaiveDate::parse_from_str` reads
/// from `date` under the strftime-style `format`, if it reads one.
pub uninterp spec fn chrono_naive_date(date: Seq<char>, format: Seq<char>) -> Option<(i32, u32, u32)>;

/// Calls `chrono::NaiveDate::parse_from_str(date, format)`. Claimed: the result
/// is the function `chrono_naive_date` of the two texts.
#[verifier::external_body]
fn parse_date(date: &str, format: &str) -> (r: Option<(i32, u32, u32)>)
    ensures
        r == chrono_naive_date(date@, format@),
{
    NaiveDate::parse_from_str(date, format).ok().map(|d| (d.year(), d.month(), d.day()))
}

/// The text that chrono's `%a, %d %b %Y` prints for the date (year, month,
/// day): weekday name, day, month name and year.
pub uninterp spec fn rfc822_day(date: (i32, u32, u32)) -> Seq<char>;

/// The time and separators that follow the day in an RFC 822 date at midnight.
pub open spec fn midnight_time() -> Seq<char> {
    " 00:00:00 "@
}

/// Formats midnight of the given date in the machine's local time zone as
/// `%a, %d %b %Y %H:%M:%S %z` (chrono's `and_local_timezone(Local)` and
/// `format`). `None` where that local time does not exist or is ambiguous.
/// Claimed: a produced text starts with the date as `rfc822_day` names it and
/// `" 00:00:00 "`, as the local time printed is that date's midnight. Nothing
/// is stated of the offset that follows, nor of when `None` comes: both depend
/// on the machine's time zone.
#[verifier::external_body]
fn local_midnight_rfc822(year: i32, month: u32, day: u32) -> (r: Option<String>)
    ensures
        r matches Some(s) ==> (rfc822_day((year, month, day)) + midnight_time()).is_prefix_of(s@),
{
    let date = NaiveDate::from_ymd_opt(year, month, day)?;
    match date.and_time(NaiveTime::default()).and_local_timezone(Local) {
        MappedLocalTime::Single(dt) => Some(dt.format("%a, %d %b %Y %H:%M:%S %z").to_string()),
        MappedLocalTime::Ambiguous(_, _) => None,
        MappedLocalTime::None => None,
    }
}

/// The text that chrono's `format` prints, with the strftime-style `format`,
/// for the UTC instant `secs` seconds and `nanos` nanoseconds after the Unix
/// epoch.
pub uninterp spec fn chrono_utc_format(secs: i64, nanos: u32, format: Seq<char>) -> Seq<char>;

/// The strftime-style format of a feed's publication and build dates.
pub open spec fn feed_time_format() -> Seq<char> {
    "%a, %d %b %Y %H:%M:%S GMT"@
}

/// The current time (`chrono::Utc::now()`) formatted with the strftime-style
/// `format`; `None` where the format cannot be used. Claimed: a produced text
/// is what chrono prints with that format for some UTC instant (the current
/// one, which is not stated). With the feed
/// time format (weekday and month names, day, year, hour, minute, second and
/// literal text, all of which a UTC date-time has) chrono's formatting does not
/// fail, so the result is `Some`. Nothing is stated of the text: it depends on
/// the clock. The same holds of the default date format `%d-%m-%Y`, whose
/// items are all numbers of the date.
#[verifier::external_body]
pub(crate) fn utc_now_formatted(format: &str) -> (r: Option<String>)
    ensures
        r matches Some(s) ==> exists|secs: i64, nanos: u32| s@ == #[trigger] chrono_utc_format(secs, nanos, format@),
        format@ == feed_time_format() ==> r is Some,
        format@ == crate::rss::default_date_format() ==> r is Some,
{
    let mut out = String::new();
    write!(out, "{}", Utc::now().format(format)).ok().map(|_| out)
}

/// Why a date could not be turned into an RFC 822 date.
#[derive(Debug, PartialEq, Eq, Structural)]
pub enum RssDateError {
    /// The date does not match its format.
    Unparsable,
    /// Midnight of that date does not exist, or is ambiguous, in the local time zone.
    NoLocalTime,
    /// The current time could not be formatted with the date format.
    NoClock,
}

/// What `convert_to_rfc822` can return for a date written as `date` in
/// `format`: `Unparsable` exactly when it does not read; else local midnight
/// of the date it reads (its day and `00:00:00`, then the local offset), or
/// `NoLocalTime` where the local time zone has no single such midnight.
pub open spec fn rfc822_outcome(r: Result<String, RssDateError>, date: Seq<char>, format: Seq<char>) -> bool {
    match chrono_naive_date(date, format) {
        None => r == Err::<String, RssDateError>(RssDateError::Unparsable),
        Some(d) => match r {
            Ok(s) => (rfc822_day(d) + midnight_time()).is_prefix_of(s@),
            Err(e) => e == RssDateError::NoLocalTime,
        },
    }
}

/// The date `date_string`, written in `date_format`, as an RFC 822 date at
/// local midnight (see `rfc822_outcome`).
pub fn convert_to_rfc822(date_string: &str, date_format: &str) -> (r: Result<String, RssDateError>)
    ensures
        rfc822_outcome(r, date_string@, date_format@),
{
    match parse_date(date_string, date_format) {
        None => Err(RssDateError::Unparsable),
        Some((y, m, d)) => match local_midnight_rfc822(y, m, d) {
            Some(s) => Ok(s),
            None => Err(RssDateError::NoLocalTime),
        },
    }
}

/// Where a feed is written: the directory to create, if it must be created
/// here, and the file.
#[derive(Debug)]
pub struct RssRenderPath {
    pub dir: Option<String>,
    pub file: String,
}

/// Where the feed asked for at `requested_rss_serve_path` is written under the
/// static directory: `index.xml` inside it when the requested path is a
/// directory (the directory is then created), else the file itself.
pub fn decide_static_rss_render_path(
    local_render_env: &RenderEnv,
    requested_rss_serve_path: &str,
    requested_is_dir: bool,
) -> (r: RssRenderPath)
    ensures
        requested_is_dir ==> (r.dir matches Some(d) && d@ == local_render_env.static_base@ + "/"@ + clean_path(
            requested_rss_serve_path@,
        ) && r.file@ == d@ + "/index.xml"@),
        !requested_is_dir ==> r.dir is None && r.file@ == local_render_env.static_base@ + "/"@ + clean_path(
            requested_rss_serve_path@,
        ),
{
    let a = trim(requested_rss_serve_path);
    let b = trim_end_matches(a.as_str(), '/');
    let clean = trim_start_matches(b.as_str(), '/');
    let base = concat(local_render_env.static_base.as_str(), "/");
    let target = concat(base.as_str(), clean.as_str());
    if requested_is_dir {
        let file = concat(target.as_str(), "/index.xml");
        RssRenderPath { dir: Some(target), file }
    } else {
        RssRenderPath { dir: None, file: target }
    }
}

} // verus!
