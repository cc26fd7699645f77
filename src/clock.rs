use chrono::Datelike;
use vstd::prelude::*;

use crate::date::{date_text, CalDate};
use crate::level::LogType;
use crate::line::{lemma_token_after_timestamp, record_line};

verus! {

/// One reading of the UTC clock: its calendar date and its RFC 3339 text.
pub struct Stamp {
    pub date: CalDate,
    pub text: String,
}

/// Whether a character is an ASCII decimal digit.
pub open spec fn is_digit(c: char) -> bool {
    '0' <= c <= '9'
}

/// Whether a text holds no newline.
pub open spec fn no_newline(s: Seq<char>) -> bool {
    forall|i: int| 0 <= i < s.len() ==> s[i] != '\n'
}

/// The offset that ends every UTC timestamp.
pub open spec fn utc_offset() -> Seq<char> {
    seq!['+', '0', '0', ':', '0', '0']
}

/// RFC 3339 text of an instant on the date `d` with the UTC offset:
/// `YYYY-MM-DDTHH:MM:SS`, then a fraction of 3, 6 or 9 digits or none, then
/// `+00:00`.
pub open spec fn rfc3339_utc(d: CalDate, ts: Seq<char>) -> bool {
    &&& ts.len() == 25 || ts.len() == 29 || ts.len() == 32 || ts.len() == 35
    &&& ts.subrange(0, 10) == date_text(d)
    &&& ts[10] == 'T' && ts[13] == ':' && ts[16] == ':'
    &&& is_digit(ts[11]) && is_digit(ts[12]) && is_digit(ts[14]) && is_digit(ts[15])
    &&& is_digit(ts[17]) && is_digit(ts[18])
    &&& ts.len() > 25 ==> ts[19] == '.' && forall|i: int|
        20 <= i < ts.len() - 6 ==> #[trigger] is_digit(ts[i])
    &&& ts.subrange(ts.len() - 6, ts.len() as int) == utc_offset()
}

/// What holds of every reading of the clock: a calendar date, and text with no
/// newline that ends in the UTC offset; for the years 0 to 9999 the text is
/// RFC 3339 on that very date.
pub open spec fn stamp_ok(d: CalDate, ts: Seq<char>) -> bool {
    &&& d.wf()
    &&& no_newline(ts)
    &&& ts.len() >= 6
    &&& ts.subrange(ts.len() - 6, ts.len() as int) == utc_offset()
    &&& 0 <= d.year <= 9999 ==> rfc3339_utc(d, ts)
}

/// A line stamped with a reading of the clock in the years 0 to 9999 starts
/// with the reading's date, and its timestamp ends in the UTC offset right
/// before the space and the severity token.
pub proof fn lemma_line_starts_with_date(d: CalDate, ts: Seq<char>, level: LogType, msg: Seq<char>)
    requires
        stamp_ok(d, ts),
        0 <= d.year <= 9999,
    ensures
        record_line(ts, level, msg).subrange(0, 10) == date_text(d),
        record_line(ts, level, msg)[10] == 'T',
        record_line(ts, level, msg).subrange(ts.len() - 6, ts.len() as int) == utc_offset(),
        record_line(ts, level, msg).subrange(ts.len() as int + 1, ts.len() as int + 5) == level.token(),
{
    lemma_token_after_timestamp(ts, level, msg);
    let line = record_line(ts, level, msg);
    assert(line.subrange(0, 10) =~= line.subrange(0, ts.len() as int).subrange(0, 10));
    assert(line.subrange(ts.len() - 6, ts.len() as int) =~= line.subrange(0, ts.len() as int).subrange(
        ts.len() - 6,
        ts.len() as int,
    ));
    assert(line[10] == line.subrange(0, ts.len() as int)[10]);
}

/// Relies on std's SystemTime::elapsed on UNIX_EPOCH: the time since the epoch
/// as whole seconds and the nanoseconds past them, or `None` where the clock
/// reads before the epoch.
#[verifier::external_body]
fn epoch_elapsed() -> (r: Option<(u64, u32)>)
    ensures
        r matches Some((s, n)) ==> n < 1_000_000_000,
{
    match std::time::UNIX_EPOCH.elapsed() {
        Ok(d) => Some((d.as_secs(), d.subsec_nanos())),
        Err(_) => None,
    }
}

/// Relies on chrono's DateTime::from_timestamp, which gives `None` outside the
/// dates it can hold, then on DateTime::date_naive with Datelike (month in
/// 1..=12, day in 1..=31) and DateTime::to_rfc3339 (written by chrono's
/// write_rfc3339 with the offset `+00:00`) on that same instant.
#[verifier::external_body]
fn utc_at(secs: i64, nanos: u32) -> (r: Option<Stamp>)
    requires
        nanos < 1_000_000_000,
    ensures
        r matches Some(s) ==> stamp_ok(s.date, s.text@),
{
    match chrono::DateTime::from_timestamp(secs, nanos) {
        Some(t) => {
            let n = t.date_naive();
            let date = CalDate { year: n.year(), month: n.month(), day: n.day() };
            Some(Stamp { date, text: t.to_rfc3339() })
        },
        None => None,
    }
}

/// Reads the UTC clock once, giving the date and the RFC 3339 text of the same
/// instant; `None` where the clock reads before 1970 or beyond the dates that
/// can be held.
pub fn now_utc() -> (r: Option<Stamp>)
    ensures
        r matches Some(s) ==> stamp_ok(s.date, s.text@),
{
    match epoch_elapsed() {
        None => None,
        Some((secs, nanos)) => {
            if secs > i64::MAX as u64 {
                None
            } else {
                utc_at(secs as i64, nanos)
            }
        },
    }
}

} // verus!
