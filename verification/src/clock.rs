//! Wall clocks: fourteen digits of local time, from the year down to the second.
use vstd::prelude::*;

use crate::error::{is_client, Error};
use crate::text::{all_digits, chars_of, code, is_digit};

verus! {

/// Year, month, day, hour, minute and second, without anything between them.
pub const WALL_CLOCK_FORMAT: &'static str = "%Y%m%d%H%M%S";

/// How far back a consumer begins that was told nothing else: half an hour.
pub const DEFAULT_BACK_MILLIS: i64 = 1_800_000;

/// One day. Every local time differs from universal time by less.
pub const DAY_MILLIS: i64 = 86_400_000;

/// The first millisecond of the year ten thousand.
pub const FIVE_DIGIT_YEARS: i64 = 253_402_300_800_000;

/// The last millisecond of the last year that `chrono` counts, 262142.
pub const LAST_MOMENT: i64 = 8_210_266_876_799_999;

/// What `chrono::NaiveDateTime::parse_from_str` reads in a text by a format, in milliseconds
/// since the start of 1970 as a clock without a time zone counts them; `None` where it reads
/// nothing.
pub uninterp spec fn naive_millis(text: Seq<char>, format: Seq<char>) -> Option<i64>;

/// `chrono::NaiveDateTime::parse_from_str`, its result as a count of milliseconds.
#[verifier::external_body]
fn parse_naive(text: &str, format: &str) -> (r: Option<i64>)
    ensures
        r == naive_millis(text@, format@),
{
    chrono::NaiveDateTime::parse_from_str(text, format).ok().map(|t| t.and_utc().timestamp_millis())
}

/// `chrono::TimeZone::from_local_datetime` of the local time zone: the moment at which clocks
/// here show `naive`, the earlier of two; none where they skip it. The moment is less than a
/// day away from `naive`. Which it is, and whether there is one, rests with the machine's
/// time zone, so nothing more is claimed.
#[verifier::external_body]
fn local_moment(naive: i64) -> (r: Option<i64>)
    ensures
        r matches Some(m) ==> naive - DAY_MILLIS < m < naive + DAY_MILLIS,
{
    let shown = chrono::DateTime::from_timestamp_millis(naive)?.naive_utc();
    let moment = chrono::TimeZone::from_local_datetime(&chrono::Local, &shown).earliest();
    moment.map(|t| t.timestamp_millis())
}

/// `chrono::Utc::now`, in milliseconds since the start of 1970. What it gives lies between that
/// and the last moment; on a machine whose clock stands outside of them it does not return.
/// Which moment it is rests with the machine's clock, so nothing more is claimed.
#[verifier::external_body]
fn now_millis() -> (r: i64)
    ensures
        0 <= r <= LAST_MOMENT,
{
    chrono::Utc::now().timestamp_millis()
}

/// The part of the system clock below one second, by `std::time::SystemTime::now` and
/// `Duration::subsec_nanos`: fewer than a thousand million nanoseconds, and otherwise any
/// number. There is none where the clock stands before 1970.
#[verifier::external_body]
pub(crate) fn clock_nanos() -> (r: Option<u32>)
    ensures
        r matches Some(n) ==> n < 1_000_000_000,
{
    std::time::SystemTime::now().duration_since(std::time::UNIX_EPOCH).ok().map(|d| d.subsec_nanos())
}

/// `chrono::DateTime::format` of a moment in the local time zone. Until the end of the year
/// 9999 it writes fourteen digits, and they are read back as a time less than a day away from
/// the moment; a later year is longer and has a sign before it. How far away it is rests with
/// the machine's time zone, so nothing more is claimed.
#[verifier::external_body]
fn local_text(moment: i64, format: &str) -> (r: String)
    requires
        -DAY_MILLIS <= moment <= LAST_MOMENT,
        format@ == WALL_CLOCK_FORMAT@,
    ensures
        shows(r@, moment),
{
    let utc = chrono::DateTime::from_timestamp_millis(moment).unwrap();
    utc.with_timezone(&chrono::Local).format(format).to_string()
}

/// A wall clock may show `text` at `moment`: fourteen digits that name a time less than a day
/// away from it. Only where the year has five digits the text is longer, and begins with a
/// sign.
pub open spec fn shows(text: Seq<char>, moment: i64) -> bool {
    if fourteen_digits(text) {
        naive_millis(text, WALL_CLOCK_FORMAT@) matches Some(n) && moment - DAY_MILLIS < n < moment + DAY_MILLIS
    } else {
        text.len() > 14 && text[0] == '+' && moment + DAY_MILLIS > FIVE_DIGIT_YEARS
    }
}

/// The text is what a wall clock may have shown `back` milliseconds before some moment.
pub open spec fn shown_before(text: Seq<char>, back: i64) -> bool {
    exists|now: i64| 0 <= now <= LAST_MOMENT && #[trigger] shows(text, (now - back) as i64)
}

/// What the wall clock shows at `now`.
pub fn wall_clock_at(now: i64) -> (r: String)
    requires
        0 <= now <= LAST_MOMENT,
    ensures
        shows(r@, now),
{
    local_text(now, WALL_CLOCK_FORMAT)
}

/// What the wall clock shows.
pub fn wall_clock() -> (r: String)
    ensures
        fourteen_digits(r@) || (r@.len() > 14 && r@[0] == '+'),
        shown_before(r@, 0),
{
    let now = now_millis();
    let r = wall_clock_at(now);
    assert(shows(r@, (now - 0) as i64));
    r
}

/// What the wall clock showed half an hour before `now`.
pub fn default_consume_timestamp_at(now: i64) -> (r: String)
    requires
        0 <= now <= LAST_MOMENT,
    ensures
        shows(r@, (now - DEFAULT_BACK_MILLIS) as i64),
{
    local_text(now - DEFAULT_BACK_MILLIS, WALL_CLOCK_FORMAT)
}

/// What the wall clock showed half an hour ago.
pub fn default_consume_timestamp() -> (r: String)
    ensures
        fourteen_digits(r@) || (r@.len() > 14 && r@[0] == '+'),
        shown_before(r@, DEFAULT_BACK_MILLIS),
{
    default_consume_timestamp_at(now_millis())
}

/// Fourteen decimal digits.
pub open spec fn fourteen_digits(s: Seq<char>) -> bool {
    s.len() == 14 && all_digits(s)
}

fn is_fourteen_digits(s: &str) -> (r: bool)
    ensures
        r == fourteen_digits(s@),
{
    let cs = chars_of(s);
    if cs.len() != 14 {
        return false;
    }
    let mut i: usize = 0;
    while i < cs.len()
        invariant
            i <= cs@.len(),
            cs@ == s@,
            forall|j: int| 0 <= j < i ==> is_digit(#[trigger] s@[j]),
        decreases cs@.len() - i,
    {
        let n: u32 = code(cs[i]);
        if n < 0x30 || n > 0x39 {
            assert(!is_digit(s@[i as int]));
            return false;
        }
        i = i + 1;
    }
    true
}

/// The failure of a time to begin at that is no wall clock.
pub open spec fn bad_timestamp(s: Seq<char>) -> Seq<char> {
    "consumeTimestamp is invalid, the valid format is yyyyMMddHHmmss,but received "@ + s
}

/// What a wall clock reading `s` means, when the local time zone puts it at `moment`.
pub fn timestamp_at(s: &str, moment: Option<i64>) -> (r: Result<i64, Error>)
    ensures
        match moment {
            Some(m) => r == Ok::<i64, Error>(m),
            None => r matches Err(e) && is_client(e, None, bad_timestamp(s@)),
        },
{
    match moment {
        Some(m) => Ok(m),
        None => Err(
            Error::client(
                "consumeTimestamp is invalid, the valid format is yyyyMMddHHmmss,but received ".to_owned().concat(
                    s,
                ).as_str(),
            ),
        ),
    }
}

/// What a wall clock reading names, without regard to a time zone. Only fourteen digits that
/// name a date and a time are a reading.
pub open spec fn reading(s: Seq<char>) -> Option<i64> {
    if fourteen_digits(s) {
        naive_millis(s, WALL_CLOCK_FORMAT@)
    } else {
        None
    }
}

/// What a wall clock reading names, in milliseconds as a clock without a time zone counts them.
pub fn naive_reading(s: &str) -> (r: Option<i64>)
    ensures
        r == reading(s@),
{
    if is_fourteen_digits(s) {
        parse_naive(s, WALL_CLOCK_FORMAT)
    } else {
        None
    }
}

/// What a wall clock shows, until the last day of the year 9999, is a reading, and one that
/// lies less than a day from when it was shown.
pub proof fn law_shown_clock_is_a_reading(text: Seq<char>, moment: i64)
    requires
        shows(text, moment),
        moment + DAY_MILLIS <= FIVE_DIGIT_YEARS,
    ensures
        reading(text) matches Some(n) && moment - DAY_MILLIS < n < moment + DAY_MILLIS,
{
}

/// The moment, in milliseconds, of a wall clock reading: less than a day away from what the
/// reading names. What is no reading has none, nor has one that the local clocks skip.
pub fn consume_timestamp_millis(s: &str) -> (r: Result<i64, Error>)
    ensures
        match r {
            Ok(m) => reading(s@) matches Some(n) && n - DAY_MILLIS < m < n + DAY_MILLIS,
            Err(e) => is_client(e, None, bad_timestamp(s@)),
        },
{
    match naive_reading(s) {
        Some(naive) => timestamp_at(s, local_moment(naive)),
        None => timestamp_at(s, None),
    }
}

} // verus!
