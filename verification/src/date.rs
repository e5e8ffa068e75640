//! Calendar dates written as `YYYY-MM-DD`, in the local calendar.
//!
//! A date is handled as its day number counted from January 1 of year 1
//! (day 1) in the proleptic Gregorian calendar.  Reading and writing the
//! text form are done by `chrono`; day arithmetic is on the day numbers.

use vstd::prelude::*;
use chrono::Datelike;
use crate::text::text_lt;

verus! {

/// The first day number a calendar date can have.
pub const MIN_DAY: i32 = -95746129i32;

/// The last day number a calendar date can have.
pub const MAX_DAY: i32 = 95745399i32;

/// Whether `d` is the day number of a representable calendar date.
pub open spec fn day_in_range(d: int) -> bool {
    MIN_DAY <= d <= MAX_DAY
}

/// The day number that `chrono` reads from a text in the `%Y-%m-%d` format,
/// or `None` where the text is not such a date.
pub uninterp spec fn ymd_parse(s: Seq<char>) -> Option<int>;

/// The `%Y-%m-%d` text that `chrono` writes for a day number.
pub uninterp spec fn ymd_text(day: int) -> Seq<char>;

/// Reads a `%Y-%m-%d` date.
///
/// Calls `chrono::NaiveDate::parse_from_str` with the format `%Y-%m-%d`.
/// Claimed: the result is the name `ymd_parse` of the text, and a date that
/// was read lies in the representable range.
#[verifier::external_body]
pub(crate) fn parse_date(s: &str) -> (r: Option<i32>)
    ensures
        match r {
            Some(d) => ymd_parse(s@) == Some(d as int) && day_in_range(d as int),
            None => ymd_parse(s@) is None,
        },
{
    match chrono::NaiveDate::parse_from_str(s, "%Y-%m-%d") {
        Ok(date) => Some(date.num_days_from_ce()),
        Err(_) => None,
    }
}

/// The day before `d`; `None` for the first representable date.  Day
/// numbers of consecutive dates are consecutive.
pub(crate) fn pred_day(d: i32) -> (r: Option<i32>)
    requires
        day_in_range(d as int),
    ensures
        r == (if d > MIN_DAY { Some((d - 1) as i32) } else { None::<i32> }),
{
    if d > MIN_DAY {
        Some(d - 1)
    } else {
        None
    }
}

/// The date `n` days before `d`, or `None` where it is not representable.
pub(crate) fn sub_days(d: i32, n: u32) -> (r: Option<i32>)
    requires
        day_in_range(d as int),
    ensures
        r == (if day_in_range(d - n) { Some((d - n) as i32) } else { None::<i32> }),
{
    let e = d as i64 - n as i64;
    if MIN_DAY as i64 <= e && e <= MAX_DAY as i64 {
        Some(e as i32)
    } else {
        None
    }
}

/// The number of days from `from` to `to`: the difference of the day numbers.
pub(crate) fn days_since(from: i32, to: i32) -> (r: i64)
    requires
        day_in_range(from as int),
        day_in_range(to as int),
    ensures
        r == to - from,
{
    to as i64 - from as i64
}

/// The first day of year 0.
pub const FIRST_FOUR_DIGIT_DAY: i32 = -365i32;

/// The last day of year 9999.
pub const LAST_FOUR_DIGIT_DAY: i32 = 3652059i32;

/// Whether the day lies in years 0 to 9999, which are written with four
/// digits, so that the `YYYY-MM-DD` texts of such days sort as the days do.
pub open spec fn four_digit_day(d: int) -> bool {
    FIRST_FOUR_DIGIT_DAY <= d <= LAST_FOUR_DIGIT_DAY
}

/// The `%Y-%m-%d` text of a day.
///
/// Calls `chrono::NaiveDate::format` with `%Y-%m-%d`.  Claimed: the result
/// is the name `ymd_text` of the day number, and it is read back by
/// `parse_from_str` with the same format as the same day (chrono writes
/// years outside 0 to 9999 with a sign, which `%Y` reads).  For years 0 to
/// 9999 chrono writes the year with four digits and month and day with two,
/// zero-padded, so (claimed as well) such texts sort as their days do.
#[verifier::external_body]
pub(crate) fn day_text(d: i32) -> (r: String)
    requires
        day_in_range(d as int),
    ensures
        r@ == ymd_text(d as int),
        ymd_parse(r@) == Some(d as int),
        four_digit_day(d as int) ==> forall|e: int| #[trigger] four_digit_day(e) ==> (text_lt(
            ymd_text(e),
            r@,
        ) <==> e < d) && (text_lt(r@, ymd_text(e)) <==> d < e),
{
    chrono::NaiveDate::from_num_days_from_ce_opt(d).unwrap().format("%Y-%m-%d").to_string()
}

/// The date before the given one, as text; a text that is not a date, or
/// the first representable date, is returned as it is.
pub open spec fn prior_day_text(s: Seq<char>) -> Seq<char> {
    match ymd_parse(s) {
        Some(d) if d > MIN_DAY => ymd_text(d - 1),
        _ => s,
    }
}

/// Days from one date to another; 0 where either text is not a date.
pub open spec fn days_between_text(from: Seq<char>, to: Seq<char>) -> int {
    match (ymd_parse(from), ymd_parse(to)) {
        (Some(a), Some(b)) => b - a,
        _ => 0,
    }
}

/// The date before `date`, or `date` itself where it is not a date.
pub fn prior_day_str(date: &str) -> (r: String)
    ensures
        r@ == prior_day_text(date@),
        match ymd_parse(date@) {
            Some(t) => t > MIN_DAY ==> ymd_parse(r@) == Some(t - 1),
            None => true,
        },
{
    match parse_date(date) {
        Some(d) => match pred_day(d) {
            Some(p) => day_text(p),
            None => String::from_str(date),
        },
        None => String::from_str(date),
    }
}

/// Days from `from` to `to`; 0 where either is not a date.
pub fn days_between_str(from: &str, to: &str) -> (r: i64)
    ensures
        r == days_between_text(from@, to@),
{
    match (parse_date(from), parse_date(to)) {
        (Some(a), Some(b)) => days_since(a, b),
        _ => 0,
    }
}

} // verus!
