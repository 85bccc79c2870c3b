//! Calendar timestamps read from the report and history formats, their
//! order, and their ISO-8601 rendering.

use vstd::prelude::*;
use crate::text::push_char;
use chrono::{Datelike, Timelike};

verus! {

broadcast use vstd::string::group_string_axioms;

/// The date format of depot reports.
pub const DT_FMT_MANIFEST: &'static str = "%m/%d/%Y %H:%M:%S";

/// The ISO-8601 format of the launcher files.
pub const DT_FMT_8601: &'static str = "%Y-%m-%dT%H:%M:%SZ";

/// A naive date and time, taken as UTC. A leap second is written as a
/// nanosecond count of a billion or more.
#[derive(Clone, Copy, Debug, PartialEq, Eq, Structural)]
pub struct Timestamp {
    pub year: i32,
    pub month: u32,
    pub day: u32,
    pub hour: u32,
    pub minute: u32,
    pub second: u32,
    pub nanosecond: u32,
}

/// The ranges that every calendar timestamp keeps to.
pub open spec fn in_range(t: Timestamp) -> bool {
    1 <= t.month <= 12 && 1 <= t.day <= 31 && t.hour <= 23 && t.minute <= 59 && t.second <= 59
        && t.nanosecond < 2_000_000_000
}

/// What chrono's `NaiveDateTime::parse_from_str` reads from `s` with the
/// format `fmt`, if it accepts it.
pub uninterp spec fn parsed_datetime(s: Seq<char>, fmt: Seq<char>) -> Option<Timestamp>;

/// Relies on chrono's `NaiveDateTime::parse_from_str` to read `s` with the
/// format `fmt`, and on chrono's accessors for the ranges of the fields.
#[verifier::external_body]
fn parse_datetime(s: &str, fmt: &str) -> (r: Option<Timestamp>)
    ensures
        r == parsed_datetime(s@, fmt@),
        r matches Some(t) ==> in_range(t),
{
    match chrono::NaiveDateTime::parse_from_str(s, fmt) {
        Ok(d) => Some(
            Timestamp {
                year: d.year(),
                month: d.month(),
                day: d.day(),
                hour: d.hour(),
                minute: d.minute(),
                second: d.second(),
                nanosecond: d.nanosecond(),
            },
        ),
        Err(_) => None,
    }
}

/// Reads a depot report date, `MM/DD/YYYY HH:MM:SS`.
pub fn from_depot_manifest_date(s: &str) -> (r: Option<Timestamp>)
    ensures
        r == parsed_datetime(s@, DT_FMT_MANIFEST@),
        r matches Some(t) ==> in_range(t),
{
    parse_datetime(s, DT_FMT_MANIFEST)
}

/// Reads an ISO-8601 date of the launcher files, `YYYY-MM-DDTHH:MM:SSZ`.
pub fn from_leaf_manifest_date(s: &str) -> (r: Option<Timestamp>)
    ensures
        r == parsed_datetime(s@, DT_FMT_8601@),
        r matches Some(t) ==> in_range(t),
{
    parse_datetime(s, DT_FMT_8601)
}

/// Whether `a` is strictly later than `b`.
pub open spec fn is_later(a: Timestamp, b: Timestamp) -> bool {
    if a.year != b.year {
        a.year > b.year
    } else if a.month != b.month {
        a.month > b.month
    } else if a.day != b.day {
        a.day > b.day
    } else if a.hour != b.hour {
        a.hour > b.hour
    } else if a.minute != b.minute {
        a.minute > b.minute
    } else if a.second != b.second {
        a.second > b.second
    } else {
        a.nanosecond > b.nanosecond
    }
}

impl Timestamp {
    /// Whether `self` is strictly later than `other`.
    pub fn later_than(&self, other: &Timestamp) -> (r: bool)
        ensures
            r == is_later(*self, *other),
    {
        if self.year != other.year {
            self.year > other.year
        } else if self.month != other.month {
            self.month > other.month
        } else if self.day != other.day {
            self.day > other.day
        } else if self.hour != other.hour {
            self.hour > other.hour
        } else if self.minute != other.minute {
            self.minute > other.minute
        } else if self.second != other.second {
            self.second > other.second
        } else {
            self.nanosecond > other.nanosecond
        }
    }
}

/// The digit character for a value below ten.
pub open spec fn digit_char(d: int) -> char {
    if d == 0 {
        '0'
    } else if d == 1 {
        '1'
    } else if d == 2 {
        '2'
    } else if d == 3 {
        '3'
    } else if d == 4 {
        '4'
    } else if d == 5 {
        '5'
    } else if d == 6 {
        '6'
    } else if d == 7 {
        '7'
    } else if d == 8 {
        '8'
    } else {
        '9'
    }
}

/// The digit character for a value below ten.
fn digit(d: u32) -> (c: char)
    requires
        d < 10,
    ensures
        c == digit_char(d as int),
{
    if d == 0 {
        '0'
    } else if d == 1 {
        '1'
    } else if d == 2 {
        '2'
    } else if d == 3 {
        '3'
    } else if d == 4 {
        '4'
    } else if d == 5 {
        '5'
    } else if d == 6 {
        '6'
    } else if d == 7 {
        '7'
    } else if d == 8 {
        '8'
    } else {
        '9'
    }
}

/// `n` in two digits, zero-padded.
pub open spec fn two_digits(n: int) -> Seq<char> {
    seq![digit_char(n / 10), digit_char(n % 10)]
}

/// `n` in four digits, zero-padded.
pub open spec fn four_digits(n: int) -> Seq<char> {
    two_digits(n / 100) + two_digits(n % 100)
}

/// Whether a timestamp can be written with a four-digit year.
pub open spec fn leaf_renderable(t: Timestamp) -> bool {
    in_range(t) && 0 <= t.year <= 9999
}

/// The ISO-8601 text of a timestamp, `YYYY-MM-DDTHH:MM:SSZ`; a leap second
/// is written as second 60.
pub open spec fn leaf_text(t: Timestamp) -> Seq<char> {
    four_digits(t.year as int) + seq!['-'] + two_digits(t.month as int) + seq!['-'] + two_digits(
        t.day as int,
    ) + seq!['T'] + two_digits(t.hour as int) + seq![':'] + two_digits(t.minute as int) + seq![
        ':',
    ] + two_digits(t.second + t.nanosecond / 1_000_000_000) + seq!['Z']
}

/// Appends `n`, below a hundred, in two digits.
fn push_two(s: &mut String, n: u32)
    requires
        n < 100,
    ensures
        final(s)@ == old(s)@ + two_digits(n as int),
{
    push_char(s, digit(n / 10));
    push_char(s, digit(n % 10));
    assert(final(s)@ =~= old(s)@ + two_digits(n as int));
}

/// Writes a timestamp as the launcher files do, `YYYY-MM-DDTHH:MM:SSZ`;
/// gives nothing for a year that does not have four digits or a field out
/// of its calendar range.
pub fn to_leaf_date(t: &Timestamp) -> (r: Option<String>)
    ensures
        r is Some <==> leaf_renderable(*t),
        r matches Some(s) ==> s@ == leaf_text(*t),
{
    if t.year < 0 || t.year > 9999 || t.month < 1 || t.month > 12 || t.day < 1 || t.day > 31
        || t.hour > 23 || t.minute > 59 || t.second > 59 || t.nanosecond >= 2_000_000_000 {
        return None;
    }
    let y = t.year as u32;
    let mut s = String::new();
    push_two(&mut s, y / 100);
    push_two(&mut s, y % 100);
    push_char(&mut s, '-');
    push_two(&mut s, t.month);
    push_char(&mut s, '-');
    push_two(&mut s, t.day);
    push_char(&mut s, 'T');
    push_two(&mut s, t.hour);
    push_char(&mut s, ':');
    push_two(&mut s, t.minute);
    push_char(&mut s, ':');
    push_two(&mut s, t.second + t.nanosecond / 1_000_000_000);
    push_char(&mut s, 'Z');
    assert(s@ =~= leaf_text(*t));
    Some(s)
}

/// The release time of a depot snapshot: its report date written in
/// ISO-8601, or nothing where the date cannot be read or written.
pub fn release_time_of(manifest_date: &str) -> (r: Option<String>)
    ensures
        match parsed_datetime(manifest_date@, DT_FMT_MANIFEST@) {
            Some(t) => if leaf_renderable(t) {
                r matches Some(s) && s@ == leaf_text(t)
            } else {
                r is None
            },
            None => r is None,
        },
{
    match from_depot_manifest_date(manifest_date) {
        None => None,
        Some(t) => to_leaf_date(&t),
    }
}

} // verus!
