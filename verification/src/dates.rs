//! Day-first date handling and deadline extraction.
//!
//! The portal writes dates as `DD.MM.YYYY`.  Parsing is total: anything that
//! is not a calendar-valid date in exactly that shape yields the sentinel
//! earliest date, so downstream ordering treats unparsable dates as oldest.
//!
//! Deadline extraction scans free-text warning messages for a fixed phrase
//! (`"bis "` in the sign-up flow, `"bis zum "` in the sign-off flow) followed
//! by exactly one `DD.MM.YYYY` group, and captures the leftmost such group.

use vstd::prelude::*;
use crate::text::{digit_val, digits_val, is_digit_char, spec_match_at};

verus! {

/// A calendar date, day-first, as decoded from portal text.
#[derive(Clone, Copy, Debug, PartialEq, Eq, Structural)]
pub struct Date {
    pub year: u32,
    pub month: u32,
    pub day: u32,
}

/// The sentinel "earliest possible date" used for unparsable input.
pub open spec fn spec_sentinel_date() -> Date {
    Date { year: 1970, month: 1, day: 1 }
}

pub fn sentinel_date() -> (d: Date)
    ensures
        d == spec_sentinel_date(),
{
    Date { year: 1970, month: 1, day: 1 }
}

pub open spec fn spec_is_leap_year(y: int) -> bool {
    (y % 4 == 0 && y % 100 != 0) || y % 400 == 0
}

pub open spec fn spec_days_in_month(y: int, m: int) -> int {
    if m == 2 {
        if spec_is_leap_year(y) {
            29
        } else {
            28
        }
    } else if m == 4 || m == 6 || m == 9 || m == 11 {
        30
    } else {
        31
    }
}

/// A calendar-valid year/month/day combination.
pub open spec fn spec_valid_date(y: int, m: int, d: int) -> bool {
    1 <= m <= 12 && 1 <= d <= spec_days_in_month(y, m)
}

/// A numeric key that orders dates chronologically.
pub open spec fn spec_date_key(d: Date) -> int {
    d.year * 10000 + d.month * 100 + d.day
}

pub fn date_key(d: &Date) -> (k: u64)
    ensures
        k as int == spec_date_key(*d),
{
    (d.year as u64) * 10000 + (d.month as u64) * 100 + (d.day as u64)
}

/// Ten characters in the shape `DD.MM.YYYY`, all digits in place.
pub open spec fn spec_is_date_shape(s: Seq<char>) -> bool {
    s.len() == 10 && is_digit_char(s[0]) && is_digit_char(s[1]) && s[2] == '.' && is_digit_char(
        s[3],
    ) && is_digit_char(s[4]) && s[5] == '.' && is_digit_char(s[6]) && is_digit_char(s[7])
        && is_digit_char(s[8]) && is_digit_char(s[9])
}

pub open spec fn spec_shape_day(s: Seq<char>) -> int {
    digit_val(s[0]) * 10 + digit_val(s[1])
}

pub open spec fn spec_shape_month(s: Seq<char>) -> int {
    digit_val(s[3]) * 10 + digit_val(s[4])
}

pub open spec fn spec_shape_year(s: Seq<char>) -> int {
    ((digit_val(s[6]) * 10 + digit_val(s[7])) * 10 + digit_val(s[8])) * 10 + digit_val(s[9])
}

/// Parse `DD.MM.YYYY` strictly; anything else is the sentinel date.
pub open spec fn spec_parse_date(s: Seq<char>) -> Date {
    if spec_is_date_shape(s) && spec_valid_date(
        spec_shape_year(s),
        spec_shape_month(s),
        spec_shape_day(s),
    ) {
        Date {
            year: spec_shape_year(s) as u32,
            month: spec_shape_month(s) as u32,
            day: spec_shape_day(s) as u32,
        }
    } else {
        spec_sentinel_date()
    }
}

fn digit_at(s: &str, i: usize) -> (r: Option<u32>)
    requires
        i < s@.len(),
    ensures
        (r is Some) == is_digit_char(s@[i as int]),
        r matches Some(v) ==> v as int == digit_val(s@[i as int]),
{
    let u = s.get_char(i) as u32;
    if 0x30 <= u && u <= 0x39 {
        Some(u - 0x30)
    } else {
        None
    }
}

/// Decode a date written `DD.MM.YYYY`; on any failure return the sentinel.
pub fn parse_date(s: &str) -> (d: Date)
    ensures
        d == spec_parse_date(s@),
{
    let n = s.unicode_len();
    if n != 10 {
        return sentinel_date();
    }
    if s.get_char(2) != '.' || s.get_char(5) != '.' {
        return sentinel_date();
    }
    let d0 = digit_at(s, 0);
    let d1 = digit_at(s, 1);
    let m0 = digit_at(s, 3);
    let m1 = digit_at(s, 4);
    let y0 = digit_at(s, 6);
    let y1 = digit_at(s, 7);
    let y2 = digit_at(s, 8);
    let y3 = digit_at(s, 9);
    match (d0, d1, m0, m1, y0, y1, y2, y3) {
        (
            Some(d0),
            Some(d1),
            Some(m0),
            Some(m1),
            Some(y0),
            Some(y1),
            Some(y2),
            Some(y3),
        ) => {
            let day = d0 * 10 + d1;
            let month = m0 * 10 + m1;
            let year = ((y0 * 10 + y1) * 10 + y2) * 10 + y3;
            if valid_date(year, month, day) {
                Date { year, month, day }
            } else {
                sentinel_date()
            }
        },
        _ => sentinel_date(),
    }
}

fn is_leap_year(y: u32) -> (b: bool)
    ensures
        b == spec_is_leap_year(y as int),
{
    (y % 4 == 0 && y % 100 != 0) || y % 400 == 0
}

fn valid_date(y: u32, m: u32, d: u32) -> (b: bool)
    ensures
        b == spec_valid_date(y as int, m as int, d as int),
{
    if m < 1 || m > 12 || d < 1 {
        return false;
    }
    let max_day: u32 = if m == 2 {
        if is_leap_year(y) {
            29
        } else {
            28
        }
    } else if m == 4 || m == 6 || m == 9 || m == 11 {
        30
    } else {
        31
    };
    d <= max_day
}

/// `prefix` occurs at `i`, immediately followed by a `DD.MM.YYYY` group.
pub open spec fn spec_deadline_match_at(s: Seq<char>, prefix: Seq<char>, i: int) -> bool {
    spec_match_at(s, prefix, i) && i + prefix.len() + 10 <= s.len() && spec_is_date_shape(
        s.subrange(i + prefix.len(), i + prefix.len() + 10),
    )
}

/// The date group after the leftmost occurrence of `prefix` followed by a
/// date group, scanning from position `i`.
pub open spec fn spec_find_date_after_from(s: Seq<char>, prefix: Seq<char>, i: int) -> Option<
    Seq<char>,
>
    decreases s.len() - i,
    when 0 <= i
{
    if i + prefix.len() + 10 > s.len() {
        None
    } else if spec_deadline_match_at(s, prefix, i) {
        Some(s.subrange(i + prefix.len(), i + prefix.len() + 10))
    } else {
        spec_find_date_after_from(s, prefix, i + 1)
    }
}

/// The captured deadline for a warning text: the `DD.MM.YYYY` group after
/// the leftmost occurrence of `prefix`, or `None` where no such group exists.
pub open spec fn spec_find_date_after(s: Seq<char>, prefix: Seq<char>) -> Option<Seq<char>> {
    spec_find_date_after_from(s, prefix, 0)
}

fn date_shape_at(s: &str, i: usize) -> (b: bool)
    requires
        i + 10 <= s@.len(),
        s@.len() <= usize::MAX,
    ensures
        b == spec_is_date_shape(s@.subrange(i as int, i + 10)),
{
    let ghost t = s@.subrange(i as int, i + 10);
    let r = digit_at(s, i).is_some() && digit_at(s, i + 1).is_some() && s.get_char(i + 2) == '.'
        && digit_at(s, i + 3).is_some() && digit_at(s, i + 4).is_some() && s.get_char(i + 5) == '.'
        && digit_at(s, i + 6).is_some() && digit_at(s, i + 7).is_some() && digit_at(
        s,
        i + 8,
    ).is_some() && digit_at(s, i + 9).is_some();
    proof {
        assert(t.len() == 10);
        assert forall|k: int| 0 <= k < 10 implies t[k] == s@[i + k] by {}
    }
    r
}

/// Capture the date following the leftmost occurrence of `prefix` in `s`.
pub fn find_date_after(s: &str, prefix: &str) -> (r: Option<String>)
    ensures
        (r is Some) == (spec_find_date_after(s@, prefix@) is Some),
        r matches Some(v) ==> spec_find_date_after(s@, prefix@) == Some(v@),
{
    let n = s.unicode_len();
    let m = prefix.unicode_len();
    if m > n || n - m < 10 {
        return None;
    }
    let last = n - m - 10;
    let mut i: usize = 0;
    while i <= last
        invariant
            0 <= i <= last + 1,
            last == n - m - 10,
            m + 10 <= n,
            n == s@.len(),
            m == prefix@.len(),
            spec_find_date_after(s@, prefix@) == spec_find_date_after_from(s@, prefix@, i as int),
        decreases n - i,
    {
        if crate::text::match_at(s, prefix, i) && date_shape_at(s, i + m) {
            let cap = s.substring_char(i + m, i + m + 10);
            proof {
                assert(spec_deadline_match_at(s@, prefix@, i as int));
                assert(cap@ == s@.subrange(i + m, i + m + 10));
            }
            return Some(String::from_str(cap));
        }
        proof {
            assert(!spec_deadline_match_at(s@, prefix@, i as int));
        }
        i = i + 1;
    }
    proof {
        assert(spec_find_date_after_from(s@, prefix@, i as int) is None);
    }
    None
}

} // verus!
