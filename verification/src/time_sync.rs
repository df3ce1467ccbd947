//! Setting the clock from the date that a web server reports: reading the
//! date, and the calendar that the reading rests on.

use vstd::prelude::*;
use crate::text::{
    chars_are, parse_number, parse_unsigned, split, split_chars, split_whitespace, to_chars,
    views, words,
};

verus! {

/// Seconds by which the local clock is ahead of Greenwich: seven hours.
pub const LOCAL_OFFSET_SECS: u64 = 25200;

/// Whether `y` is a leap year.
pub open spec fn spec_is_leap(y: nat) -> bool {
    (y % 4 == 0 && y % 100 != 0) || y % 400 == 0
}

/// The number of days of year `y`.
pub open spec fn year_len(y: nat) -> nat {
    if spec_is_leap(y) {
        366
    } else {
        365
    }
}

/// The number of days from the start of 1970 to the start of year `y`; zero
/// for a year up to 1970.
pub open spec fn days_before_year(y: nat) -> nat
    decreases y,
{
    if y <= 1970 {
        0
    } else {
        days_before_year((y - 1) as nat) + year_len((y - 1) as nat)
    }
}

/// The number of days of month `m` in a year that is no leap year; zero
/// where `m` is no month.
pub open spec fn common_month_len(m: nat) -> nat {
    if m == 2 {
        28
    } else if m == 4 || m == 6 || m == 9 || m == 11 {
        30
    } else if 1 <= m <= 12 {
        31
    } else {
        0
    }
}

/// The number of days of a year that is no leap year before the start of
/// month `m`.
pub open spec fn days_before_month(m: nat) -> nat
    decreases m,
{
    if m <= 1 {
        0
    } else {
        days_before_month((m - 1) as nat) + common_month_len((m - 1) as nat)
    }
}

/// The number of leap years from year 1 through year `y`.
pub open spec fn leaps_through(y: int) -> int {
    y / 4 - y / 100 + y / 400
}

/// Counting one year more counts one leap year more exactly where that year
/// is a leap year.
pub proof fn lemma_leap_step(y: nat)
    requires
        y >= 1,
    ensures
        leaps_through(y as int) - leaps_through(y - 1) == (if spec_is_leap(y) {
            1int
        } else {
            0int
        }),
{
}

/// The days before a year, in closed form.
pub proof fn lemma_days_before_year(y: nat)
    requires
        y >= 1970,
    ensures
        days_before_year(y) == 365 * (y - 1970) + leaps_through(y - 1) - 477,
    decreases y,
{
    if y > 1970 {
        lemma_days_before_year((y - 1) as nat);
        lemma_leap_step((y - 1) as nat);
    }
}

/// Whether `y` is a leap year.
pub fn is_leap(y: u64) -> (r: bool)
    ensures
        r == spec_is_leap(y as nat),
{
    (y % 4 == 0 && y % 100 != 0) || y % 400 == 0
}

/// The number of the month that `name` abbreviates, from 1 for `Jan` to 12
/// for `Dec`.
pub open spec fn month_number(name: Seq<char>) -> Option<nat> {
    if name == "Jan"@ {
        Some(1)
    } else if name == "Feb"@ {
        Some(2)
    } else if name == "Mar"@ {
        Some(3)
    } else if name == "Apr"@ {
        Some(4)
    } else if name == "May"@ {
        Some(5)
    } else if name == "Jun"@ {
        Some(6)
    } else if name == "Jul"@ {
        Some(7)
    } else if name == "Aug"@ {
        Some(8)
    } else if name == "Sep"@ {
        Some(9)
    } else if name == "Oct"@ {
        Some(10)
    } else if name == "Nov"@ {
        Some(11)
    } else if name == "Dec"@ {
        Some(12)
    } else {
        None
    }
}

/// The numbers of those parts that are numerals of a number that fits 64
/// bits, in order. A part that is none is passed over.
pub open spec fn numbers_of(parts: Seq<Seq<char>>) -> Seq<nat>
    decreases parts.len(),
{
    if parts.len() == 0 {
        Seq::empty()
    } else {
        match parse_unsigned(parts.last(), 0xffff_ffff_ffff_ffff) {
            Some(n) => numbers_of(parts.drop_last()).push(n),
            None => numbers_of(parts.drop_last()),
        }
    }
}

/// The seconds from the start of 1970 to the given moment. A day of the
/// month counts from one; February has one day more in a leap year.
pub open spec fn seconds_at(
    year: nat,
    month: nat,
    day: nat,
    hours: nat,
    minutes: nat,
    seconds: nat,
) -> nat {
    ((days_before_year(year) + days_before_month(month) + (if month > 2 && spec_is_leap(year) {
        1nat
    } else {
        0nat
    }) + day - 1) * 86400 + hours * 3600 + minutes * 60 + seconds) as nat
}

/// The moment that a date such as `Thu, 06 Feb 2026 11:30:00 GMT` names, in
/// seconds since the start of 1970. The date has at least five words; the
/// second is the day, the third the month's name, the fourth the year, and
/// the fifth holds hours, minutes and seconds between colons. There is no
/// moment where a word does not read or the day is zero.
pub open spec fn spec_parse_http_date(s: Seq<char>) -> Option<nat> {
    let w = words(s);
    if w.len() < 5 {
        None
    } else {
        match (
            parse_unsigned(w[1], 0xffff_ffff_ffff_ffff),
            month_number(w[2]),
            parse_unsigned(w[3], 0xffff_ffff_ffff_ffff),
        ) {
            (Some(day), Some(month), Some(year)) => {
                let t = numbers_of(split(w[4], ':'));
                if t.len() != 3 || day == 0 {
                    None
                } else {
                    Some(seconds_at(year, month, day, t[0], t[1], t[2]))
                }
            },
            _ => None,
        }
    }
}

/// The number of the month that `name` abbreviates.
fn month_of(name: &Vec<char>) -> (r: Option<u64>)
    ensures
        r is Some <==> month_number(name@) is Some,
        r matches Some(m) ==> month_number(name@) == Some(m as nat) && 1 <= m <= 12,
{
    if chars_are(name, "Jan") {
        Some(1)
    } else if chars_are(name, "Feb") {
        Some(2)
    } else if chars_are(name, "Mar") {
        Some(3)
    } else if chars_are(name, "Apr") {
        Some(4)
    } else if chars_are(name, "May") {
        Some(5)
    } else if chars_are(name, "Jun") {
        Some(6)
    } else if chars_are(name, "Jul") {
        Some(7)
    } else if chars_are(name, "Aug") {
        Some(8)
    } else if chars_are(name, "Sep") {
        Some(9)
    } else if chars_are(name, "Oct") {
        Some(10)
    } else if chars_are(name, "Nov") {
        Some(11)
    } else if chars_are(name, "Dec") {
        Some(12)
    } else {
        None
    }
}

/// The numbers found between the colons of `s`.
fn numbers(s: &Vec<char>) -> (r: Vec<u64>)
    ensures
        r@.len() == numbers_of(split(s@, ':')).len(),
        forall|i: int| 0 <= i < r@.len() ==> r@[i] as nat == #[trigger] numbers_of(
            split(s@, ':'),
        )[i],
{
    let parts = split_chars(s, ':');
    let mut r: Vec<u64> = Vec::new();
    let mut i: usize = 0;
    while i < parts.len()
        invariant
            i <= parts.len(),
            views(parts@) == split(s@, ':'),
            r@.len() == numbers_of(views(parts@).take(i as int)).len(),
            forall|j: int| 0 <= j < r@.len() ==> r@[j] as nat == #[trigger] numbers_of(
                views(parts@).take(i as int),
            )[j],
        decreases parts.len() - i,
    {
        proof {
            assert(views(parts@).take(i + 1).drop_last() =~= views(parts@).take(i as int));
            assert(views(parts@).take(i + 1).last() == parts@[i as int]@);
        }
        match parse_number(&parts[i], u64::MAX) {
            Some(n) => {
                r.push(n);
            },
            None => {},
        }
        i += 1;
    }
    assert(views(parts@).take(parts.len() as int) =~= views(parts@));
    r
}

/// The days from the start of 1970 to the start of year `year`.
pub fn count_days_before_year(year: u64) -> (r: u128)
    ensures
        r == days_before_year(year as nat),
        r <= 366 * year,
{
    if year <= 1970 {
        0
    } else {
        proof {
            lemma_days_before_year(year as nat);
        }
        let y: u128 = year as u128;
        let last: u128 = y - 1;
        365 * (y - 1970) + (last / 4 - last / 100 + last / 400) - 477
    }
}

/// The days of a year that is no leap year before the start of month
/// `month`.
pub(crate) fn count_days_before_month(month: u64) -> (r: u64)
    requires
        1 <= month <= 12,
    ensures
        r == days_before_month(month as nat),
        r <= 334,
{
    reveal_with_fuel(days_before_month, 13);
    if month == 1 {
        0
    } else if month == 2 {
        31
    } else if month == 3 {
        59
    } else if month == 4 {
        90
    } else if month == 5 {
        120
    } else if month == 6 {
        151
    } else if month == 7 {
        181
    } else if month == 8 {
        212
    } else if month == 9 {
        243
    } else if month == 10 {
        273
    } else if month == 11 {
        304
    } else {
        334
    }
}

/// The moment that the date `s` names, in seconds since the start of 1970,
/// where the date reads and the moment fits 64 bits.
pub fn parse_http_date(s: &str) -> (r: Option<u64>)
    ensures
        r is Some <==> (spec_parse_http_date(s@) is Some && spec_parse_http_date(s@)->0
            <= u64::MAX),
        r matches Some(v) ==> spec_parse_http_date(s@) == Some(v as nat),
{
    let chars = to_chars(s);
    let w = split_whitespace(&chars);
    if w.len() < 5 {
        return None;
    }
    proof {
        assert(views(w@)[1] == w@[1]@);
        assert(views(w@)[2] == w@[2]@);
        assert(views(w@)[3] == w@[3]@);
        assert(views(w@)[4] == w@[4]@);
    }
    let day = match parse_number(&w[1], u64::MAX) {
        Some(d) => d,
        None => {
            return None;
        },
    };
    let month = match month_of(&w[2]) {
        Some(m) => m,
        None => {
            return None;
        },
    };
    let year = match parse_number(&w[3], u64::MAX) {
        Some(y) => y,
        None => {
            return None;
        },
    };
    let t = numbers(&w[4]);
    if t.len() != 3 || day == 0 {
        return None;
    }
    let ghost total = seconds_at(
        year as nat,
        month as nat,
        day as nat,
        t@[0] as nat,
        t@[1] as nat,
        t@[2] as nat,
    );
    assert(spec_parse_http_date(s@) == Some(total));
    let leap_day: u128 = if month > 2 && is_leap(year) {
        1
    } else {
        0
    };
    let days: u128 = count_days_before_year(year) + count_days_before_month(month) as u128
        + leap_day + day as u128 - 1;
    let seconds: u128 = days * 86400 + t[0] as u128 * 3600 + t[1] as u128 * 60 + t[2] as u128;
    assert(seconds == total);
    if seconds > u64::MAX as u128 {
        None
    } else {
        Some(seconds as u64)
    }
}

/// The moment to set the local clock to, for the date that a server reports:
/// the moment that the date names, moved ahead by the local offset.
pub open spec fn spec_local_timestamp(date: Seq<char>) -> Option<nat> {
    match spec_parse_http_date(date) {
        Some(t) => Some(t + LOCAL_OFFSET_SECS as nat),
        None => None,
    }
}

/// The moment to set the local clock to, for the date that a server reports,
/// where the date reads and the moment fits 64 bits.
pub fn sync_time(date: &str) -> (r: Option<u64>)
    ensures
        r is Some <==> (spec_local_timestamp(date@) is Some && spec_local_timestamp(date@)->0
            <= u64::MAX),
        r matches Some(v) ==> spec_local_timestamp(date@) == Some(v as nat),
{
    match parse_http_date(date) {
        Some(t) => {
            if t > u64::MAX - LOCAL_OFFSET_SECS {
                None
            } else {
                Some(t + LOCAL_OFFSET_SECS)
            }
        },
        None => None,
    }
}

} // verus!
