//! Reading the host's metrics from what the system reports as text: memory,
//! flash, traffic, addresses, processes, kernel and local time.

use vstd::prelude::*;
use vstd::string::StringExecFns;
use crate::envelope::{decode, escape, escape_line, is_embeddable, lemma_escape_lossless};
use crate::network_config::parse_octet;
use crate::text::{
    all_digits, behind, capped, chars_are, chars_contain, chars_start_with, contains, decimal,
    digits, find_char, first_occurrence, from_chars, is_digit, last_index_of,
    lemma_decimal_reads_back, lines, number_or, or_text, padded, parse_hex, parse_hex_number,
    parse_number, parse_or, push_decimal, push_padded, rfind_char, slice_chars, split_lines,
    split_whitespace, starts_with, strip_quote_chars, strip_quotes, to_chars, trim, trim_chars,
    views, word_at, words,
};
use crate::time_sync::{
    common_month_len, days_before_month, days_before_year, is_leap, seconds_at, spec_is_leap,
    year_len, LOCAL_OFFSET_SECS,
};

verus! {

/// The number in the second word of `line`, as in `MemTotal:  61234 kB`; zero
/// where there is no second word or it is no number that fits 64 bits.
pub open spec fn spec_parse_kb(line: Seq<char>) -> nat {
    match word_at(line, 1) {
        Some(w) => number_or(w, 0xffff_ffff_ffff_ffff, 0),
        None => 0,
    }
}

/// The number in the second word of `line`.
pub fn parse_kb_chars(line: &Vec<char>) -> (r: u64)
    ensures
        r == spec_parse_kb(line@),
{
    let w = split_whitespace(line);
    if w.len() > 1 {
        assert(views(w@)[1] == w@[1]@);
        parse_or(&w[1], u64::MAX, 0)
    } else {
        0
    }
}

/// The number in the second word of `line`.
pub fn parse_kb(line: &str) -> (r: u64)
    ensures
        r == spec_parse_kb(line@),
{
    let chars = to_chars(line);
    parse_kb_chars(&chars)
}

/// The number of days of month `m` of year `y`.
pub open spec fn month_len(y: nat, m: nat) -> nat {
    if m == 2 && spec_is_leap(y) {
        29
    } else {
        common_month_len(m)
    }
}

/// The number of days from the start of 1970 to the day `d` of month `m` of
/// year `y`.
pub open spec fn day_number(y: nat, m: nat, d: nat) -> int {
    days_before_year(y) + days_before_month(m) + (if m > 2 && spec_is_leap(y) {
        1int
    } else {
        0int
    }) + d - 1
}

/// Whether day `d` of month `m` of year `y` is a date from 1970 on.
pub open spec fn is_date(y: nat, m: nat, d: nat) -> bool {
    y >= 1970 && 1 <= m <= 12 && 1 <= d <= month_len(y, m)
}

/// A date: year, month and day of the month.
pub struct Date {
    pub year: nat,
    pub month: nat,
    pub day: nat,
}

/// The month and the day of the month of the day that is `rem` days behind
/// the start of month `m` of year `y`.
pub open spec fn month_from(rem: nat, y: nat, m: nat) -> Date
    decreases 12 - m,
{
    if m >= 12 || rem < month_len(y, m) {
        Date { year: y, month: m, day: rem + 1 }
    } else {
        month_from((rem - month_len(y, m)) as nat, y, m + 1)
    }
}

/// The date of the day that is `rem` days behind the start of year `y`.
pub open spec fn year_from(rem: nat, y: nat) -> Date
    decreases rem,
{
    if rem < year_len(y) {
        month_from(rem, y, 1)
    } else {
        year_from((rem - year_len(y)) as nat, y + 1)
    }
}

/// The date of the day that is `days` days behind the first of January 1970.
pub open spec fn spec_days_to_ymd(days: nat) -> Date {
    year_from(days, 1970)
}

/// The days before each month of a year that is no leap year.
pub proof fn lemma_month_table()
    ensures
        days_before_month(1) == 0,
        days_before_month(2) == 31,
        days_before_month(3) == 59,
        days_before_month(4) == 90,
        days_before_month(5) == 120,
        days_before_month(6) == 151,
        days_before_month(7) == 181,
        days_before_month(8) == 212,
        days_before_month(9) == 243,
        days_before_month(10) == 273,
        days_before_month(11) == 304,
        days_before_month(12) == 334,
{
    reveal_with_fuel(days_before_month, 13);
}

/// The days of year `y` before the start of month `m`.
pub open spec fn days_into_year(y: nat, m: nat) -> nat {
    days_before_month(m) + (if m > 2 && spec_is_leap(y) {
        1nat
    } else {
        0nat
    })
}

/// A day within a year, counted on from the start of a month, falls on a date
/// of that year.
pub proof fn lemma_month_from(rem: nat, y: nat, m: nat)
    requires
        1 <= m <= 12,
        y >= 1970,
        days_into_year(y, m) + rem < year_len(y),
    ensures
        is_date(month_from(rem, y, m).year, month_from(rem, y, m).month, month_from(rem, y, m).day),
        month_from(rem, y, m).year == y,
        day_number(y, month_from(rem, y, m).month, month_from(rem, y, m).day) == days_before_year(y)
            + days_into_year(y, m) + rem,
    decreases 12 - m,
{
    lemma_month_table();
    if m >= 12 || rem < month_len(y, m) {
    } else {
        lemma_month_from((rem - month_len(y, m)) as nat, y, m + 1);
    }
}

/// A day counted on from the start of a year falls on a date.
pub proof fn lemma_year_from(rem: nat, y: nat)
    requires
        y >= 1970,
    ensures
        is_date(year_from(rem, y).year, year_from(rem, y).month, year_from(rem, y).day),
        day_number(year_from(rem, y).year, year_from(rem, y).month, year_from(rem, y).day)
            == days_before_year(y) + rem,
    decreases rem,
{
    if rem < year_len(y) {
        lemma_month_table();
        lemma_month_from(rem, y, 1);
    } else {
        lemma_year_from((rem - year_len(y)) as nat, y + 1);
    }
}

/// The date of a day is a date of the calendar, and it is the date of that
/// day: counting the days from the first of January 1970 to it gives the
/// number of the day back.
pub proof fn lemma_days_to_ymd(days: nat)
    ensures
        is_date(
            spec_days_to_ymd(days).year,
            spec_days_to_ymd(days).month,
            spec_days_to_ymd(days).day,
        ),
        day_number(
            spec_days_to_ymd(days).year,
            spec_days_to_ymd(days).month,
            spec_days_to_ymd(days).day,
        ) == days,
{
    lemma_year_from(days, 1970);
}

/// Reading a date and writing one undo each other: the date and the time of
/// day of a moment, read as a date is read from a server, give the moment
/// back.
pub proof fn lemma_date_names_its_moment(secs: nat)
    ensures
        seconds_at(
            spec_days_to_ymd(secs / 86400).year,
            spec_days_to_ymd(secs / 86400).month,
            spec_days_to_ymd(secs / 86400).day,
            (secs % 86400) / 3600,
            ((secs % 86400) % 3600) / 60,
            (secs % 86400) % 60,
        ) == secs,
{
    lemma_days_to_ymd(secs / 86400);
}

/// The number of days of month `m` of year `y`.
fn days_in_month(y: u64, m: u64) -> (r: u64)
    requires
        1 <= m <= 12,
    ensures
        r == month_len(y as nat, m as nat),
        28 <= r <= 31,
{
    if m == 2 {
        if is_leap(y) {
            29
        } else {
            28
        }
    } else if m == 4 || m == 6 || m == 9 || m == 11 {
        30
    } else {
        31
    }
}

/// The date of the day that is `days` days behind the first of January 1970:
/// year, month and day of the month.
pub fn days_to_ymd(days: u64) -> (r: (u64, u64, u64))
    ensures
        r.0 == spec_days_to_ymd(days as nat).year,
        r.1 == spec_days_to_ymd(days as nat).month,
        r.2 == spec_days_to_ymd(days as nat).day,
        is_date(r.0 as nat, r.1 as nat, r.2 as nat),
        day_number(r.0 as nat, r.1 as nat, r.2 as nat) == days,
{
    proof {
        lemma_days_to_ymd(days as nat);
    }
    let mut y: u64 = 1970;
    let mut rem: u64 = days;
    loop
        invariant
            1970 <= y,
            rem <= days,
            (y - 1970) * 365 <= days - rem,
            year_from(rem as nat, y as nat) == spec_days_to_ymd(days as nat),
        ensures
            rem < year_len(y as nat),
        decreases rem,
    {
        let len: u64 = if is_leap(y) {
            366
        } else {
            365
        };
        if rem < len {
            break ;
        }
        rem -= len;
        y += 1;
    }
    let mut mo: u64 = 1;
    while mo < 12 && rem >= days_in_month(y, mo)
        invariant
            1 <= mo <= 12,
            month_from(rem as nat, y as nat, mo as nat) == spec_days_to_ymd(days as nat),
        decreases 12 - mo,
    {
        rem -= days_in_month(y, mo);
        mo += 1;
    }
    (y, mo, rem + 1)
}

/// The local date and time at `secs` seconds since the start of 1970, as
/// `YYYY-MM-DD HH:MM:SS`. The local clock is seven hours ahead.
pub open spec fn spec_local_time(secs: nat) -> Seq<char> {
    let local = secs + LOCAL_OFFSET_SECS;
    let date = spec_days_to_ymd((local / 86400) as nat);
    let time = local % 86400;
    padded(date.year, 4) + seq!['-'] + padded(date.month, 2) + seq!['-'] + padded(date.day, 2)
        + seq![' '] + padded((time / 3600) as nat, 2) + seq![':'] + padded(
        ((time % 3600) / 60) as nat,
        2,
    ) + seq![':'] + padded((time % 60) as nat, 2)
}

/// The local date and time at `secs` seconds since the start of 1970.
pub fn read_local_time(secs: u64) -> (r: String)
    ensures
        r@ == spec_local_time(secs as nat),
{
    let local: u128 = secs as u128 + LOCAL_OFFSET_SECS as u128;
    let days: u64 = (local / 86400) as u64;
    let time: u64 = (local % 86400) as u64;
    let (y, mo, d) = days_to_ymd(days);
    let mut out = String::new();
    push_padded(&mut out, y, 4);
    out.push('-');
    push_padded(&mut out, mo, 2);
    out.push('-');
    push_padded(&mut out, d, 2);
    out.push(' ');
    push_padded(&mut out, time / 3600, 2);
    out.push(':');
    push_padded(&mut out, (time % 3600) / 60, 2);
    out.push(':');
    push_padded(&mut out, time % 60, 2);
    assert(out@ =~= spec_local_time(secs as nat));
    out
}

/// The memory of the host, in kilobytes.
#[derive(Clone, Copy, Debug, PartialEq, Eq, Structural)]
pub struct MemInfo {
    pub total: u64,
    pub available: u64,
    pub used: u64,
    pub buffered: u64,
    pub cached: u64,
}

/// The number that the last of `lines` that begins with `label` gives, and
/// zero where none begins with it.
pub open spec fn last_kb(lines: Seq<Seq<char>>, label: Seq<char>) -> nat
    decreases lines.len(),
{
    if lines.len() == 0 {
        0
    } else if starts_with(lines.last(), label) {
        spec_parse_kb(lines.last())
    } else {
        last_kb(lines.drop_last(), label)
    }
}

/// The memory that the report `content` gives: the numbers of its lines
/// `MemTotal:`, `MemAvailable:`, `Buffers:` and `Cached:`, and as used what
/// of the total is not available.
pub open spec fn spec_meminfo(content: Seq<char>) -> MemInfo {
    let ls = lines(content);
    let total = last_kb(ls, "MemTotal:"@) as u64;
    let available = last_kb(ls, "MemAvailable:"@) as u64;
    MemInfo {
        total,
        available,
        used: if total >= available {
            (total - available) as u64
        } else {
            0
        },
        buffered: last_kb(ls, "Buffers:"@) as u64,
        cached: last_kb(ls, "Cached:"@) as u64,
    }
}

/// The number that the last of `lines` that begins with `label` gives.
fn find_kb(lines: &Vec<Vec<char>>, label: &str) -> (r: u64)
    ensures
        r == last_kb(views(lines@), label@),
{
    let l = to_chars(label);
    let mut r: u64 = 0;
    let mut i: usize = 0;
    assert(views(lines@).take(0) =~= Seq::<Seq<char>>::empty());
    while i < lines.len()
        invariant
            i <= lines.len(),
            l@ == label@,
            r == last_kb(views(lines@).take(i as int), label@),
        decreases lines.len() - i,
    {
        proof {
            assert(views(lines@).take(i + 1).drop_last() =~= views(lines@).take(i as int));
            assert(views(lines@).take(i + 1).last() == lines@[i as int]@);
        }
        if chars_start_with(&lines[i], &l) {
            r = parse_kb_chars(&lines[i]);
        }
        i += 1;
    }
    assert(views(lines@).take(lines.len() as int) =~= views(lines@));
    r
}

/// The memory that the report `content` gives, in kilobytes.
pub fn read_meminfo_detailed(content: &str) -> (r: MemInfo)
    ensures
        r == spec_meminfo(content@),
{
    let chars = to_chars(content);
    let ls = split_lines(&chars);
    let total = find_kb(&ls, "MemTotal:");
    let available = find_kb(&ls, "MemAvailable:");
    let buffered = find_kb(&ls, "Buffers:");
    let cached = find_kb(&ls, "Cached:");
    MemInfo { total, available, used: total.saturating_sub(available), buffered, cached }
}

/// The version of the kernel: the third word of the report, or `Unknown`
/// where there is no report or it has fewer words.
pub open spec fn spec_kernel_version(content: Option<Seq<char>>) -> Seq<char> {
    match content {
        Some(c) => or_text(word_at(c, 2), "Unknown"@),
        None => "Unknown"@,
    }
}

/// The version of the kernel that the report `content` gives.
pub fn read_kernel_version(content: Option<&str>) -> (r: String)
    ensures
        r@ == spec_kernel_version(
            match content {
                Some(c) => Some(c@),
                None => None,
            },
        ),
{
    match content {
        Some(c) => {
            let chars = to_chars(c);
            let w = split_whitespace(&chars);
            if w.len() > 2 {
                assert(views(w@)[2] == w@[2]@);
                from_chars(&w[2])
            } else {
                "Unknown".to_owned()
            }
        },
        None => "Unknown".to_owned(),
    }
}

/// Whether `name` is the name of a process's directory: digits only.
pub open spec fn is_process_name(name: Seq<char>) -> bool {
    forall|i: int| 0 <= i < name.len() ==> '0' <= #[trigger] name[i] <= '9'
}

/// The number of names among `names` that are names of a process's
/// directory.
pub open spec fn spec_count_processes(names: Seq<Seq<char>>) -> nat
    decreases names.len(),
{
    if names.len() == 0 {
        0
    } else {
        spec_count_processes(names.drop_last()) + (if is_process_name(names.last()) {
            1nat
        } else {
            0nat
        })
    }
}

/// Whether `name` holds digits only.
fn all_ascii_digits(name: &Vec<char>) -> (r: bool)
    ensures
        r == is_process_name(name@),
{
    let mut i: usize = 0;
    while i < name.len()
        invariant
            i <= name.len(),
            forall|j: int| 0 <= j < i ==> '0' <= #[trigger] name@[j] <= '9',
        decreases name.len() - i,
    {
        let c = name[i];
        if !(c >= '0' && c <= '9') {
            return false;
        }
        i += 1;
    }
    true
}

/// The number of processes, from the names found in the directory of
/// processes.
pub fn count_processes(names: &Vec<String>) -> (r: usize)
    ensures
        r == spec_count_processes(crate::text::string_views(names@)),
{
    let ghost all = crate::text::string_views(names@);
    let mut r: usize = 0;
    let mut i: usize = 0;
    assert(all.take(0) =~= Seq::<Seq<char>>::empty());
    while i < names.len()
        invariant
            i <= names.len(),
            all == crate::text::string_views(names@),
            r == spec_count_processes(all.take(i as int)),
            r <= i,
        decreases names.len() - i,
    {
        proof {
            assert(all.take(i + 1).drop_last() =~= all.take(i as int));
            assert(all.take(i + 1).last() == names@[i as int]@);
        }
        let chars = to_chars(names[i].as_str());
        if all_ascii_digits(&chars) {
            r += 1;
        }
        i += 1;
    }
    assert(all.take(names.len() as int) =~= all);
    r
}

/// The sizes that a table of flash partitions gives: all partitions
/// together, and those that are fixed.
pub struct FlashSizes {
    pub total: nat,
    pub fixed: nat,
}

/// What one line of the table adds. A line counts where it has four words or
/// more and its second word is a hexadecimal number that fits 64 bits: that
/// is the size of the partition. The partition is fixed unless its name, the
/// fourth word without the quotes around it, is `rootfs_data` or `firmware`.
pub open spec fn add_partition(sizes: FlashSizes, line: Seq<char>) -> FlashSizes {
    let w = words(line);
    if w.len() >= 4 {
        match parse_hex(w[1], 0xffff_ffff_ffff_ffff) {
            Some(size) => FlashSizes {
                total: sizes.total + size,
                fixed: if strip_quotes(w[3]) != "rootfs_data"@ && strip_quotes(w[3])
                    != "firmware"@ {
                    sizes.fixed + size
                } else {
                    sizes.fixed
                },
            },
            None => sizes,
        }
    } else {
        sizes
    }
}

/// The sizes that the lines of the table give.
pub open spec fn flash_sizes(lines: Seq<Seq<char>>) -> FlashSizes
    decreases lines.len(),
{
    if lines.len() == 0 {
        FlashSizes { total: 0, fixed: 0 }
    } else {
        add_partition(flash_sizes(lines.drop_last()), lines.last())
    }
}

/// What the file system of the overlay reports: the size of a block, and the
/// numbers of all blocks and of the free ones.
#[derive(Clone, Copy, Debug, PartialEq, Eq, Structural)]
pub struct OverlayStat {
    pub block_size: u64,
    pub blocks: u64,
    pub free_blocks: u64,
}

/// How much of the flash is used.
#[derive(Clone, Copy, Debug, PartialEq, Eq, Structural)]
pub struct DiskUsage {
    /// Bytes in use.
    pub used: u64,
    /// Bytes of all partitions together.
    pub total: u64,
    /// What is in use as a percentage of the whole, up to 100.
    pub percent: u8,
}

/// The bytes in use on the overlay: what is not free, where the overlay was
/// read and has blocks.
pub open spec fn overlay_used(overlay: Option<OverlayStat>) -> u64 {
    match overlay {
        Some(o) => if o.blocks > 0 {
            let total = capped(o.blocks * o.block_size);
            let free = capped(o.free_blocks * o.block_size);
            if total >= free {
                (total - free) as u64
            } else {
                0
            }
        } else {
            0
        },
        None => 0,
    }
}

/// The usage of the flash: the fixed partitions count as used in full, and
/// the overlay counts with what is in use on it. Every number that passes 64
/// bits is taken as the largest that fits. The first line of the table is
/// its header. There is no usage where the table gives no size.
pub open spec fn spec_disk_usage(mtd: Option<Seq<char>>, overlay: Option<OverlayStat>) -> Option<
    DiskUsage,
> {
    let sizes = match mtd {
        Some(content) => flash_sizes(behind(lines(content), 1)),
        None => FlashSizes { total: 0, fixed: 0 },
    };
    let total = capped(sizes.total as int);
    let used = capped(capped(sizes.fixed as int) + overlay_used(overlay));
    if total > 0 {
        Some(
            DiskUsage {
                used,
                total,
                percent: if used * 100 / (total as int) > 100 {
                    100u8
                } else {
                    (used * 100 / (total as int)) as u8
                },
            },
        )
    } else {
        None
    }
}

/// The sizes that the lines of the table from the second on give, each
/// capped at 64 bits.
fn sum_partitions(ls: &Vec<Vec<char>>) -> (r: (u64, u64))
    ensures
        r.0 == capped(flash_sizes(behind(views(ls@), 1)).total as int),
        r.1 == capped(flash_sizes(behind(views(ls@), 1)).fixed as int),
{
    let mut total: u64 = 0;
    let mut fixed: u64 = 0;
    if ls.len() <= 1 {
        assert(behind(views(ls@), 1) =~= Seq::<Seq<char>>::empty());
        return (0, 0);
    }
    let ghost rest = views(ls@).skip(1);
    let mut i: usize = 1;
    assert(rest.take(0) =~= Seq::<Seq<char>>::empty());
    while i < ls.len()
        invariant
            1 <= i <= ls.len(),
            rest == views(ls@).skip(1),
            total == capped(flash_sizes(rest.take(i - 1)).total as int),
            fixed == capped(flash_sizes(rest.take(i - 1)).fixed as int),
        decreases ls.len() - i,
    {
        proof {
            assert(rest.take(i as int).drop_last() =~= rest.take(i - 1));
            assert(rest.take(i as int).last() == ls@[i as int]@);
        }
        let w = split_whitespace(&ls[i]);
        if w.len() >= 4 {
            assert(views(w@)[1] == w@[1]@);
            assert(views(w@)[3] == w@[3]@);
            match parse_hex_number(&w[1], u64::MAX) {
                Some(size) => {
                    total = total.saturating_add(size);
                    let name = strip_quote_chars(&w[3]);
                    if !chars_are(&name, "rootfs_data") && !chars_are(&name, "firmware") {
                        fixed = fixed.saturating_add(size);
                    }
                },
                None => {},
            }
        }
        i += 1;
    }
    assert(rest.take(ls.len() - 1) =~= rest);
    (total, fixed)
}

/// The product of `a` and `b`, capped at 64 bits.
fn capped_product(a: u64, b: u64) -> (r: u64)
    ensures
        r == capped(a * b),
{
    assert(a * b <= 0xffff_ffff_ffff_ffff * 0xffff_ffff_ffff_ffff) by (nonlinear_arith)
        requires
            a <= 0xffff_ffff_ffff_ffff,
            b <= 0xffff_ffff_ffff_ffff,
    ;
    let p: u128 = (a as u128) * (b as u128);
    if p > u64::MAX as u128 {
        u64::MAX
    } else {
        p as u64
    }
}

/// The usage of the flash, from the table of partitions and from what the
/// file system of the overlay reports, each as far as it could be read.
pub fn read_disk_usage(mtd: Option<&str>, overlay: Option<OverlayStat>) -> (r: Option<DiskUsage>)
    ensures
        r == spec_disk_usage(
            match mtd {
                Some(c) => Some(c@),
                None => None,
            },
            overlay,
        ),
{
    let (total, fixed) = match mtd {
        Some(content) => {
            let chars = to_chars(content);
            let ls = split_lines(&chars);
            sum_partitions(&ls)
        },
        None => (0, 0),
    };
    let over: u64 = match overlay {
        Some(o) => {
            if o.blocks > 0 {
                let all = capped_product(o.blocks, o.block_size);
                let free = capped_product(o.free_blocks, o.block_size);
                all.saturating_sub(free)
            } else {
                0
            }
        },
        None => 0,
    };
    let used = fixed.saturating_add(over);
    if total > 0 {
        let pct: u128 = (used as u128 * 100) / (total as u128);
        let percent: u8 = if pct > 100 {
            100
        } else {
            pct as u8
        };
        Some(DiskUsage { used, total, percent })
    } else {
        None
    }
}

/// The bytes received and sent over an interface.
#[derive(Clone, Copy, Debug, PartialEq, Eq, Structural)]
pub struct Traffic {
    pub rx: u64,
    pub tx: u64,
}

/// The traffic that one line of the table of interfaces gives. The name of
/// the interface stands before the first colon; the loopback interface `lo`
/// does not count. Behind the colon, the first word is the number of bytes
/// received and the ninth that of bytes sent, each zero where it does not
/// read; a line with fewer than ten words there does not count.
pub open spec fn traffic_of(line: Seq<char>) -> Option<Traffic> {
    match first_occurrence(line, seq![':'], 0) {
        Some(at) => {
            let w = words(line.skip(at + 1));
            if trim(line.take(at)) != "lo"@ && w.len() >= 10 {
                Some(
                    Traffic {
                        rx: number_or(w[0], 0xffff_ffff_ffff_ffff, 0) as u64,
                        tx: number_or(w[8], 0xffff_ffff_ffff_ffff, 0) as u64,
                    },
                )
            } else {
                None
            }
        },
        None => None,
    }
}

/// The traffic of the first of `lines` that gives one.
pub open spec fn first_traffic(lines: Seq<Seq<char>>) -> Option<Traffic>
    decreases lines.len(),
{
    if lines.len() == 0 {
        None
    } else if traffic_of(lines[0]) is Some {
        traffic_of(lines[0])
    } else {
        first_traffic(lines.skip(1))
    }
}

/// The traffic of the first interface that is not the loopback, from the
/// table of interfaces, whose first two lines are its header.
pub open spec fn spec_network(content: Seq<char>) -> Option<Traffic> {
    first_traffic(behind(lines(content), 2))
}

/// The traffic that `line` gives.
fn line_traffic(line: &Vec<char>) -> (r: Option<Traffic>)
    ensures
        r == traffic_of(line@),
{
    match find_char(line, ':', 0) {
        Some(at) => {
            let name = slice_chars(line, 0, at);
            let rest = slice_chars(line, at + 1, line.len());
            proof {
                assert(name@ =~= line@.take(at as int));
                assert(rest@ =~= line@.skip(at + 1));
            }
            let iface = trim_chars(&name);
            if chars_are(&iface, "lo") {
                return None;
            }
            let w = split_whitespace(&rest);
            if w.len() >= 10 {
                assert(views(w@)[0] == w@[0]@);
                assert(views(w@)[8] == w@[8]@);
                Some(
                    Traffic {
                        rx: parse_or(&w[0], u64::MAX, 0),
                        tx: parse_or(&w[8], u64::MAX, 0),
                    },
                )
            } else {
                None
            }
        },
        None => None,
    }
}

/// The traffic of the first interface that is not the loopback.
pub fn read_network(content: &str) -> (r: Option<Traffic>)
    ensures
        r == spec_network(content@),
{
    let chars = to_chars(content);
    let ls = split_lines(&chars);
    if ls.len() <= 2 {
        assert(behind(views(ls@), 2) =~= Seq::<Seq<char>>::empty());
        return None;
    }
    let ghost rest = views(ls@).skip(2);
    let mut i: usize = 2;
    assert(rest.skip(0) =~= rest);
    while i < ls.len()
        invariant
            2 <= i <= ls.len(),
            rest == views(ls@).skip(2),
            views(ls@) == lines(content@),
            first_traffic(rest) == first_traffic(rest.skip(i - 2)),
        decreases ls.len() - i,
    {
        assert(rest.skip(i - 2)[0] == ls@[i as int]@);
        match line_traffic(&ls[i]) {
            Some(t) => {
                return Some(t);
            },
            None => {},
        }
        assert(rest.skip(i - 2).skip(1) =~= rest.skip(i - 1));
        i += 1;
    }
    None
}

/// The prefix length that is in force behind a line of the routing trie. A
/// line that, white space aside, begins with `+--` names a network; where a
/// number below 32 follows its last slash, that is the prefix length from
/// then on.
pub open spec fn next_prefix(line: Seq<char>, prefix: u8) -> u8 {
    let t = trim(line);
    if starts_with(t, "+--"@) {
        match last_index_of(t.skip(3), '/') {
            Some(slash) => match parse_octet(
                or_text(word_at(t.skip(3).skip(slash + 1), 0), Seq::empty()),
            ) {
                Some(p) => if p < 32 {
                    p
                } else {
                    prefix
                },
                None => prefix,
            },
            None => prefix,
        }
    } else {
        prefix
    }
}

/// The address that line `i` of the routing trie names as the host's own,
/// where it names one: white space aside, the line begins with `|--`, the
/// address behind that is not one of the loopback, and the next line tells
/// that it is a local host address.
pub open spec fn local_address(lines: Seq<Seq<char>>, i: int) -> Option<Seq<char>> {
    let t = trim(lines[i]);
    if starts_with(t, "|--"@) && i + 1 < lines.len() && contains(trim(lines[i + 1]), "host LOCAL"@)
        && !starts_with(trim(t.skip(3)), "127."@) {
        Some(trim(t.skip(3)))
    } else {
        None
    }
}

/// The first own address from line `i` of the routing trie on, with the
/// prefix length in force at its line, as `address/length`.
pub open spec fn scan_trie(lines: Seq<Seq<char>>, i: int, prefix: u8) -> Option<Seq<char>>
    decreases lines.len() - i,
{
    if i < 0 || i >= lines.len() {
        None
    } else {
        let p = next_prefix(lines[i], prefix);
        match local_address(lines, i) {
            Some(ip) => Some(ip + seq!['/'] + decimal(p as nat)),
            None => scan_trie(lines, i + 1, p),
        }
    }
}

/// The host's address with its prefix length, from the routing trie; the
/// prefix length is 24 until a network names another.
pub open spec fn spec_ip_address(content: Seq<char>) -> Option<Seq<char>> {
    scan_trie(lines(content), 0, 24)
}

/// The prefix length in force behind `line`.
fn prefix_after(line: &Vec<char>, prefix: u8) -> (r: u8)
    ensures
        r == next_prefix(line@, prefix),
{
    let t = trim_chars(line);
    let mark = to_chars("+--");
    proof {
        reveal_strlit("+--");
    }
    if !chars_start_with(&t, &mark) {
        return prefix;
    }
    let rest = slice_chars(&t, 3, t.len());
    assert(rest@ =~= t@.skip(3));
    match rfind_char(&rest, '/') {
        Some(slash) => {
            let behind = slice_chars(&rest, slash + 1, rest.len());
            assert(behind@ =~= rest@.skip(slash + 1));
            let w = split_whitespace(&behind);
            let first: Vec<char> = if w.len() > 0 {
                assert(views(w@)[0] == w@[0]@);
                slice_chars(&w[0], 0, w[0].len())
            } else {
                Vec::new()
            };
            proof {
                if w.len() > 0 {
                    assert(first@ =~= w@[0]@);
                }
            }
            match parse_number(&first, 255) {
                Some(p) => {
                    if p < 32 {
                        p as u8
                    } else {
                        prefix
                    }
                },
                None => prefix,
            }
        },
        None => prefix,
    }
}

/// The address that line `i` names as the host's own.
fn own_address(ls: &Vec<Vec<char>>, i: usize) -> (r: Option<Vec<char>>)
    requires
        i < ls.len(),
    ensures
        r is Some <==> local_address(views(ls@), i as int) is Some,
        r matches Some(ip) ==> local_address(views(ls@), i as int) == Some(ip@),
{
    assert(views(ls@)[i as int] == ls@[i as int]@);
    let t = trim_chars(&ls[i]);
    let mark = to_chars("|--");
    proof {
        reveal_strlit("|--");
    }
    if !chars_start_with(&t, &mark) || i + 1 >= ls.len() {
        return None;
    }
    assert(views(ls@)[i + 1] == ls@[i + 1]@);
    let next = trim_chars(&ls[i + 1]);
    let tag = to_chars("host LOCAL");
    if !chars_contain(&next, &tag) {
        return None;
    }
    let rest = slice_chars(&t, 3, t.len());
    assert(rest@ =~= t@.skip(3));
    let ip = trim_chars(&rest);
    let lo = to_chars("127.");
    if chars_start_with(&ip, &lo) {
        return None;
    }
    Some(ip)
}

/// The host's address with its prefix length, from the routing trie.
pub fn read_ip_address(content: &str) -> (r: Option<String>)
    ensures
        r is Some <==> spec_ip_address(content@) is Some,
        r matches Some(a) ==> spec_ip_address(content@) == Some(a@),
{
    let chars = to_chars(content);
    let ls = split_lines(&chars);
    let mut prefix: u8 = 24;
    let mut i: usize = 0;
    while i < ls.len()
        invariant
            i <= ls.len(),
            views(ls@) == lines(content@),
            spec_ip_address(content@) == scan_trie(views(ls@), i as int, prefix),
        decreases ls.len() - i,
    {
        assert(views(ls@)[i as int] == ls@[i as int]@);
        prefix = prefix_after(&ls[i], prefix);
        match own_address(&ls, i) {
            Some(ip) => {
                let mut out = from_chars(&ip);
                out.push('/');
                push_decimal(&mut out, prefix as u64);
                assert(out@ =~= ip@ + seq!['/'] + decimal(prefix as nat));
                return Some(out);
            },
            None => {},
        }
        i += 1;
    }
    None
}

/// `n` tenths as a number with one decimal.
pub open spec fn tenths(n: nat) -> Seq<char> {
    decimal(n / 10) + seq!['.'] + decimal(n % 10)
}

/// `n` hundredths as a number with two decimals.
pub open spec fn hundredths(n: nat) -> Seq<char> {
    decimal(n / 100) + seq!['.'] + padded(n % 100, 2)
}

/// Appends `n` tenths to `out` as a number with one decimal.
pub fn push_tenths(out: &mut String, n: u64)
    ensures
        final(out)@ == old(out)@ + tenths(n as nat),
{
    push_decimal(out, n / 10);
    out.push('.');
    push_decimal(out, n % 10);
    assert(out@ =~= old(out)@ + tenths(n as nat));
}

/// Appends `n` hundredths to `out` as a number with two decimals.
pub fn push_hundredths(out: &mut String, n: u64)
    ensures
        final(out)@ == old(out)@ + hundredths(n as nat),
{
    push_decimal(out, n / 100);
    out.push('.');
    push_padded(out, n % 100, 2);
    assert(out@ =~= old(out)@ + hundredths(n as nat));
}

/// Whether `d` is a whole number as a document writes it: digits, one at
/// least, and no zero in front of another digit.
pub open spec fn is_whole_number(d: Seq<char>) -> bool {
    d.len() > 0 && all_digits(d) && (d.len() == 1 || d[0] != '0')
}

/// Whether `t` is a number as a document writes it: a whole number, or a
/// whole number, a point, and digits, one at least.
pub open spec fn is_json_number(t: Seq<char>) -> bool {
    match first_occurrence(t, seq!['.'], 0) {
        Some(dot) => is_whole_number(t.take(dot)) && t.len() > dot + 1 && all_digits(
            t.skip(dot + 1),
        ),
        None => is_whole_number(t),
    }
}

/// The decimal numeral of a number is a whole number as a document writes
/// it.
pub proof fn lemma_decimal_is_whole_number(n: nat)
    ensures
        is_whole_number(decimal(n)),
        n >= 1 ==> decimal(n)[0] != '0',
    decreases n,
{
    lemma_decimal_reads_back(n);
    if n >= 10 {
        lemma_decimal_is_whole_number(n / 10);
        assert(decimal(n)[0] == decimal(n / 10)[0]);
    } else {
        assert(decimal(n)[0] == digits()[n as int]);
    }
}

/// Where `whole` holds no point, the first point of `whole`, a point and
/// `rest` stands behind `whole`.
proof fn lemma_first_point(whole: Seq<char>, rest: Seq<char>, from: int)
    requires
        all_digits(whole),
        0 <= from <= whole.len(),
    ensures
        first_occurrence(whole + seq!['.'] + rest, seq!['.'], from) == Some(whole.len() as int),
    decreases whole.len() - from,
{
    let t = whole + seq!['.'] + rest;
    if from == whole.len() {
        assert(t.subrange(from, from + 1) =~= seq!['.']);
    } else {
        assert(t[from] == whole[from]);
        assert(is_digit(whole[from]));
        assert(t.subrange(from, from + 1)[0] == t[from]);
        lemma_first_point(whole, rest, from + 1);
    }
}

/// Tenths and hundredths are written as numbers of a document.
pub proof fn lemma_fractions_are_numbers(n: nat)
    ensures
        is_json_number(tenths(n)),
        is_json_number(hundredths(n)),
        is_json_number(decimal(n)),
{
    lemma_decimal_is_whole_number(n);
    lemma_decimal_is_whole_number(n / 10);
    lemma_decimal_is_whole_number(n / 100);
    lemma_decimal_is_whole_number(n % 10);
    lemma_decimal_is_whole_number(n % 100);
    let a = decimal(n / 10);
    let f = decimal(n % 10);
    lemma_first_point(a, f, 0);
    assert((a + seq!['.'] + f).take(a.len() as int) =~= a);
    assert((a + seq!['.'] + f).skip(a.len() as int + 1) =~= f);
    let b = decimal(n / 100);
    let g = padded(n % 100, 2);
    assert(all_digits(g) && g.len() >= 1) by {
        let d = decimal(n % 100);
        if d.len() < 2 {
            let z = Seq::new((2 - d.len()) as nat, |i: int| '0');
            assert forall|i: int| 0 <= i < (z + d).len() implies is_digit(#[trigger] (z + d)[i]) by {
                if i >= z.len() {
                    assert((z + d)[i] == d[i - z.len()]);
                }
            }
        }
    }
    lemma_first_point(b, g, 0);
    assert((b + seq!['.'] + g).take(b.len() as int) =~= b);
    assert((b + seq!['.'] + g).skip(b.len() as int + 1) =~= g);
    lemma_no_point(decimal(n), 0);
}

/// A text of digits holds no point.
proof fn lemma_no_point(d: Seq<char>, from: int)
    requires
        all_digits(d),
        0 <= from,
    ensures
        first_occurrence(d, seq!['.'], from) is None,
    decreases d.len() - from,
{
    if from + 1 <= d.len() {
        assert(is_digit(d[from]));
        assert(d.subrange(from, from + 1)[0] == d[from]);
        lemma_no_point(d, from + 1);
    }
}

/// A snapshot of the host's metrics. Numbers with a fraction are held as
/// whole numbers of tenths or hundredths.
#[derive(Debug)]
pub struct SystemInfo {
    /// Seconds since the host started, whole.
    pub uptime_secs: u64,
    /// Hundredths of a second since the host started.
    pub uptime_hundredths: u64,
    /// Memory in all, in tenths of a megabyte.
    pub ram_total_tenths: u64,
    /// Memory available, in tenths of a megabyte.
    pub ram_available_tenths: u64,
    /// Memory in use, in tenths of a megabyte.
    pub ram_used_tenths: u64,
    /// Memory in buffers, in tenths of a megabyte.
    pub ram_buffered_tenths: u64,
    /// Memory in the cache, in tenths of a megabyte.
    pub ram_cached_tenths: u64,
    /// Memory in use as a percentage of the whole.
    pub ram_percent: u8,
    pub disk_used: String,
    pub disk_total: String,
    pub disk_percent: u8,
    pub ip_address: String,
    pub external_ip: String,
    pub net_rx: String,
    pub net_tx: String,
    pub processes: usize,
    pub kernel: String,
    pub local_time: String,
}

/// Mathematical value of a [`SystemInfo`].
pub struct SystemInfoView {
    pub uptime_secs: u64,
    pub uptime_hundredths: u64,
    pub ram_total_tenths: u64,
    pub ram_available_tenths: u64,
    pub ram_used_tenths: u64,
    pub ram_buffered_tenths: u64,
    pub ram_cached_tenths: u64,
    pub ram_percent: u8,
    pub disk_used: Seq<char>,
    pub disk_total: Seq<char>,
    pub disk_percent: u8,
    pub ip_address: Seq<char>,
    pub external_ip: Seq<char>,
    pub net_rx: Seq<char>,
    pub net_tx: Seq<char>,
    pub processes: usize,
    pub kernel: Seq<char>,
    pub local_time: Seq<char>,
}

impl View for SystemInfo {
    type V = SystemInfoView;

    open spec fn view(&self) -> SystemInfoView {
        SystemInfoView {
            uptime_secs: self.uptime_secs,
            uptime_hundredths: self.uptime_hundredths,
            ram_total_tenths: self.ram_total_tenths,
            ram_available_tenths: self.ram_available_tenths,
            ram_used_tenths: self.ram_used_tenths,
            ram_buffered_tenths: self.ram_buffered_tenths,
            ram_cached_tenths: self.ram_cached_tenths,
            ram_percent: self.ram_percent,
            disk_used: self.disk_used@,
            disk_total: self.disk_total@,
            disk_percent: self.disk_percent,
            ip_address: self.ip_address@,
            external_ip: self.external_ip@,
            net_rx: self.net_rx@,
            net_tx: self.net_tx@,
            processes: self.processes,
            kernel: self.kernel@,
            local_time: self.local_time@,
        }
    }
}

/// A text of the snapshot between its quotes: the quote, the escaped form of
/// the text, and the quote.
pub open spec fn quoted(text: Seq<char>) -> Seq<char> {
    seq!['"'] + escape(text) + seq!['"']
}

/// The snapshot as the sinks send it: one flat JSON object whose names and
/// their order never change. Every number is written as a number, and every
/// text stands between quotes in its escaped form.
pub open spec fn spec_to_json(i: SystemInfoView) -> Seq<char> {
    "{\"type\":\"monitor\",\"uptime\":"@ + hundredths(i.uptime_hundredths as nat)
        + ",\"ram_used\":"@ + tenths(i.ram_used_tenths as nat) + ",\"ram_total\":"@ + tenths(
        i.ram_total_tenths as nat,
    ) + ",\"disk_used\":"@ + quoted(i.disk_used) + ",\"disk_total\":"@ + quoted(i.disk_total)
        + ",\"disk_pct\":"@ + decimal(i.disk_percent as nat) + ",\"ip\":"@ + quoted(i.ip_address)
        + ",\"ext_ip\":"@ + quoted(i.external_ip) + ",\"net_rx\":"@ + quoted(i.net_rx)
        + ",\"net_tx\":"@ + quoted(i.net_tx) + ",\"procs\":"@ + decimal(i.processes as nat) + "}"@
}

/// Appends `text` between quotes, in its escaped form, to `out`.
pub fn push_quoted(out: &mut String, text: &str)
    ensures
        final(out)@ == old(out)@ + quoted(text@),
{
    out.push('"');
    let escaped = escape_line(text);
    out.append(escaped.as_str());
    out.push('"');
    assert(out@ =~= old(out)@ + quoted(text@));
}

impl SystemInfo {
    /// The snapshot as the sinks send it.
    pub fn to_json(&self) -> (r: String)
        ensures
            r@ == spec_to_json(self@),
    {
        let mut out = "{\"type\":\"monitor\",\"uptime\":".to_owned();
        push_hundredths(&mut out, self.uptime_hundredths);
        out.append(",\"ram_used\":");
        push_tenths(&mut out, self.ram_used_tenths);
        out.append(",\"ram_total\":");
        push_tenths(&mut out, self.ram_total_tenths);
        out.append(",\"disk_used\":");
        push_quoted(&mut out, self.disk_used.as_str());
        out.append(",\"disk_total\":");
        push_quoted(&mut out, self.disk_total.as_str());
        out.append(",\"disk_pct\":");
        push_decimal(&mut out, self.disk_percent as u64);
        out.append(",\"ip\":");
        push_quoted(&mut out, self.ip_address.as_str());
        out.append(",\"ext_ip\":");
        push_quoted(&mut out, self.external_ip.as_str());
        out.append(",\"net_rx\":");
        push_quoted(&mut out, self.net_rx.as_str());
        out.append(",\"net_tx\":");
        push_quoted(&mut out, self.net_tx.as_str());
        out.append(",\"procs\":");
        push_decimal(&mut out, self.processes as u64);
        out.append("}");
        out
    }
}

/// The snapshot is a flat object of one shape whatever it holds: its names
/// and their order are fixed, each of its numbers is written as a document
/// writes a number, and each of its texts stands between two quotes as a
/// text that can stand there and that decodes to the text of the snapshot.
pub proof fn lemma_snapshot_is_flat_object(i: SystemInfoView)
    ensures
        is_json_number(hundredths(i.uptime_hundredths as nat)),
        is_json_number(tenths(i.ram_used_tenths as nat)),
        is_json_number(tenths(i.ram_total_tenths as nat)),
        is_json_number(decimal(i.disk_percent as nat)),
        is_json_number(decimal(i.processes as nat)),
        is_embeddable(escape(i.disk_used)) && decode(escape(i.disk_used)) == Some(i.disk_used),
        is_embeddable(escape(i.disk_total)) && decode(escape(i.disk_total)) == Some(i.disk_total),
        is_embeddable(escape(i.ip_address)) && decode(escape(i.ip_address)) == Some(i.ip_address),
        is_embeddable(escape(i.external_ip)) && decode(escape(i.external_ip)) == Some(
            i.external_ip,
        ),
        is_embeddable(escape(i.net_rx)) && decode(escape(i.net_rx)) == Some(i.net_rx),
        is_embeddable(escape(i.net_tx)) && decode(escape(i.net_tx)) == Some(i.net_tx),
{
    lemma_fractions_are_numbers(i.uptime_hundredths as nat);
    lemma_fractions_are_numbers(i.ram_used_tenths as nat);
    lemma_fractions_are_numbers(i.ram_total_tenths as nat);
    lemma_fractions_are_numbers(i.disk_percent as nat);
    lemma_fractions_are_numbers(i.processes as nat);
    lemma_escape_lossless(i.disk_used);
    lemma_escape_lossless(i.disk_total);
    lemma_escape_lossless(i.ip_address);
    lemma_escape_lossless(i.external_ip);
    lemma_escape_lossless(i.net_rx);
    lemma_escape_lossless(i.net_tx);
}

} // verus!
