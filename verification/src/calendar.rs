//! Points in time, held as seconds and nanoseconds since the Unix epoch
//! (UTC), and the calendar questions the reading log asks of them.

use vstd::prelude::*;
use vstd::string::*;

use crate::text::{int_text, lemma_int_text_injective, push_int};

verus! {

/// The first second that a calendar date-time can hold: January 1 of the
/// year -262143, midnight.
pub const MIN_STAMP_SECS: i64 = -8_334_601_228_800i64;

/// The last second that a calendar date-time can hold: December 31 of the
/// year 262142, 23:59:59.
pub const MAX_STAMP_SECS: i64 = 8_210_266_876_799i64;

/// The seconds in seven days.
pub const WEEK_SECS: i64 = 604_800i64;

/// A point in time: whole seconds since 1970-01-01 00:00:00 UTC and the
/// nanoseconds within that second (1,000,000,000 or more during a leap
/// second).
#[derive(Debug, Clone, Copy, PartialEq, Eq, Structural)]
pub struct Stamp {
    pub secs: i64,
    pub nanos: u32,
}

/// A point that the calendar holds: its seconds lie in the calendar's range,
/// and only the last second of a minute may run into a leap second.
pub open spec fn valid_stamp(t: Stamp) -> bool {
    &&& MIN_STAMP_SECS <= t.secs <= MAX_STAMP_SECS
    &&& (t.nanos < 1_000_000_000 || (t.nanos < 2_000_000_000 && t.secs % 60 == 59))
}

/// `a` comes strictly after `b`.
pub open spec fn later_than(a: Stamp, b: Stamp) -> bool {
    a.secs > b.secs || (a.secs == b.secs && a.nanos > b.nanos)
}

/// Whether `a` comes strictly after `b`.
pub fn is_later(a: Stamp, b: Stamp) -> (r: bool)
    ensures
        r == later_than(a, b),
{
    a.secs > b.secs || (a.secs == b.secs && a.nanos > b.nanos)
}

/// The calendar year of the day that holds the second `secs`.
pub uninterp spec fn calendar_year(secs: i64) -> int;

/// The calendar month (1 for January) of the day that holds the second
/// `secs`.
pub uninterp spec fn calendar_month(secs: i64) -> int;

/// The text `YYYY-MM-DD` of the day that holds the second `secs`, as
/// chrono's `%Y-%m-%d` writes it.
pub uninterp spec fn iso_date_text(secs: i64) -> Seq<char>;

/// Calls `checked_sub_days(Days::new(7))` on the `NaiveDateTime` of `t`
/// (made with `DateTime::from_timestamp`). The date moves back seven days
/// and the time of day stays, so the seconds drop by seven days' worth;
/// the call gives `None` only when that date falls before the first date
/// the calendar holds.
#[verifier::external_body]
fn seven_days_before(t: Stamp) -> (r: Option<Stamp>)
    ensures
        r matches Some(w) ==> w == (Stamp { secs: (t.secs - WEEK_SECS) as i64, nanos: t.nanos }),
        valid_stamp(t) && t.secs - WEEK_SECS >= MIN_STAMP_SECS ==> r is Some,
{
    let naive = match chrono::DateTime::from_timestamp(t.secs, t.nanos) {
        Some(d) => d.naive_utc(),
        None => return None,
    };
    match naive.checked_sub_days(chrono::Days::new(7)) {
        Some(w) => Some(Stamp { secs: w.and_utc().timestamp(), nanos: w.and_utc().timestamp_subsec_nanos() }),
        None => None,
    }
}

/// Calls `year()` on the `NaiveDateTime` of `t`: the year of its date,
/// which lies in the calendar's range of years.
#[verifier::external_body]
fn stamp_year(t: Stamp) -> (r: i32)
    requires
        valid_stamp(t),
    ensures
        r == calendar_year(t.secs),
        -262_143 <= r <= 262_142,
{
    chrono::Datelike::year(&chrono::DateTime::from_timestamp(t.secs, t.nanos).unwrap().naive_utc())
}

/// Calls `month()` on the `NaiveDateTime` of `t`: the month of its date,
/// from 1 to 12.
#[verifier::external_body]
fn stamp_month(t: Stamp) -> (r: u32)
    requires
        valid_stamp(t),
    ensures
        r == calendar_month(t.secs),
        1 <= r <= 12,
{
    chrono::Datelike::month(&chrono::DateTime::from_timestamp(t.secs, t.nanos).unwrap().naive_utc())
}

/// Calls `format("%Y-%m-%d")` on the `NaiveDateTime` of `t` and makes a
/// string of it.
#[verifier::external_body]
pub(crate) fn stamp_date_text(t: Stamp) -> (r: String)
    requires
        valid_stamp(t),
    ensures
        r@ == iso_date_text(t.secs),
{
    chrono::DateTime::from_timestamp(t.secs, t.nanos).unwrap().naive_utc().format("%Y-%m-%d").to_string()
}

/// The start of the week that ends at `dt`: seven days earlier, at the same
/// time of day.
pub fn week_start(dt: Stamp) -> (r: Stamp)
    requires
        valid_stamp(dt),
        dt.secs - WEEK_SECS >= MIN_STAMP_SECS,
    ensures
        r == (Stamp { secs: (dt.secs - WEEK_SECS) as i64, nanos: dt.nanos }),
        valid_stamp(r),
        later_than(dt, r),
{
    match seven_days_before(dt) {
        Some(w) => {
            assert(w.secs % 60 == dt.secs % 60);
            w
        },
        None => dt,
    }
}

/// The three-letter name of a month, and nothing for a number that names
/// no month.
pub open spec fn month_abbrev(month: int) -> Seq<char> {
    if month == 1 {
        "Jan"@
    } else if month == 2 {
        "Feb"@
    } else if month == 3 {
        "Mar"@
    } else if month == 4 {
        "Apr"@
    } else if month == 5 {
        "May"@
    } else if month == 6 {
        "Jun"@
    } else if month == 7 {
        "Jul"@
    } else if month == 8 {
        "Aug"@
    } else if month == 9 {
        "Sep"@
    } else if month == 10 {
        "Oct"@
    } else if month == 11 {
        "Nov"@
    } else if month == 12 {
        "Dec"@
    } else {
        Seq::empty()
    }
}

/// The name of a monthly tab: the month's short name, a dash and the year,
/// such as `May-2023`.
pub open spec fn tab_name(month: int, year: int) -> Seq<char> {
    month_abbrev(month) + seq!['-'] + int_text(year)
}

/// The three-letter name of a month.
fn month_name(month: u32) -> (r: &'static str)
    ensures
        r@ == month_abbrev(month as int),
{
    match month {
        1 => "Jan",
        2 => "Feb",
        3 => "Mar",
        4 => "Apr",
        5 => "May",
        6 => "Jun",
        7 => "Jul",
        8 => "Aug",
        9 => "Sep",
        10 => "Oct",
        11 => "Nov",
        12 => "Dec",
        _ => {
            proof {
                reveal_strlit("");
            }
            ""
        },
    }
}

/// The name of the monthly tab for a month and a year.
pub fn tab_name_for(month: u32, year: i32) -> (r: String)
    ensures
        r@ == tab_name(month as int, year as int),
{
    let mut s = String::new();
    s.append(month_name(month));
    proof {
        reveal_strlit("-");
    }
    s.append("-");
    push_int(&mut s, year as i64);
    assert(s@ =~= tab_name(month as int, year as int));
    s
}

/// The name of the monthly tab that a log written at `dt` goes to.
pub fn get_xelieu_tab_name(dt: Stamp) -> (r: String)
    requires
        valid_stamp(dt),
    ensures
        r@ == tab_name(calendar_month(dt.secs), calendar_year(dt.secs)),
        1 <= calendar_month(dt.secs) <= 12,
        -262_143 <= calendar_year(dt.secs) <= 262_142,
{
    let month = stamp_month(dt);
    let year = stamp_year(dt);
    tab_name_for(month, year)
}

/// Every month from 1 to 12 has a three-letter name, and no two months
/// share one.
pub proof fn lemma_month_abbrev_distinct(m1: int, m2: int)
    requires
        1 <= m1 <= 12,
        1 <= m2 <= 12,
    ensures
        month_abbrev(m1).len() == 3,
        month_abbrev(m1) == month_abbrev(m2) ==> m1 == m2,
{
    reveal_strlit("Jan");
    reveal_strlit("Feb");
    reveal_strlit("Mar");
    reveal_strlit("Apr");
    reveal_strlit("May");
    reveal_strlit("Jun");
    reveal_strlit("Jul");
    reveal_strlit("Aug");
    reveal_strlit("Sep");
    reveal_strlit("Oct");
    reveal_strlit("Nov");
    reveal_strlit("Dec");
    if month_abbrev(m1) == month_abbrev(m2) {
        assert(month_abbrev(m1)[0] == month_abbrev(m2)[0]);
        assert(month_abbrev(m1)[1] == month_abbrev(m2)[1]);
        assert(month_abbrev(m1)[2] == month_abbrev(m2)[2]);
    }
}

/// Two monthly tab names are the same exactly when their months and their
/// years are; so the day and the time of day never change the tab.
pub proof fn lemma_tab_name_distinct(m1: int, y1: int, m2: int, y2: int)
    requires
        1 <= m1 <= 12,
        1 <= m2 <= 12,
    ensures
        tab_name(m1, y1) == tab_name(m2, y2) <==> (m1 == m2 && y1 == y2),
{
    lemma_month_abbrev_distinct(m1, m2);
    lemma_month_abbrev_distinct(m2, m1);
    if tab_name(m1, y1) == tab_name(m2, y2) {
        let t = tab_name(m1, y1);
        assert(t.take(3) =~= month_abbrev(m1));
        assert(tab_name(m2, y2).take(3) =~= month_abbrev(m2));
        assert(t.skip(4) =~= int_text(y1));
        assert(tab_name(m2, y2).skip(4) =~= int_text(y2));
        lemma_int_text_injective(y1, y2);
    }
}

/// The short names of the months, January first.
pub open spec fn month_names() -> Seq<Seq<char>> {
    seq![
        seq!['J', 'a', 'n'],
        seq!['F', 'e', 'b'],
        seq!['M', 'a', 'r'],
        seq!['A', 'p', 'r'],
        seq!['M', 'a', 'y'],
        seq!['J', 'u', 'n'],
        seq!['J', 'u', 'l'],
        seq!['A', 'u', 'g'],
        seq!['S', 'e', 'p'],
        seq!['O', 'c', 't'],
        seq!['N', 'o', 'v'],
        seq!['D', 'e', 'c'],
    ]
}

/// The tab of month `m` (1 for January) of year `y` is the `m`-th short
/// month name, a dash and the year.
pub proof fn lemma_tab_name_month(m: int, y: int)
    requires
        1 <= m <= 12,
    ensures
        tab_name(m, y) == month_names()[m - 1] + seq!['-'] + int_text(y),
{
    reveal_strlit("Jan");
    reveal_strlit("Feb");
    reveal_strlit("Mar");
    reveal_strlit("Apr");
    reveal_strlit("May");
    reveal_strlit("Jun");
    reveal_strlit("Jul");
    reveal_strlit("Aug");
    reveal_strlit("Sep");
    reveal_strlit("Oct");
    reveal_strlit("Nov");
    reveal_strlit("Dec");
    assert(month_abbrev(m) =~= month_names()[m - 1]);
}

} // verus!
