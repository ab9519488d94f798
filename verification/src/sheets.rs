//! The row that a new log adds to the user's reading spreadsheet.

use vstd::prelude::*;
use vstd::string::*;

use crate::calendar::{
    calendar_month, calendar_year, get_xelieu_tab_name, iso_date_text, stamp_date_text, tab_name,
    valid_stamp, Stamp,
};
use crate::duration::{
    hour_min_spec, lemma_hour_min_digits, minutes_in_range, split_hours, trunc_div, trunc_rem,
    DurationError, MAX_MINUTES,
};
use crate::text::{decimal, digits_value, int_text, lemma_decimal_roundtrip, push_int};

verus! {

/// A new log, as the spreadsheet records it.
pub struct SheetsLog {
    /// When the reading happened.
    pub date: Stamp,
    /// The visual novel read.
    pub name: Option<String>,
    /// The characters read.
    pub chars: u32,
    /// The minutes read, when given.
    pub time: Option<i64>,
}

/// The row appended to the spreadsheet: the range of the monthly tab it
/// goes to, and its cells in order (date, name, category, characters, two
/// empty cells, time).
pub struct SheetsRow {
    pub range: String,
    pub date: String,
    pub name: Option<String>,
    pub category: String,
    pub chars: u32,
    pub time: Option<String>,
}

/// The range of the first row of a tab.
pub open spec fn range_text(tab: Seq<char>) -> Seq<char> {
    "'"@ + tab + "'!A1:G1"@
}

/// A reading time as the spreadsheet takes it: hours, minutes and zero
/// seconds, none of them padded.
pub open spec fn sheet_time_text(minutes: int) -> Seq<char> {
    int_text(trunc_div(minutes, 60)) + seq![':'] + int_text(trunc_rem(minutes, 60)) + ":00"@
}

/// The reading time as the spreadsheet takes it.
fn sheet_time(minutes: i64) -> (r: String)
    requires
        minutes_in_range(minutes as int),
    ensures
        r@ == sheet_time_text(minutes as int),
{
    let (h, m) = split_hours(minutes);
    let mut s = String::new();
    push_int(&mut s, h);
    proof {
        reveal_strlit(":");
    }
    s.append(":");
    push_int(&mut s, m);
    s.append(":00");
    assert(s@ =~= sheet_time_text(minutes as int));
    s
}

/// The spreadsheet row for a new log: the tab of the log's month, the
/// log's date, its visual novel, the category `Visual Novel`, the
/// characters and the reading time.
pub fn sheets_row(log: SheetsLog) -> (r: SheetsRow)
    requires
        valid_stamp(log.date),
        log.time matches Some(t) ==> minutes_in_range(t as int),
    ensures
        r.range@ == range_text(tab_name(calendar_month(log.date.secs), calendar_year(log.date.secs))),
        r.date@ == iso_date_text(log.date.secs),
        r.name == log.name,
        r.category@ == "Visual Novel"@,
        r.chars == log.chars,
        match log.time {
            Some(t) => r.time matches Some(x) && x@ == sheet_time_text(t as int),
            None => r.time is None,
        },
{
    let tab = get_xelieu_tab_name(log.date);
    let mut range = String::new();
    range.append("'");
    range.append(tab.as_str());
    range.append("'!A1:G1");
    let date = stamp_date_text(log.date);
    let time = match log.time {
        Some(t) => Some(sheet_time(t)),
        None => None,
    };
    SheetsRow {
        range,
        date,
        name: log.name,
        category: String::from_str("Visual Novel"),
        chars: log.chars,
        time,
    }
}

/// The time cell of any reading time of zero or more minutes is
/// `hours:minutes:00`: it ends in `:00`, and what comes before reads back,
/// in the `[hour:min]` form, as the same minutes (so the hours are there
/// even when they are zero).
pub proof fn lemma_sheet_time_reads_back(minutes: int)
    requires
        0 <= minutes <= MAX_MINUTES,
    ensures
        sheet_time_text(minutes).len() >= 3,
        sheet_time_text(minutes).skip(sheet_time_text(minutes).len() - 3) == seq![':', '0', '0'],
        hour_min_spec(sheet_time_text(minutes).take(sheet_time_text(minutes).len() - 3))
            == Ok::<int, DurationError>(minutes),
{
    reveal_strlit(":00");
    let h = (minutes / 60) as nat;
    let r = (minutes % 60) as nat;
    lemma_decimal_roundtrip(h);
    lemma_decimal_roundtrip(r);
    let t = sheet_time_text(minutes);
    let front = decimal(h) + seq![':'] + decimal(r);
    assert(t =~= front + seq![':', '0', '0']);
    assert(t.skip(t.len() - 3) =~= seq![':', '0', '0']);
    assert(t.take(t.len() - 3) =~= front);
    lemma_hour_min_digits(decimal(h), decimal(r));
}

} // verus!
