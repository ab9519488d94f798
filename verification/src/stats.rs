//! Reading statistics over a user's logs: totals, the totals of the last
//! week, and the text of the statistics reply.

use vstd::prelude::*;
use vstd::string::*;

use crate::calendar::{is_later, later_than, Stamp};
use crate::messages::VnName;
use crate::duration::{fmt_duration, fmt_duration_spec, minutes_in_range};
use crate::text::{int_text, push_int};

verus! {

/// One logged reading session.
pub struct Log {
    /// The user who logged it.
    pub uid: String,
    /// When it was logged.
    pub timestamp: Stamp,
    /// The number of characters read.
    pub count: i64,
    /// The visual novel read, by name or by its vndb id.
    pub name: Option<String>,
    /// The minutes spent reading, when given.
    pub time: Option<i64>,
    /// A comment on the session.
    pub comment: Option<String>,
}

/// The minutes of a log, zero when none were given.
pub open spec fn minutes_of(l: Log) -> int {
    match l.time {
        Some(m) => m as int,
        None => 0,
    }
}

/// The characters read over all logs.
pub open spec fn total_count(logs: Seq<Log>) -> int
    decreases logs.len(),
{
    if logs.len() == 0 {
        0
    } else {
        total_count(logs.drop_last()) + logs.last().count
    }
}

/// The minutes read over all logs.
pub open spec fn total_minutes(logs: Seq<Log>) -> int
    decreases logs.len(),
{
    if logs.len() == 0 {
        0
    } else {
        total_minutes(logs.drop_last()) + minutes_of(logs.last())
    }
}

/// The characters read in the logs written after `week`.
pub open spec fn weekly_count(logs: Seq<Log>, week: Stamp) -> int
    decreases logs.len(),
{
    if logs.len() == 0 {
        0
    } else {
        weekly_count(logs.drop_last(), week) + if later_than(logs.last().timestamp, week) {
            logs.last().count as int
        } else {
            0
        }
    }
}

/// The minutes read in the logs written after `week`.
pub open spec fn weekly_minutes(logs: Seq<Log>, week: Stamp) -> int
    decreases logs.len(),
{
    if logs.len() == 0 {
        0
    } else {
        weekly_minutes(logs.drop_last(), week) + if later_than(logs.last().timestamp, week) {
            minutes_of(logs.last())
        } else {
            0
        }
    }
}

/// A value that an `i64` holds.
pub open spec fn in_i64(v: int) -> bool {
    i64::MIN <= v <= i64::MAX
}

/// Adding the logs up one by one, from the first, never leaves the range
/// of `i64`, for none of the four sums.
pub open spec fn sums_fit(logs: Seq<Log>, week: Stamp) -> bool {
    forall|i: int|
        0 <= i <= logs.len() ==> {
            &&& in_i64(#[trigger] total_count(logs.take(i)))
            &&& in_i64(total_minutes(logs.take(i)))
            &&& in_i64(weekly_count(logs.take(i), week))
            &&& in_i64(weekly_minutes(logs.take(i), week))
        }
}

/// The totals of a user's logs.
pub struct LogStats {
    pub count: i64,
    pub minutes: i64,
    pub weekly_count: i64,
    pub weekly_minutes: i64,
}

/// Adds up the characters and minutes of all logs, and of the logs written
/// after `week`.
pub fn log_stats(logs: &Vec<Log>, week: Stamp) -> (r: LogStats)
    requires
        sums_fit(logs@, week),
    ensures
        r.count == total_count(logs@),
        r.minutes == total_minutes(logs@),
        r.weekly_count == weekly_count(logs@, week),
        r.weekly_minutes == weekly_minutes(logs@, week),
{
    let mut count: i64 = 0;
    let mut minutes: i64 = 0;
    let mut wcount: i64 = 0;
    let mut wminutes: i64 = 0;
    let n = logs.len();
    let mut i: usize = 0;
    while i < n
        invariant
            i <= n,
            n == logs@.len(),
            sums_fit(logs@, week),
            count == total_count(logs@.take(i as int)),
            minutes == total_minutes(logs@.take(i as int)),
            wcount == weekly_count(logs@.take(i as int), week),
            wminutes == weekly_minutes(logs@.take(i as int), week),
        decreases n - i,
    {
        let l = &logs[i];
        let ghost next = logs@.take(i + 1);
        assert(next.drop_last() =~= logs@.take(i as int));
        assert(next.last() == *l);
        assert(in_i64(total_count(next)));
        let m: i64 = match l.time {
            Some(t) => t,
            None => 0,
        };
        count = count + l.count;
        minutes = minutes + m;
        if is_later(l.timestamp, week) {
            wcount = wcount + l.count;
            wminutes = wminutes + m;
        }
        i = i + 1;
    }
    assert(logs@.take(n as int) =~= logs@);
    LogStats { count, minutes, weekly_count: wcount, weekly_minutes: wminutes }
}

/// Whether the logs can be added up without leaving the range of `i64`;
/// adding up any other logs panics.
pub fn sums_fit_check(logs: &Vec<Log>, week: Stamp) -> (r: bool)
    ensures
        r == sums_fit(logs@, week),
{
    let mut count: i128 = 0;
    let mut minutes: i128 = 0;
    let mut wcount: i128 = 0;
    let mut wminutes: i128 = 0;
    let n = logs.len();
    let mut i: usize = 0;
    assert(logs@.take(0) =~= Seq::<Log>::empty());
    while i < n
        invariant
            i <= n,
            n == logs@.len(),
            count == total_count(logs@.take(i as int)),
            minutes == total_minutes(logs@.take(i as int)),
            wcount == weekly_count(logs@.take(i as int), week),
            wminutes == weekly_minutes(logs@.take(i as int), week),
            in_i64(count as int) && in_i64(minutes as int) && in_i64(wcount as int) && in_i64(
                wminutes as int,
            ),
            forall|j: int|
                0 <= j <= i ==> {
                    &&& in_i64(#[trigger] total_count(logs@.take(j)))
                    &&& in_i64(total_minutes(logs@.take(j)))
                    &&& in_i64(weekly_count(logs@.take(j), week))
                    &&& in_i64(weekly_minutes(logs@.take(j), week))
                },
        decreases n - i,
    {
        let l = &logs[i];
        let ghost next = logs@.take(i + 1);
        assert(next.drop_last() =~= logs@.take(i as int));
        assert(next.last() == *l);
        let m: i64 = match l.time {
            Some(t) => t,
            None => 0,
        };
        count = count + l.count as i128;
        minutes = minutes + m as i128;
        if is_later(l.timestamp, week) {
            wcount = wcount + l.count as i128;
            wminutes = wminutes + m as i128;
        }
        let fits = -9_223_372_036_854_775_808i128 <= count && count <= 9_223_372_036_854_775_807i128
            && -9_223_372_036_854_775_808i128 <= minutes && minutes
            <= 9_223_372_036_854_775_807i128 && -9_223_372_036_854_775_808i128 <= wcount && wcount
            <= 9_223_372_036_854_775_807i128 && -9_223_372_036_854_775_808i128 <= wminutes
            && wminutes <= 9_223_372_036_854_775_807i128;
        assert(count == total_count(next));
        assert(minutes == total_minutes(next));
        assert(wcount == weekly_count(next, week));
        assert(wminutes == weekly_minutes(next, week));
        if !fits {
            assert(!in_i64(total_count(logs@.take(i + 1))) || !in_i64(
                total_minutes(logs@.take(i + 1)),
            ) || !in_i64(weekly_count(logs@.take(i + 1), week)) || !in_i64(
                weekly_minutes(logs@.take(i + 1), week),
            ));
            return false;
        }
        assert forall|j: int| 0 <= j <= i + 1 implies {
            &&& in_i64(#[trigger] total_count(logs@.take(j)))
            &&& in_i64(total_minutes(logs@.take(j)))
            &&& in_i64(weekly_count(logs@.take(j), week))
            &&& in_i64(weekly_minutes(logs@.take(j), week))
        } by {
            if j == i + 1 {
                assert(logs@.take(j) == next);
            } else {
                assert(in_i64(total_count(logs@.take(j))));
                assert(in_i64(total_minutes(logs@.take(j))));
                assert(in_i64(weekly_count(logs@.take(j), week)));
                assert(in_i64(weekly_minutes(logs@.take(j), week)));
            }
        }
        i = i + 1;
    }
    assert(logs@.take(n as int) =~= logs@);
    true
}

/// The number of logs the statistics reply lists: the first five at most.
pub open spec fn recent_len(n: int) -> int {
    if n < 5 {
        n
    } else {
        5
    }
}

/// The link to a visual novel in the header of the statistics reply.
pub open spec fn vn_header_text(vn: Option<VnName>) -> Seq<char> {
    match vn {
        Some(v) => " for vn **["@ + v.display@ + "](https://vndb.org/"@ + v.id@ + ")**"@,
        None => Seq::empty(),
    }
}

/// The totals part of the statistics reply.
pub open spec fn summary_text(count: int, minutes: int, wcount: int, wminutes: int) -> Seq<char> {
    "\nLogged **"@ + int_text(count) + "** characters in **"@ + fmt_duration_spec(minutes)
        + "** hours.\n**Weekly stats**:\nLogged **"@ + int_text(wcount) + "** characters in **"@
        + fmt_duration_spec(wminutes) + "** hours."@
}

/// The line of the statistics reply that shows one log; `display` is the
/// text shown for the log's visual novel.
pub open spec fn line_text(l: Log, display: Option<String>) -> Seq<char> {
    "<t:"@ + int_text(l.timestamp.secs as int) + ":R> **"@ + int_text(l.count as int) + " chars**"@
        + match l.time {
        Some(h) => " for **"@ + fmt_duration_spec(h as int) + "** hours"@,
        None => Seq::empty(),
    } + match (l.name, display) {
        (Some(n), Some(d)) => " of **["@ + d@ + "](https://vndb.org/"@ + n@ + ")**"@,
        _ => Seq::empty(),
    } + ".\n"@
}

/// The lines of the first `k` logs.
pub open spec fn lines_text(logs: Seq<Log>, displays: Seq<Option<String>>, k: int) -> Seq<char>
    decreases k,
{
    if k <= 0 {
        Seq::empty()
    } else {
        lines_text(logs, displays, k - 1) + line_text(logs[k - 1], displays[k - 1])
    }
}

/// The statistics reply for the user `uid`: the header, the totals of all
/// logs and of the week after `week`, and the first five logs.
pub open spec fn info_text(
    uid: Seq<char>,
    vn: Option<VnName>,
    logs: Seq<Log>,
    displays: Seq<Option<String>>,
    week: Stamp,
) -> Seq<char> {
    "**Stats for <@"@ + uid + ">**"@ + vn_header_text(vn) + summary_text(
        total_count(logs),
        total_minutes(logs),
        weekly_count(logs, week),
        weekly_minutes(logs, week),
    ) + if logs.len() > 0 {
        "\n**Last few logs:\n**"@ + lines_text(logs, displays, recent_len(logs.len() as int))
    } else {
        Seq::empty()
    }
}

/// What the statistics reply needs of its inputs: the sums fit, the minutes
/// it prints stay in the range of the duration type, and there is one
/// display text for each listed log that names a visual novel.
pub open spec fn info_inputs_ok(logs: Seq<Log>, displays: Seq<Option<String>>, week: Stamp) -> bool {
    &&& sums_fit(logs, week)
    &&& minutes_in_range(total_minutes(logs))
    &&& minutes_in_range(weekly_minutes(logs, week))
    &&& displays.len() == recent_len(logs.len() as int)
    &&& forall|i: int|
        0 <= i < displays.len() ==> {
            &&& (#[trigger] displays[i] is Some <==> logs[i].name is Some)
            &&& (logs[i].time matches Some(h) ==> minutes_in_range(h as int))
        }
}

/// Appends the printed duration of `minutes` to `s`.
fn push_duration(s: &mut String, minutes: i64)
    requires
        minutes_in_range(minutes as int),
    ensures
        final(s)@ == old(s)@ + fmt_duration_spec(minutes as int),
{
    let d = fmt_duration(minutes);
    s.append(d.as_str());
}

/// The reading time part of a log's line.
spec fn line_time_text(l: Log) -> Seq<char> {
    match l.time {
        Some(h) => " for **"@ + fmt_duration_spec(h as int) + "** hours"@,
        None => Seq::empty(),
    }
}

/// The visual novel part of a log's line.
spec fn line_name_text(l: Log, display: Option<String>) -> Seq<char> {
    match (l.name, display) {
        (Some(n), Some(d)) => " of **["@ + d@ + "](https://vndb.org/"@ + n@ + ")**"@,
        _ => Seq::empty(),
    }
}

/// Appends the start of a log's line.
fn push_line_head(s: &mut String, l: &Log)
    ensures
        final(s)@ == old(s)@ + line_head(*l),
{
    let ghost start = s@;
    s.append("<t:");
    push_int(s, l.timestamp.secs);
    s.append(":R> **");
    push_int(s, l.count);
    s.append(" chars**");
    assert(s@ =~= start + line_head(*l));
}

/// Appends the reading time part of a log's line.
fn push_line_time(s: &mut String, l: &Log)
    requires
        l.time matches Some(h) ==> minutes_in_range(h as int),
    ensures
        final(s)@ == old(s)@ + line_time_text(*l),
{
    let ghost start = s@;
    match l.time {
        Some(h) => {
            s.append(" for **");
            push_duration(s, h);
            s.append("** hours");
        },
        None => {},
    }
    assert(s@ =~= start + line_time_text(*l));
}

/// Appends the visual novel part of a log's line.
fn push_line_name(s: &mut String, l: &Log, display: &Option<String>)
    ensures
        final(s)@ == old(s)@ + line_name_text(*l, *display),
{
    let ghost start = s@;
    match (&l.name, display) {
        (Some(n), Some(d)) => {
            s.append(" of **[");
            s.append(d.as_str());
            s.append("](https://vndb.org/");
            s.append(n.as_str());
            s.append(")**");
        },
        _ => {},
    }
    assert(s@ =~= start + line_name_text(*l, *display));
}

/// Appends the line of one log to `s`.
fn push_log_line(s: &mut String, l: &Log, display: &Option<String>)
    requires
        display is Some <==> l.name is Some,
        l.time matches Some(h) ==> minutes_in_range(h as int),
    ensures
        final(s)@ == old(s)@ + line_text(*l, *display),
{
    let ghost start = s@;
    push_line_head(s, l);
    push_line_time(s, l);
    push_line_name(s, l, display);
    s.append(".\n");
    assert(line_text(*l, *display) =~= line_head(*l) + line_time_text(*l) + line_name_text(
        *l,
        *display,
    ) + ".\n"@);
    assert(s@ =~= start + line_text(*l, *display));
}

/// Appends the header of the statistics reply.
fn push_header(s: &mut String, uid: &str, vn: &Option<VnName>)
    ensures
        final(s)@ == old(s)@ + "**Stats for <@"@ + uid@ + ">**"@ + vn_header_text(*vn),
{
    let ghost start = s@;
    s.append("**Stats for <@");
    s.append(uid);
    s.append(">**");
    match vn {
        Some(v) => {
            s.append(" for vn **[");
            s.append(v.display.as_str());
            s.append("](https://vndb.org/");
            s.append(v.id.as_str());
            s.append(")**");
        },
        None => {},
    }
    assert(s@ =~= start + "**Stats for <@"@ + uid@ + ">**"@ + vn_header_text(*vn));
}

/// Appends the totals part of the statistics reply.
fn push_summary(s: &mut String, stats: &LogStats)
    requires
        minutes_in_range(stats.minutes as int),
        minutes_in_range(stats.weekly_minutes as int),
    ensures
        final(s)@ == old(s)@ + summary_text(
            stats.count as int,
            stats.minutes as int,
            stats.weekly_count as int,
            stats.weekly_minutes as int,
        ),
{
    let ghost start = s@;
    s.append("\nLogged **");
    push_int(s, stats.count);
    s.append("** characters in **");
    push_duration(s, stats.minutes);
    s.append("** hours.\n**Weekly stats**:\nLogged **");
    push_int(s, stats.weekly_count);
    s.append("** characters in **");
    push_duration(s, stats.weekly_minutes);
    s.append("** hours.");
    assert(s@ =~= start + summary_text(
        stats.count as int,
        stats.minutes as int,
        stats.weekly_count as int,
        stats.weekly_minutes as int,
    ));
}

/// Appends the lines of the first `k` logs.
fn push_lines(s: &mut String, logs: &Vec<Log>, displays: &Vec<Option<String>>, k: usize)
    requires
        k <= logs@.len(),
        k <= displays@.len(),
        forall|i: int|
            0 <= i < k ==> {
                &&& (#[trigger] displays@[i] is Some <==> logs@[i].name is Some)
                &&& (logs@[i].time matches Some(h) ==> minutes_in_range(h as int))
            },
    ensures
        final(s)@ == old(s)@ + lines_text(logs@, displays@, k as int),
{
    let ghost start = s@;
    let mut i: usize = 0;
    while i < k
        invariant
            i <= k,
            k <= logs@.len(),
            k <= displays@.len(),
            forall|j: int|
                0 <= j < k ==> {
                    &&& (#[trigger] displays@[j] is Some <==> logs@[j].name is Some)
                    &&& (logs@[j].time matches Some(h) ==> minutes_in_range(h as int))
                },
            s@ == start + lines_text(logs@, displays@, i as int),
        decreases k - i,
    {
        assert(displays@[i as int] is Some <==> logs@[i as int].name is Some);
        push_log_line(s, &logs[i], &displays[i]);
        assert(s@ =~= start + lines_text(logs@, displays@, i + 1));
        i = i + 1;
    }
}

/// The statistics reply for the user `uid`: the header (with the visual
/// novel the statistics are limited to, if any), the totals of all logs and
/// of the logs written after `week`, and the first five logs, each shown
/// with the matching entry of `displays` as its visual novel's text.
pub fn info_message(
    uid: &str,
    vn: Option<VnName>,
    logs: &Vec<Log>,
    displays: &Vec<Option<String>>,
    week: Stamp,
) -> (r: String)
    requires
        info_inputs_ok(logs@, displays@, week),
    ensures
        r@ == info_text(uid@, vn, logs@, displays@, week),
{
    let stats = log_stats(logs, week);
    let mut s = String::new();
    push_header(&mut s, uid, &vn);
    push_summary(&mut s, &stats);
    let n = logs.len();
    if n > 0 {
        s.append("\n**Last few logs:\n**");
        let k: usize = if n < 5 {
            n
        } else {
            5
        };
        push_lines(&mut s, logs, displays, k);
    }
    assert(s@ =~= info_text(uid@, vn, logs@, displays@, week));
    s
}

/// With no negative character counts, the characters read in the last
/// week never exceed the characters read in all.
pub proof fn lemma_weekly_count_within_total(logs: Seq<Log>, week: Stamp)
    requires
        forall|i: int| 0 <= i < logs.len() ==> #[trigger] logs[i].count >= 0,
    ensures
        0 <= weekly_count(logs, week) <= total_count(logs),
    decreases logs.len(),
{
    if logs.len() > 0 {
        let rest = logs.drop_last();
        assert forall|i: int| 0 <= i < rest.len() implies #[trigger] rest[i].count >= 0 by {
            assert(rest[i] == logs[i]);
        }
        lemma_weekly_count_within_total(rest, week);
        assert(logs.last().count >= 0);
    }
}

/// With no negative reading times, the minutes read in the last week never
/// exceed the minutes read in all.
pub proof fn lemma_weekly_minutes_within_total(logs: Seq<Log>, week: Stamp)
    requires
        forall|i: int| 0 <= i < logs.len() ==> #[trigger] minutes_of(logs[i]) >= 0,
    ensures
        0 <= weekly_minutes(logs, week) <= total_minutes(logs),
    decreases logs.len(),
{
    if logs.len() > 0 {
        let rest = logs.drop_last();
        assert forall|i: int| 0 <= i < rest.len() implies #[trigger] minutes_of(rest[i]) >= 0 by {
            assert(rest[i] == logs[i]);
        }
        lemma_weekly_minutes_within_total(rest, week);
        assert(minutes_of(logs.last()) >= 0);
    }
}

/// When every log was written after `week`, the week's totals are the
/// totals of all logs.
pub proof fn lemma_all_recent_weekly_is_total(logs: Seq<Log>, week: Stamp)
    requires
        forall|i: int| 0 <= i < logs.len() ==> later_than(#[trigger] logs[i].timestamp, week),
    ensures
        weekly_count(logs, week) == total_count(logs),
        weekly_minutes(logs, week) == total_minutes(logs),
    decreases logs.len(),
{
    if logs.len() > 0 {
        let rest = logs.drop_last();
        assert forall|i: int| 0 <= i < rest.len() implies later_than(
            #[trigger] rest[i].timestamp,
            week,
        ) by {
            assert(rest[i] == logs[i]);
        }
        lemma_all_recent_weekly_is_total(rest, week);
        assert(later_than(logs[logs.len() - 1].timestamp, week));
    }
}

/// The start of a log's line: its time and its characters.
pub open spec fn line_head(l: Log) -> Seq<char> {
    "<t:"@ + int_text(l.timestamp.secs as int) + ":R> **"@ + int_text(l.count as int) + " chars**"@
}

/// The same log without a reading time.
pub open spec fn without_time(l: Log) -> Log {
    Log {
        uid: l.uid,
        timestamp: l.timestamp,
        count: l.count,
        name: l.name,
        time: None,
        comment: l.comment,
    }
}

/// A listed log that names a visual novel ends its line with the link to
/// it, whether or not it has a reading time.
pub proof fn lemma_line_links_vn(l: Log, display: Option<String>)
    requires
        l.name is Some,
        display is Some,
    ensures
        ({
            let t = line_text(l, display);
            let link = " of **["@ + display.unwrap()@ + "](https://vndb.org/"@ + l.name.unwrap()@
                + ")**"@ + ".\n"@;
            t.len() >= link.len() && t.skip(t.len() - link.len()) == link
        }),
{
    let t = line_text(l, display);
    let link = " of **["@ + display.unwrap()@ + "](https://vndb.org/"@ + l.name.unwrap()@ + ")**"@
        + ".\n"@;
    let front = line_head(l) + match l.time {
        Some(h) => " for **"@ + fmt_duration_spec(h as int) + "** hours"@,
        None => Seq::empty(),
    };
    assert(t =~= front + link);
    assert(t.skip(t.len() - link.len()) =~= link);
}

/// A reading time shows right after the characters of a log's line, and
/// the rest of the line is what it would be without the time.
pub proof fn lemma_line_time(l: Log, display: Option<String>)
    requires
        l.time is Some,
    ensures
        line_text(without_time(l), display).take(line_head(l).len() as int) == line_head(l),
        line_text(l, display) == line_head(l) + " for **"@ + fmt_duration_spec(
            l.time.unwrap() as int,
        ) + "** hours"@ + line_text(without_time(l), display).skip(line_head(l).len() as int),
{
    let rest = match (l.name, display) {
        (Some(n), Some(d)) => " of **["@ + d@ + "](https://vndb.org/"@ + n@ + ")**"@,
        _ => Seq::empty(),
    } + ".\n"@;
    let bare = line_text(without_time(l), display);
    assert(bare =~= line_head(l) + rest);
    assert(bare.take(line_head(l).len() as int) =~= line_head(l));
    assert(bare.skip(line_head(l).len() as int) =~= rest);
    assert(line_text(l, display) =~= line_head(l) + " for **"@ + fmt_duration_spec(
        l.time.unwrap() as int,
    ) + "** hours"@ + rest);
}

/// The totals of two runs of logs, one after the other, are the sums of
/// their totals; a single log counts its own characters and minutes, and
/// for the week only when it was written after the week's start.
pub proof fn lemma_totals_add(a: Seq<Log>, b: Seq<Log>, week: Stamp)
    ensures
        total_count(a + b) == total_count(a) + total_count(b),
        total_minutes(a + b) == total_minutes(a) + total_minutes(b),
        weekly_count(a + b, week) == weekly_count(a, week) + weekly_count(b, week),
        weekly_minutes(a + b, week) == weekly_minutes(a, week) + weekly_minutes(b, week),
    decreases b.len(),
{
    if b.len() == 0 {
        assert(a + b =~= a);
    } else {
        lemma_totals_add(a, b.drop_last(), week);
        assert((a + b).drop_last() =~= a + b.drop_last());
        assert((a + b).last() == b.last());
    }
}

/// A single log counts its own characters and minutes, and counts for the
/// week exactly when it was written after the week's start.
pub proof fn lemma_totals_single(l: Log, week: Stamp)
    ensures
        total_count(seq![l]) == l.count,
        total_minutes(seq![l]) == (match l.time {
            Some(m) => m as int,
            None => 0,
        }),
        weekly_count(seq![l], week) == (if later_than(l.timestamp, week) {
            l.count as int
        } else {
            0
        }),
        weekly_minutes(seq![l], week) == (if later_than(l.timestamp, week) {
            total_minutes(seq![l])
        } else {
            0
        }),
{
    let one = seq![l];
    let none = Seq::<Log>::empty();
    assert(one.drop_last() =~= none);
    assert(one.last() == l);
    assert(total_count(none) == 0);
    assert(total_minutes(none) == 0);
    assert(weekly_count(none, week) == 0);
    assert(weekly_minutes(none, week) == 0);
    assert(total_count(one) == total_count(one.drop_last()) + one.last().count);
    assert(total_minutes(one) == total_minutes(one.drop_last()) + minutes_of(one.last()));
    assert(weekly_count(one, week) == weekly_count(one.drop_last(), week) + if later_than(
        one.last().timestamp,
        week,
    ) {
        one.last().count as int
    } else {
        0
    });
    assert(weekly_minutes(one, week) == weekly_minutes(one.drop_last(), week) + if later_than(
        one.last().timestamp,
        week,
    ) {
        minutes_of(one.last())
    } else {
        0
    });
}

} // verus!
