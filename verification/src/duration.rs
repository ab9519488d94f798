//! Reading durations, counted in whole minutes: reading them from the
//! `[hour:min]` and `[min]` forms users type, and printing them as
//! `hours:minutes`.

use vstd::prelude::*;
use vstd::string::*;

use crate::text::{
    all_digits, decimal, digit_char, digit_value, digits_value, int_text, int_to_string, is_digit,
    lemma_decimal_roundtrip, parse_u64, parse_u64_spec, unsigned_body,
};

verus! {

/// The largest number of minutes that `chrono::Duration::minutes` accepts:
/// `minutes * 60` seconds must stay within `i64::MAX / 1000` seconds.
pub const MAX_MINUTES: i64 = 153_722_867_280_912i64;

/// Integer division that rounds toward zero, as Rust's `/` does.
pub open spec fn trunc_div(a: int, b: int) -> int {
    if a >= 0 {
        a / b
    } else {
        -((-a) / b)
    }
}

/// The remainder that goes with `trunc_div`, as Rust's `%` computes it.
pub open spec fn trunc_rem(a: int, b: int) -> int {
    a - b * trunc_div(a, b)
}

/// A number of minutes that `chrono::Duration::minutes` accepts.
pub open spec fn minutes_in_range(m: int) -> bool {
    -MAX_MINUTES <= m <= MAX_MINUTES
}

/// Calls `chrono::Duration::minutes(minutes).num_hours()`. The duration holds
/// `minutes * 60` whole seconds, and `num_hours` divides its seconds by 3600
/// rounding toward zero; `Duration::minutes` panics outside the range
/// required here.
#[verifier::external_body]
fn whole_hours(minutes: i64) -> (r: i64)
    requires
        minutes_in_range(minutes as int),
    ensures
        r == trunc_div(minutes as int, 60),
{
    chrono::Duration::minutes(minutes).num_hours()
}

/// Calls `chrono::Duration::minutes(minutes).num_minutes()`. The duration
/// holds `minutes * 60` whole seconds, and `num_minutes` divides them by 60
/// again, which gives the minutes back; `Duration::minutes` panics outside
/// the range required here.
#[verifier::external_body]
fn whole_minutes(minutes: i64) -> (r: i64)
    requires
        minutes_in_range(minutes as int),
    ensures
        r == minutes,
{
    chrono::Duration::minutes(minutes).num_minutes()
}

/// Whether `chrono::Duration::minutes` accepts `m` minutes; it panics on
/// any other number.
pub fn minutes_fit(m: i64) -> (r: bool)
    ensures
        r == minutes_in_range(m as int),
{
    -MAX_MINUTES <= m && m <= MAX_MINUTES
}

/// The text right-aligned in a field of two characters, filled with `'0'`.
pub open spec fn pad2(t: Seq<char>) -> Seq<char> {
    if t.len() < 2 {
        seq!['0'] + t
    } else {
        t
    }
}

/// How a duration of `minutes` is printed: whole hours, a colon, and the
/// remaining minutes in two characters.
pub open spec fn fmt_duration_spec(minutes: int) -> Seq<char> {
    int_text(trunc_div(minutes, 60)) + seq![':'] + pad2(int_text(trunc_rem(minutes, 60)))
}

/// The whole hours of a duration and the minutes left over, as chrono's
/// `num_hours()` and `num_minutes() % 60` give them (both carry the sign of
/// the duration).
pub fn split_hours(minutes: i64) -> (r: (i64, i64))
    requires
        minutes_in_range(minutes as int),
    ensures
        r.0 == trunc_div(minutes as int, 60),
        r.1 == trunc_rem(minutes as int, 60),
{
    let h = whole_hours(minutes);
    let total = whole_minutes(minutes);
    let m: i64 = if total >= 0 {
        total % 60
    } else {
        let magnitude: u64 = (-total) as u64;
        -((magnitude % 60) as i64)
    };
    (h, m)
}

/// Prints a duration of `minutes` as `h:mm`, such as `1:05`.
pub fn fmt_duration(minutes: i64) -> (r: String)
    requires
        minutes_in_range(minutes as int),
    ensures
        r@ == fmt_duration_spec(minutes as int),
{
    let (h, m) = split_hours(minutes);
    let mut s = int_to_string(h);
    proof {
        reveal_strlit(":");
        reveal_strlit("0");
    }
    s.append(":");
    let mt = int_to_string(m);
    if mt.unicode_len() < 2 {
        s.append("0");
    }
    s.append(mt.as_str());
    assert(s@ =~= fmt_duration_spec(minutes as int));
    s
}

/// Why a piece of text is not a duration.
#[derive(Debug, Clone, Copy, PartialEq, Eq, Structural)]
pub enum DurationError {
    /// In the `[hour:min]` form, the part before the colon is no number.
    HourComponent,
    /// In the `[hour:min]` form, there is no colon.
    MissingColon,
    /// In the `[hour:min]` form, the part after the colon is no number.
    MinuteComponent,
    /// In the `[min]` form, the text is no number.
    Minutes,
    /// The minutes are 60 or more.
    MinutesTooLarge,
}

/// The words that describe each error.
pub open spec fn error_text(e: DurationError) -> Seq<char> {
    match e {
        DurationError::HourComponent => "parsing hour component failed"@,
        DurationError::MissingColon => "colon `:` not found"@,
        DurationError::MinuteComponent => "parsing minute component failed"@,
        DurationError::Minutes => "parsing minutes failed"@,
        DurationError::MinutesTooLarge => "minutes greater than 60"@,
    }
}

impl DurationError {
    /// The words that describe the error.
    pub fn message(&self) -> (r: &'static str)
        ensures
            r@ == error_text(*self),
    {
        match self {
            DurationError::HourComponent => "parsing hour component failed",
            DurationError::MissingColon => "colon `:` not found",
            DurationError::MinuteComponent => "parsing minute component failed",
            DurationError::Minutes => "parsing minutes failed",
            DurationError::MinutesTooLarge => "minutes greater than 60",
        }
    }
}

/// The position of the first `':'` in `s`, or the length of `s` when there
/// is none.
pub open spec fn colon_pos(s: Seq<char>) -> int
    decreases s.len(),
{
    if s.len() == 0 {
        0
    } else if s[0] == ':' {
        0
    } else {
        1 + colon_pos(s.drop_first())
    }
}

/// The position of the first colon is `i` when `s[i]` is a colon (or `i`
/// is the end) and no colon comes before it.
pub proof fn lemma_colon_pos(s: Seq<char>, i: int)
    requires
        0 <= i <= s.len(),
        i < s.len() ==> s[i] == ':',
        forall|j: int| 0 <= j < i ==> s[j] != ':',
    ensures
        colon_pos(s) == i,
    decreases i,
{
    if i > 0 {
        assert(s[0] != ':');
        let t = s.drop_first();
        assert forall|j: int| 0 <= j < i - 1 implies t[j] != ':' by {
            assert(t[j] == s[j + 1]);
        }
        if i - 1 < t.len() {
            assert(t[i - 1] == s[i]);
        }
        lemma_colon_pos(t, i - 1);
    }
}

/// The value of a 64-bit unsigned number reinterpreted as a signed one, as
/// Rust's `as i64` does.
pub open spec fn wrap_i64(h: u64) -> int {
    if h <= i64::MAX {
        h as int
    } else {
        h - 0x1_0000_0000_0000_0000int
    }
}

/// The hours and minutes of the `[hour:min]` form: the number before the
/// first colon and the number after it, checked in that order.
pub open spec fn hour_min_parts(s: Seq<char>) -> Result<(u64, u64), DurationError> {
    let k = colon_pos(s);
    match parse_u64_spec(s.take(k)) {
        None => Err(DurationError::HourComponent),
        Some(h) => if k >= s.len() {
            Err(DurationError::MissingColon)
        } else {
            match parse_u64_spec(s.skip(k + 1)) {
                None => Err(DurationError::MinuteComponent),
                Some(m) => if m >= 60 {
                    Err(DurationError::MinutesTooLarge)
                } else {
                    Ok((h, m))
                },
            }
        },
    }
}

/// The minutes that the `[hour:min]` form describes: the hours go through
/// a cast to `i64` before they are multiplied by 60.
pub open spec fn hour_min_spec(s: Seq<char>) -> Result<int, DurationError> {
    match hour_min_parts(s) {
        Ok((h, m)) => Ok(wrap_i64(h) * 60 + m),
        Err(e) => Err(e),
    }
}

/// The minutes that the `[min]` form describes.
pub open spec fn min_spec(s: Seq<char>) -> Result<int, DurationError> {
    match parse_u64_spec(s) {
        None => Err(DurationError::Minutes),
        Some(m) => if m >= 60 {
            Err(DurationError::MinutesTooLarge)
        } else {
            Ok(m as int)
        },
    }
}

/// The text is no duration at all, or its minutes stay in the range that
/// the duration type holds.
pub open spec fn duration_in_range(s: Seq<char>) -> bool {
    hour_min_spec(s) matches Ok(t) ==> minutes_in_range(t)
}

/// The message given when neither form reads the text.
pub open spec fn failure_text(s: Seq<char>, e1: DurationError, e2: DurationError) -> Seq<char> {
    "Unable to parse duration `"@ + s + "`.\nTried `[hour:min]` format, but "@ + error_text(e1)
        + ".\nTried `[min]` format, but "@ + error_text(e2) + "."@
}

/// What reading a duration gives: the `[hour:min]` form first, then the
/// `[min]` form, else a message that names both failures.
pub open spec fn parse_date_spec(s: Seq<char>) -> Result<int, Seq<char>> {
    match hour_min_spec(s) {
        Ok(t) => Ok(t),
        Err(e1) => match min_spec(s) {
            Ok(t) => Ok(t),
            Err(e2) => Err(failure_text(s, e1, e2)),
        },
    }
}

/// Finds the hours and minutes of the `[hour:min]` form.
fn parse_hour_min_parts(s: &str) -> (r: Result<(u64, u64), DurationError>)
    ensures
        r == hour_min_parts(s@),
{
    let len = s.unicode_len();
    let mut k: usize = 0;
    while k < len
        invariant
            k <= len,
            len == s@.len(),
            forall|j: int| 0 <= j < k ==> s@[j] != ':',
        ensures
            k <= len,
            k < len ==> s@[k as int] == ':',
            forall|j: int| 0 <= j < k ==> s@[j] != ':',
        decreases len - k,
    {
        if s.get_char(k) == ':' {
            break;
        }
        k = k + 1;
    }
    proof {
        lemma_colon_pos(s@, k as int);
    }
    let hours = s.substring_char(0, k);
    let h = match parse_u64(hours) {
        None => {
            return Err(DurationError::HourComponent);
        },
        Some(h) => h,
    };
    if k >= len {
        return Err(DurationError::MissingColon);
    }
    let minutes = s.substring_char(k + 1, len);
    assert(minutes@ =~= s@.skip(k + 1));
    match parse_u64(minutes) {
        None => Err(DurationError::MinuteComponent),
        Some(m) => if m >= 60 {
            Err(DurationError::MinutesTooLarge)
        } else {
            Ok((h, m))
        },
    }
}

/// The minutes of `hours * 60 + minutes`, the hours cast to `i64` first.
fn hour_min_total(h: u64, m: u64) -> (r: i128)
    requires
        m < 60,
    ensures
        r == wrap_i64(h) * 60 + m,
{
    let wide: i128 = if h <= 9_223_372_036_854_775_807u64 {
        h as i128
    } else {
        h as i128 - 18_446_744_073_709_551_616i128
    };
    wide * 60 + m as i128
}

/// Whether reading `s` as a duration stays in the range of the duration
/// type; reading any other text panics.
pub fn duration_fits(s: &str) -> (r: bool)
    ensures
        r == duration_in_range(s@),
{
    match parse_hour_min_parts(s) {
        Err(_) => true,
        Ok((h, m)) => {
            let total = hour_min_total(h, m);
            -153_722_867_280_912i128 <= total && total <= 153_722_867_280_912i128
        },
    }
}

/// Reads the `[hour:min]` form, such as `1:28`.
pub fn parse_hour_min(s: &str) -> (r: Result<i64, DurationError>)
    requires
        duration_in_range(s@),
    ensures
        match hour_min_spec(s@) {
            Ok(t) => r == Ok::<i64, DurationError>(t as i64) && minutes_in_range(t),
            Err(e) => r == Err::<i64, DurationError>(e),
        },
{
    match parse_hour_min_parts(s) {
        Err(e) => Err(e),
        Ok((h, m)) => {
            let total = hour_min_total(h, m) as i64;
            Ok(whole_minutes(total))
        },
    }
}

/// Reads the `[min]` form, such as `54`: fewer than 60 minutes.
pub fn parse_min(s: &str) -> (r: Result<i64, DurationError>)
    ensures
        match min_spec(s@) {
            Ok(t) => r == Ok::<i64, DurationError>(t as i64) && 0 <= t < 60,
            Err(e) => r == Err::<i64, DurationError>(e),
        },
{
    match parse_u64(s) {
        None => Err(DurationError::Minutes),
        Some(m) => if m >= 60 {
            Err(DurationError::MinutesTooLarge)
        } else {
            Ok(whole_minutes(m as i64))
        },
    }
}

/// Reads a reading duration in minutes: first as `[hour:min]`, then as
/// `[min]`; when neither form reads it, the message names both failures.
pub fn parse_date(s: &str) -> (r: Result<i64, String>)
    requires
        duration_in_range(s@),
    ensures
        match parse_date_spec(s@) {
            Ok(t) => r matches Ok(v) && v == t,
            Err(text) => r matches Err(e) && e@ == text,
        },
{
    let e1 = match parse_hour_min(s) {
        Ok(d) => {
            return Ok(d);
        },
        Err(e) => e,
    };
    let e2 = match parse_min(s) {
        Ok(d) => {
            return Ok(d);
        },
        Err(e) => e,
    };
    let mut text = String::new();
    text.append("Unable to parse duration `");
    text.append(s);
    text.append("`.\nTried `[hour:min]` format, but ");
    text.append(e1.message());
    text.append(".\nTried `[min]` format, but ");
    text.append(e2.message());
    text.append(".");
    assert(text@ =~= failure_text(s@, e1, e2));
    Err(text)
}

/// The two-character minutes field of a printed duration is read back as
/// the minutes it holds.
proof fn lemma_pad2_parse(r: nat)
    requires
        r < 60,
    ensures
        parse_u64_spec(pad2(decimal(r))) == Some(r as u64),
{
    lemma_decimal_roundtrip(r);
    let b = pad2(decimal(r));
    if r < 10 {
        assert(decimal(r) == seq![digit_char(r)]);
        assert(b =~= seq!['0', digit_char(r)]);
        assert(b.drop_last() =~= seq!['0']);
        let z = seq!['0'];
        assert(z.drop_last() =~= Seq::<char>::empty());
        assert(z.last() == '0');
        assert(digits_value(z) == digits_value(z.drop_last()) * 10 + digit_value(z.last()));
        assert(digits_value(z) == 0);
        assert(digits_value(b) == digits_value(b.drop_last()) * 10 + digit_value(b.last()));
        assert(digit_char(r) as int == r + 48);
        assert(digits_value(b) == r);
        assert(is_digit(b[0]) && is_digit(b[1]));
        assert(all_digits(b));
        assert(unsigned_body(b) == b);
    } else {
        lemma_decimal_roundtrip(r / 10);
        assert(decimal(r).len() >= 2);
        assert(b == decimal(r));
        assert(unsigned_body(b) == b);
    }
}

/// Printing a duration of zero or more minutes and reading the text back
/// gives the same minutes.
pub proof fn lemma_fmt_parse_roundtrip(minutes: int)
    requires
        0 <= minutes <= MAX_MINUTES,
    ensures
        duration_in_range(fmt_duration_spec(minutes)),
        parse_date_spec(fmt_duration_spec(minutes)) == Ok::<int, Seq<char>>(minutes),
{
    let h = (minutes / 60) as nat;
    let r = (minutes % 60) as nat;
    lemma_decimal_roundtrip(h);
    lemma_pad2_parse(r);
    let a = decimal(h);
    let b = pad2(decimal(r));
    let s = fmt_duration_spec(minutes);
    assert(s =~= a + seq![':'] + b);
    assert forall|j: int| 0 <= j < a.len() implies s[j] != ':' by {
        assert(s[j] == a[j]);
        assert(is_digit(a[j]));
    }
    assert(s[a.len() as int] == ':');
    lemma_colon_pos(s, a.len() as int);
    assert(s.take(a.len() as int) =~= a);
    assert(s.skip(a.len() as int + 1) =~= b);
    assert(unsigned_body(a) == a);
    assert(parse_u64_spec(a) == Some(h as u64));
    assert(hour_min_parts(s) == Ok::<(u64, u64), DurationError>((h as u64, r as u64)));
    assert(wrap_i64(h as u64) == h);
}

/// A text of decimal digits that starts with a digit reads as its value,
/// leading zeros and all.
proof fn lemma_parse_digits(t: Seq<char>)
    requires
        t.len() > 0,
        all_digits(t),
        digits_value(t) <= u64::MAX,
    ensures
        parse_u64_spec(t) == Some(digits_value(t) as u64),
{
    assert(is_digit(t[0]));
    assert(unsigned_body(t) == t);
}

/// Any decimal hours (leading zeros allowed), a colon and decimal minutes
/// below 60 are read as `hours * 60 + minutes` minutes, by the `[hour:min]`
/// form and so by `parse_date`.
pub proof fn lemma_hour_min_digits(hs: Seq<char>, ms: Seq<char>)
    requires
        hs.len() > 0,
        all_digits(hs),
        ms.len() > 0,
        all_digits(ms),
        digits_value(ms) < 60,
        digits_value(hs) * 60 + digits_value(ms) <= MAX_MINUTES,
    ensures
        hour_min_spec(hs + seq![':'] + ms) == Ok::<int, DurationError>(
            (digits_value(hs) * 60 + digits_value(ms)) as int,
        ),
        duration_in_range(hs + seq![':'] + ms),
        parse_date_spec(hs + seq![':'] + ms) == Ok::<int, Seq<char>>(
            (digits_value(hs) * 60 + digits_value(ms)) as int,
        ),
{
    let s = hs + seq![':'] + ms;
    let h = digits_value(hs);
    let m = digits_value(ms);
    assert forall|j: int| 0 <= j < hs.len() implies s[j] != ':' by {
        assert(s[j] == hs[j]);
        assert(is_digit(hs[j]));
    }
    assert(s[hs.len() as int] == ':');
    lemma_colon_pos(s, hs.len() as int);
    assert(s.take(hs.len() as int) =~= hs);
    assert(s.skip(hs.len() as int + 1) =~= ms);
    lemma_parse_digits(hs);
    lemma_parse_digits(ms);
    assert(hour_min_parts(s) == Ok::<(u64, u64), DurationError>((h as u64, m as u64)));
    assert(wrap_i64(h as u64) == h);
}

/// Decimal minutes below 60, with no colon, are read as those minutes by
/// `parse_date` (through the `[min]` form).
pub proof fn lemma_min_digits(ms: Seq<char>)
    requires
        ms.len() > 0,
        all_digits(ms),
        digits_value(ms) < 60,
    ensures
        duration_in_range(ms),
        parse_date_spec(ms) == Ok::<int, Seq<char>>(digits_value(ms) as int),
{
    assert forall|j: int| 0 <= j < ms.len() implies ms[j] != ':' by {
        assert(is_digit(ms[j]));
    }
    lemma_colon_pos(ms, ms.len() as int);
    assert(ms.take(ms.len() as int) =~= ms);
    lemma_parse_digits(ms);
    assert(hour_min_parts(ms) == Err::<(u64, u64), DurationError>(DurationError::MissingColon));
}

} // verus!
