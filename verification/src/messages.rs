//! The replies the reading log sends, and the small decisions around them.

use vstd::prelude::*;
use vstd::string::*;

use crate::duration::{fmt_duration, fmt_duration_spec, minutes_in_range};
use crate::text::{
    decimal, int_text, lemma_parse_decimal, parse_u64_spec, push_decimal, push_int,
};

verus! {

/// A visual novel as a reply shows it: the text to display and the id or
/// name it was logged under.
pub struct VnName {
    pub display: String,
    pub id: String,
}

/// The name starts with `'v'`, as a vndb id such as `v17` does.
pub open spec fn is_vndb_id(s: Seq<char>) -> bool {
    s.len() > 0 && s[0] == 'v'
}

/// Whether the title of `s` is looked up on vndb: only names that start
/// with `'v'` are.
pub fn needs_vndb_lookup(s: &str) -> (r: bool)
    ensures
        r == is_vndb_id(s@),
{
    s.unicode_len() > 0 && s.get_char(0) == 'v'
}

/// A markdown link to the vndb page of `id`, showing `title`.
pub open spec fn vndb_link(title: Seq<char>, id: Seq<char>) -> Seq<char> {
    "["@ + title + "](https://vndb.org/"@ + id + ")"@
}

/// How a visual novel logged as `s` is shown, given the title vndb has for
/// it: a link for a vndb id whose title is known, else `s` itself.
pub open spec fn vn_display_text(s: Seq<char>, title: Option<String>) -> Seq<char> {
    if is_vndb_id(s) {
        match title {
            Some(t) => vndb_link(t@, s),
            None => s,
        }
    } else {
        s
    }
}

/// How a visual novel logged as `s` is shown: for a vndb id whose title
/// was found, a link to its vndb page showing the title; otherwise `s`.
pub fn vn_display_name(s: String, title: Option<String>) -> (r: String)
    ensures
        r@ == vn_display_text(s@, title),
{
    if !needs_vndb_lookup(s.as_str()) {
        return s;
    }
    match title {
        Some(t) => {
            let mut r = String::new();
            r.append("[");
            r.append(t.as_str());
            r.append("](https://vndb.org/");
            r.append(s.as_str());
            r.append(")");
            assert(r@ =~= vndb_link(t@, s@));
            r
        },
        None => s,
    }
}

/// When a new log was written, as its reply says it.
pub open spec fn logged_when_text(backlog: Option<i64>) -> Seq<char> {
    match backlog {
        Some(ts) => " back-logged (at <t:"@ + int_text(ts as int) + ":R>)"@,
        None => " logged"@,
    }
}

/// The reading time of a new log, as its reply says it.
pub open spec fn logged_time_text(time: Option<i64>) -> Seq<char> {
    match time {
        Some(t) => " for **"@ + fmt_duration_spec(t as int) + "**"@,
        None => Seq::empty(),
    }
}

/// The visual novel of a new log, as its reply says it.
pub open spec fn logged_name_text(name: Option<VnName>) -> Seq<char> {
    match name {
        Some(v) => " on **["@ + v.display@ + "]("@ + v.id@ + ")**"@,
        None => Seq::empty(),
    }
}

/// The end of the reply to a new log: the spreadsheet note and the comment.
pub open spec fn logged_tail_text(logged_to_sheet: bool, comment: Option<String>) -> Seq<char> {
    (if logged_to_sheet {
        " *sheets OK*"@
    } else {
        Seq::empty()
    }) + match comment {
        Some(c) => "\n> "@ + c@,
        None => Seq::empty(),
    }
}

/// The reply to a new log.
pub open spec fn vn_text(
    id: Seq<char>,
    backlog: Option<i64>,
    chars: u32,
    time: Option<i64>,
    name: Option<VnName>,
    logged_to_sheet: bool,
    comment: Option<String>,
) -> Seq<char> {
    "<@"@ + id + ">"@ + logged_when_text(backlog) + " **"@ + decimal(chars as nat) + "** chars"@
        + logged_time_text(time) + logged_name_text(name) + "."@ + logged_tail_text(
        logged_to_sheet,
        comment,
    )
}

/// Appends when a new log was written.
fn push_logged_when(s: &mut String, backlog: Option<i64>)
    ensures
        final(s)@ == old(s)@ + logged_when_text(backlog),
{
    match backlog {
        Some(ts) => {
            s.append(" back-logged (at <t:");
            push_int(s, ts);
            s.append(":R>)");
            assert(final(s)@ =~= old(s)@ + logged_when_text(backlog));
        },
        None => {
            s.append(" logged");
        },
    }
}

/// Appends the reading time of a new log.
fn push_logged_time(s: &mut String, time: Option<i64>)
    requires
        time matches Some(t) ==> minutes_in_range(t as int),
    ensures
        final(s)@ == old(s)@ + logged_time_text(time),
{
    match time {
        Some(t) => {
            s.append(" for **");
            let d = fmt_duration(t);
            s.append(d.as_str());
            s.append("**");
            assert(final(s)@ =~= old(s)@ + logged_time_text(time));
        },
        None => {
            assert(final(s)@ =~= old(s)@ + logged_time_text(time));
        },
    }
}

/// Appends the visual novel of a new log.
fn push_logged_name(s: &mut String, name: &Option<VnName>)
    ensures
        final(s)@ == old(s)@ + logged_name_text(*name),
{
    match name {
        Some(v) => {
            s.append(" on **[");
            s.append(v.display.as_str());
            s.append("](");
            s.append(v.id.as_str());
            s.append(")**");
            assert(final(s)@ =~= old(s)@ + logged_name_text(*name));
        },
        None => {
            assert(final(s)@ =~= old(s)@ + logged_name_text(*name));
        },
    }
}

/// Appends the spreadsheet note and the comment of a new log.
fn push_logged_tail(s: &mut String, logged_to_sheet: bool, comment: &Option<String>)
    ensures
        final(s)@ == old(s)@ + logged_tail_text(logged_to_sheet, *comment),
{
    let ghost start = s@;
    if logged_to_sheet {
        s.append(" *sheets OK*");
    }
    match comment {
        Some(c) => {
            s.append("\n> ");
            s.append(c.as_str());
        },
        None => {},
    }
    assert(s@ =~= start + logged_tail_text(logged_to_sheet, *comment));
}

/// The reply to a new log by the user `id`: when it was back-logged, the
/// characters and time read, the visual novel, whether the spreadsheet got
/// it, and the comment.
pub fn vn_message(
    id: &str,
    backlog: Option<i64>,
    chars: u32,
    time: Option<i64>,
    name: Option<VnName>,
    logged_to_sheet: bool,
    comment: Option<String>,
) -> (r: String)
    requires
        time matches Some(t) ==> minutes_in_range(t as int),
    ensures
        r@ == vn_text(id@, backlog, chars, time, name, logged_to_sheet, comment),
{
    let mut s = String::new();
    s.append("<@");
    s.append(id);
    s.append(">");
    push_logged_when(&mut s, backlog);
    s.append(" **");
    push_decimal(&mut s, chars as u64);
    s.append("** chars");
    push_logged_time(&mut s, time);
    push_logged_name(&mut s, &name);
    s.append(".");
    push_logged_tail(&mut s, logged_to_sheet, &comment);
    assert(s@ =~= vn_text(id@, backlog, chars, time, name, logged_to_sheet, comment));
    s
}

/// The reply that carries an export: the CSV text in a code block.
pub fn export_message(csv: &str) -> (r: String)
    ensures
        r@ == "```csv\n"@ + csv@ + "```\n"@,
{
    let mut s = String::new();
    s.append("```csv\n");
    s.append(csv);
    s.append("```\n");
    s
}

/// The reply to registering a spreadsheet.
pub fn spreadsheet_set_message(spreadsheet_id: &str) -> (r: String)
    ensures
        r@ == "Set spreadsheet ID to `"@ + spreadsheet_id@ + "`."@,
{
    let mut s = String::new();
    s.append("Set spreadsheet ID to `");
    s.append(spreadsheet_id);
    s.append("`.");
    s
}

/// The message that asks a user to authorize access at `url`.
pub fn authorization_prompt(url: &str) -> (r: String)
    ensures
        r@ == "Please go to "@ + url@ + " and follow the instructions displayed there."@,
{
    let mut s = String::new();
    s.append("Please go to ");
    s.append(url);
    s.append(" and follow the instructions displayed there.");
    s
}

/// The ordinal of a rank: `1st`, `2nd`, `3rd`, then the number and `th`.
pub open spec fn ordinal_text(i: nat) -> Seq<char> {
    if i == 1 {
        "1st"@
    } else if i == 2 {
        "2nd"@
    } else if i == 3 {
        "3rd"@
    } else {
        decimal(i) + "th"@
    }
}

/// The ordinal of a rank, such as `2nd` or `11th`.
pub fn ordinal(i: usize) -> (r: String)
    ensures
        r@ == ordinal_text(i as nat),
{
    let mut s = String::new();
    match i {
        1 => s.append("1st"),
        2 => s.append("2nd"),
        3 => s.append("3rd"),
        _ => {
            push_decimal(&mut s, i as u64);
            s.append("th");
        },
    }
    assert(s@ =~= ordinal_text(i as nat));
    s
}

/// Why a token cannot be stored.
#[derive(Debug, Clone, Copy, PartialEq, Eq, Structural)]
pub enum TokenError {
    /// The token came without a refresh token.
    MissingRefreshToken,
    /// The refresh token is empty.
    EmptyRefreshToken,
}

/// The words that describe each token error.
pub open spec fn token_error_text(e: TokenError) -> Seq<char> {
    match e {
        TokenError::MissingRefreshToken => "could not get refresh token"@,
        TokenError::EmptyRefreshToken => "refresh token was empty"@,
    }
}

impl TokenError {
    /// The words that describe the error.
    pub fn message(&self) -> (r: &'static str)
        ensures
            r@ == token_error_text(*self),
    {
        match self {
            TokenError::MissingRefreshToken => "could not get refresh token",
            TokenError::EmptyRefreshToken => "refresh token was empty",
        }
    }
}

/// The refresh token that a new token brings, to be stored: there must be
/// one, and it must not be empty.
pub fn check_refresh_token(refresh_token: Option<String>) -> (r: Result<String, TokenError>)
    ensures
        match refresh_token {
            None => r == Err::<String, TokenError>(TokenError::MissingRefreshToken),
            Some(t) => if t@.len() == 0 {
                r == Err::<String, TokenError>(TokenError::EmptyRefreshToken)
            } else {
                r matches Ok(v) && v@ == t@
            },
        },
{
    match refresh_token {
        None => Err(TokenError::MissingRefreshToken),
        Some(t) => {
            if t.unicode_len() == 0 {
                Err(TokenError::EmptyRefreshToken)
            } else {
                Ok(t)
            }
        },
    }
}

/// A comment is added at the end of the reply to a new log, after `\n> `,
/// whether or not the log reached the spreadsheet; and the spreadsheet
/// note comes right after the final period of the reply without them.
pub proof fn lemma_vn_text_tail(
    id: Seq<char>,
    backlog: Option<i64>,
    chars: u32,
    time: Option<i64>,
    name: Option<VnName>,
    logged_to_sheet: bool,
    comment: String,
)
    ensures
        vn_text(id, backlog, chars, time, name, logged_to_sheet, Some(comment)) == vn_text(
            id,
            backlog,
            chars,
            time,
            name,
            logged_to_sheet,
            None,
        ) + "\n> "@ + comment@,
        vn_text(id, backlog, chars, time, name, true, None) == vn_text(
            id,
            backlog,
            chars,
            time,
            name,
            false,
            None,
        ) + " *sheets OK*"@,
        vn_text(id, backlog, chars, time, name, false, None).last() == '.',
{
    reveal_strlit(".");
    let base = "<@"@ + id + ">"@ + logged_when_text(backlog) + " **"@ + decimal(chars as nat)
        + "** chars"@ + logged_time_text(time) + logged_name_text(name) + "."@;
    assert(vn_text(id, backlog, chars, time, name, false, None) =~= base);
    assert(vn_text(id, backlog, chars, time, name, true, None) =~= base + " *sheets OK*"@);
    if logged_to_sheet {
        assert(vn_text(id, backlog, chars, time, name, true, Some(comment)) =~= base
            + " *sheets OK*"@ + "\n> "@ + comment@);
    } else {
        assert(vn_text(id, backlog, chars, time, name, false, Some(comment)) =~= base + "\n> "@
            + comment@);
    }
}

/// Ranks from 4 on are written as their decimal number followed by `th`,
/// and the number reads back as the rank.
pub proof fn lemma_ordinal_th(i: u64)
    requires
        i >= 4,
    ensures
        ordinal_text(i as nat).len() >= 2,
        ordinal_text(i as nat).skip(ordinal_text(i as nat).len() - 2) == seq!['t', 'h'],
        parse_u64_spec(ordinal_text(i as nat).take(ordinal_text(i as nat).len() - 2)) == Some(i),
{
    reveal_strlit("th");
    lemma_parse_decimal(i);
    let t = ordinal_text(i as nat);
    assert(t =~= decimal(i as nat) + seq!['t', 'h']);
    assert(t.skip(t.len() - 2) =~= seq!['t', 'h']);
    assert(t.take(t.len() - 2) =~= decimal(i as nat));
}

/// A name that is no vndb id is shown as it is; a vndb id whose title is
/// known is shown as a link that starts with the title in brackets and
/// ends with the id; without a title the id is shown as it is.
pub proof fn lemma_vn_display(s: Seq<char>, title: Option<String>)
    ensures
        !is_vndb_id(s) ==> vn_display_text(s, title) == s,
        is_vndb_id(s) && title is None ==> vn_display_text(s, title) == s,
        is_vndb_id(s) && title is Some ==> {
            let t = vn_display_text(s, title);
            let head = seq!['['] + title.unwrap()@;
            let tail = s + seq![')'];
            &&& t.len() >= head.len() + tail.len()
            &&& t.take(head.len() as int) == head
            &&& t.skip(t.len() - tail.len()) == tail
        },
{
    reveal_strlit("[");
    reveal_strlit(")");
    if is_vndb_id(s) && title is Some {
        let t = vn_display_text(s, title);
        let head = seq!['['] + title.unwrap()@;
        let tail = s + seq![')'];
        let mid = "](https://vndb.org/"@;
        assert(t =~= head + mid + tail);
        assert(t.take(head.len() as int) =~= head);
        assert(t.skip(t.len() - tail.len()) =~= tail);
    }
}

} // verus!
