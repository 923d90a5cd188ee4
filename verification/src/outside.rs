//! What this crate takes from other crates, and from the parts of `std` that carry no
//! specification. Each contract here is taken on trust.

use crate::calendar;
use crate::calendar::Date;
use crate::text;
use vstd::prelude::*;

verus! {

/// The pattern of an action: an escaped asterisk, some text on one line, and a closing asterisk
/// that may be escaped too.
pub const ACTION_PATTERN: &'static str = "^\\\\\\*(.+)\\\\?\\*$";

/// The first and the last second, counted from 1970, that a `chrono` date can hold.
pub const MIN_TIMESTAMP: i64 = -8334601228800;

pub const MAX_TIMESTAMP: i64 = 8210266876799;

/// What `ACTION_PATTERN` captures in `text`. The text in the middle is matched greedily, so a
/// backslash in front of the closing asterisk belongs to it.
pub open spec fn action_body(text: Seq<char>) -> Option<Seq<char>> {
    if text.len() >= 4 && text[0] == '\\' && text[1] == '*' && text.last() == '*'
        && !text.subrange(2, text.len() - 1).contains('\n') {
        Some(text.subrange(2, text.len() - 1))
    } else {
        None
    }
}

/// The formats in which this crate prints a time.
pub open spec fn is_time_format(format: Seq<char>) -> bool {
    ||| format == "%H:%M"@
    ||| format == "%H:%M:%S"@
    ||| format == "%d/%m/%Y"@
    ||| format == "%d %B %Y"@
    ||| format == "%A, %d %B %Y %H:%M"@
    ||| format == "%d %B %Y %H:%M"@
    ||| format == "%B %e, %Y %l:%M %p"@
}

/// `String::push` of `std` appends one character.
pub assume_specification[ String::push ](s: &mut String, c: char)
    ensures
        final(s)@ == old(s)@.push(c),
;

/// `regex::Regex::new`, `Regex::captures` and `Captures::get`: the text of the first group where
/// the pattern matches, nothing where it does not. Only `ACTION_PATTERN` is ever asked for, and
/// the contract says what that pattern captures: `.` is every character but a line feed, `+` is
/// greedy, and `^` and `$` stand for the two ends of the text.
#[verifier::external_body]
pub(crate) fn first_group(pattern: &str, text: &str) -> (group: Option<String>)
    requires
        pattern@ == ACTION_PATTERN@,
    ensures
        text::opt_text(group) == action_body(text@),
{
    regex::Regex::new(pattern).unwrap().captures(text).and_then(|c| c.get(1)).map(
        |m| m.as_str().to_string(),
    )
}

/// A moment in UTC, in whole seconds since 1970, as `chrono` prints it in a format.
pub uninterp spec fn utc_text(secs: int, format: Seq<char>) -> Seq<char>;

/// `chrono::TimeZone::timestamp` on `Utc`, then `DateTime::format`: the printed moment, which
/// depends on the seconds and the format alone. Seconds outside the calendar's range and
/// malformed formats are left out: `chrono` panics on them.
#[allow(deprecated)]
#[verifier::external_body]
pub(crate) fn format_utc(secs: i64, format: &str) -> (text: String)
    requires
        MIN_TIMESTAMP <= secs <= MAX_TIMESTAMP,
        is_time_format(format@),
    ensures
        text@ == utc_text(secs as int, format@),
{
    chrono::TimeZone::timestamp(&chrono::Utc, secs, 0).format(format).to_string()
}

/// `chrono::TimeZone::timestamp` on `Utc`, with `Datelike::year`, `Datelike::month` and
/// `Datelike::day`: the date of a moment in UTC, in the Gregorian calendar as it is carried on in
/// both directions. Seconds outside the calendar's range are left out: `chrono` panics on them.
#[allow(deprecated)]
#[verifier::external_body]
pub(crate) fn utc_date(secs: i64) -> (date: Date)
    requires
        MIN_TIMESTAMP <= secs <= MAX_TIMESTAMP,
    ensures
        calendar::is_date_of(date, secs as int),
{
    let at = chrono::TimeZone::timestamp(&chrono::Utc, secs, 0);
    Date {
        year: chrono::Datelike::year(&at),
        month: chrono::Datelike::month(&at),
        day: chrono::Datelike::day(&at),
    }
}

/// The emoji that `emojis` has under a name: a Unicode value, one of its variations, or a
/// shortcode.
pub uninterp spec fn emoji_named(query: Seq<char>) -> Option<Seq<char>>;

/// `emojis::lookup` and `Emoji::as_str`: the emoji under a name, if the table has one. The table
/// is part of the crate, so the result depends on the name alone.
#[verifier::external_body]
pub(crate) fn lookup_emoji(query: &str) -> (found: Option<String>)
    ensures
        text::opt_text(found) == emoji_named(query@),
{
    emojis::lookup(query).map(|e| e.as_str().to_string())
}

/// `MessageBuilder::push_bold` of `serenity` appends a text between two pairs of asterisks.
#[verifier::external_body]
pub(crate) fn push_bold(content: String, text: &str) -> (built: String)
    ensures
        built@ == content@ + "**"@ + text@ + "**"@,
{
    serenity::utils::MessageBuilder(content).push_bold(text).build()
}

/// `MessageBuilder::push_italic` of `serenity` appends a text between two underscores.
#[verifier::external_body]
pub(crate) fn push_italic(content: String, text: &str) -> (built: String)
    ensures
        built@ == content@ + "_"@ + text@ + "_"@,
{
    serenity::utils::MessageBuilder(content).push_italic(text).build()
}

/// `MessageBuilder::push_line` of `serenity` appends a text and a line feed.
#[verifier::external_body]
pub(crate) fn push_line(content: String, text: &str) -> (built: String)
    ensures
        built@ == content@ + text@ + "\n"@,
{
    serenity::utils::MessageBuilder(content).push_line(text).build()
}

/// A text as `serenity` makes it safe to quote: without working invites, mentions of everyone,
/// or further quote marks.
pub uninterp spec fn quote_safe(text: Seq<char>) -> Seq<char>;

/// `MessageBuilder::push_quote_line_safe` of `serenity` appends a quote mark, the text made
/// safe, and a line feed. What is made safe depends on the text alone.
#[verifier::external_body]
pub(crate) fn push_quote_line_safe(content: String, text: &str) -> (built: String)
    ensures
        built@ == content@ + "> "@ + quote_safe(text@) + "\n"@,
{
    serenity::utils::MessageBuilder(content).push_quote_line_safe(text).build()
}

} // verus!
