//! Discord markup turned into plain text.
//!
//! A message may hold tags such as `<@80351110224678912>` or `<t:1618953630:D>`. A tag that only
//! names a user, a role, a channel or an emoji by id is replaced by the name, which has to be
//! looked up. The parser runs up to the next lookup, hands it out, and goes on with the answer.

use crate::calendar;
use crate::calendar::{moment, whole_months, Moment};
use crate::outside;
use crate::outside::{format_utc, MAX_TIMESTAMP, MIN_TIMESTAMP};
use crate::text;
use crate::text::{chars_of, parse_number, push_integer, push_range};
use vstd::prelude::*;

verus! {

/// Something about the guild that a tag refers to by id.
#[derive(Clone, Copy, PartialEq, Eq, Debug)]
pub enum Lookup {
    /// The roles of the guild.
    Roles { guild: u64 },
    /// A user as a member of the guild.
    Member { guild: u64, user: u64 },
    User { user: u64 },
    Channel { channel: u64 },
    Emoji { guild: u64, emoji: u64 },
}

#[derive(PartialEq, Eq, Debug)]
pub struct Role {
    pub id: u64,
    pub name: String,
}

/// The kinds of channel that are told apart when one is mentioned.
#[derive(PartialEq, Eq, Debug)]
pub enum ChannelName {
    Guild(String),
    Private,
    Category(String),
    Other,
}

/// What a lookup brought. An answer of another kind than the lookup counts as a failed one.
#[derive(PartialEq, Eq, Debug)]
pub enum Answer {
    Failed,
    Roles(Vec<Role>),
    /// The member's nickname, if the member has one.
    Member(Option<String>),
    /// The user's name.
    User(String),
    Channel(ChannelName),
    /// The emoji's name.
    Emoji(String),
}

/// Why a content could not be read.
#[derive(Clone, Copy, PartialEq, Eq, Debug)]
pub enum ContentError {
    UnexpectedEnd,
    /// The text ended inside an animated emoji.
    UnexpectedEndOfEmoji,
    /// The text ended inside a time.
    UnexpectedEndOfTime,
    /// A character that is no digit, in the id of a mention or of an animated emoji.
    InvalidIdChar(char),
    /// A character that is no digit, in the id of a channel or of an emoji.
    InvalidReferenceChar(char),
    MissingColon,
    TimeNotNumber,
    InvalidTag,
}

/// The text of an error.
pub open spec fn error_text(error: ContentError) -> Seq<char> {
    match error {
        ContentError::UnexpectedEnd => "Unexpected end of string."@,
        ContentError::UnexpectedEndOfEmoji => "Unexpected endof stream."@,
        ContentError::UnexpectedEndOfTime => "Unexpected endof string."@,
        ContentError::InvalidIdChar(c) => "Invalid character in id: "@.push(c),
        ContentError::InvalidReferenceChar(c) => "Invalid character inid: "@.push(c),
        ContentError::MissingColon => "Time missing opening ':'"@,
        ContentError::TimeNotNumber => "Time is not a number"@,
        ContentError::InvalidTag => "Invalid markup tag"@,
    }
}

impl ContentError {
    pub fn message(&self) -> (message: String)
        ensures
            message@ == error_text(*self),
    {
        match *self {
            ContentError::UnexpectedEnd => "Unexpected end of string.".to_string(),
            ContentError::UnexpectedEndOfEmoji => "Unexpected endof stream.".to_string(),
            ContentError::UnexpectedEndOfTime => "Unexpected endof string.".to_string(),
            ContentError::InvalidIdChar(c) => {
                let mut m = "Invalid character in id: ".to_string();
                m.push(c);
                m
            },
            ContentError::InvalidReferenceChar(c) => {
                let mut m = "Invalid character inid: ".to_string();
                m.push(c);
                m
            },
            ContentError::MissingColon => "Time missing opening ':'".to_string(),
            ContentError::TimeNotNumber => "Time is not a number".to_string(),
            ContentError::InvalidTag => "Invalid markup tag".to_string(),
        }
    }
}

/// One piece of a content.
pub enum Tag {
    Char(char),
    /// An opening bracket at the very end, which is dropped.
    Dropped,
    /// `<@` at the very end.
    LoneAt,
    User(Option<u64>),
    Nick(Option<u64>),
    Role(Option<u64>),
    Channel(Option<u64>),
    Emoji(Seq<char>, Option<u64>),
    /// The seconds since 1970, and the style.
    Time(int, Seq<char>),
}

/// Where the digits that start at `p` end.
pub open spec fn digits_end(s: Seq<char>, p: int) -> int
    decreases s.len() - p,
{
    if 0 <= p < s.len() && text::is_digit(s[p]) {
        digits_end(s, p + 1)
    } else {
        p
    }
}

/// Where the first `c` from `p` on stands, or the end of the text.
pub open spec fn find(s: Seq<char>, p: int, c: char) -> int
    decreases s.len() - p,
{
    if 0 <= p < s.len() && s[p] != c {
        find(s, p + 1, c)
    } else {
        p
    }
}

/// What follows the digits at `p`: a closing bracket, at the position given; the end of the
/// text; or some other character.
pub open spec fn closing_bracket(s: Seq<char>, p: int) -> Result<int, Option<char>> {
    let e = digits_end(s, p);
    if e >= s.len() {
        Err(None)
    } else if s[e] == '>' {
        Ok(e)
    } else {
        Err(Some(s[e]))
    }
}

/// A mention, from behind its `<@`. The first character is part of the id, whatever it is,
/// unless it marks a nickname or a role.
pub open spec fn mention_at(s: Seq<char>, p: int) -> Result<(Tag, int), ContentError> {
    if p >= s.len() {
        Ok((Tag::LoneAt, p))
    } else {
        match closing_bracket(s, p + 1) {
            Err(None) => Err(ContentError::UnexpectedEnd),
            Err(Some(c)) => Err(ContentError::InvalidIdChar(c)),
            Ok(e) => Ok(
                (
                    if s[p] == '!' {
                        Tag::Nick(text::id_of(s.subrange(p + 1, e)))
                    } else if s[p] == '&' {
                        Tag::Role(text::id_of(s.subrange(p + 1, e)))
                    } else {
                        Tag::User(text::id_of(s.subrange(p, e)))
                    },
                    e + 1,
                ),
            ),
        }
    }
}

/// A channel, from behind its `<#`.
pub open spec fn channel_at(s: Seq<char>, p: int) -> Result<(Tag, int), ContentError> {
    match closing_bracket(s, p) {
        Err(None) => Err(ContentError::UnexpectedEnd),
        Err(Some(c)) => Err(ContentError::InvalidReferenceChar(c)),
        Ok(e) => Ok((Tag::Channel(text::id_of(s.subrange(p, e))), e + 1)),
    }
}

/// An emoji, from behind its `<:` or `<a:`.
pub open spec fn emoji_at(s: Seq<char>, p: int, animated: bool) -> Result<
    (Tag, int),
    ContentError,
> {
    let end = if animated {
        ContentError::UnexpectedEndOfEmoji
    } else {
        ContentError::UnexpectedEnd
    };
    let q = find(s, p, ':');
    if q >= s.len() {
        Err(end)
    } else {
        match closing_bracket(s, q + 1) {
            Err(None) => Err(end),
            Err(Some(c)) => Err(
                if animated {
                    ContentError::InvalidIdChar(c)
                } else {
                    ContentError::InvalidReferenceChar(c)
                },
            ),
            Ok(e) => Ok(
                (Tag::Emoji(s.subrange(p, q), text::id_of(s.subrange(q + 1, e))), e + 1),
            ),
        }
    }
}

/// The number that the digits of a time spell, or zero where it is too large or missing.
pub open spec fn seconds(s: Seq<char>) -> int {
    match text::number(s, i64::MAX as nat) {
        Some(n) => n as int,
        None => 0,
    }
}

/// A time, from behind its `<t:`. A style may run up to the end of the text.
pub open spec fn time_at(s: Seq<char>, p: int) -> Result<(Tag, int), ContentError> {
    let e = digits_end(s, p);
    if e >= s.len() {
        Err(ContentError::UnexpectedEndOfTime)
    } else if s[e] == '>' {
        Ok((Tag::Time(seconds(s.subrange(p, e)), Seq::empty()), e + 1))
    } else if s[e] == ':' {
        let q = find(s, e + 1, '>');
        Ok(
            (
                Tag::Time(seconds(s.subrange(p, e)), s.subrange(e + 1, q)),
                if q < s.len() {
                    q + 1
                } else {
                    q
                },
            ),
        )
    } else {
        Err(ContentError::TimeNotNumber)
    }
}

/// The piece of a content that starts at `p`, and where the next one starts.
pub open spec fn tag_at(s: Seq<char>, p: int) -> Result<(Tag, int), ContentError> {
    if s[p] != '<' {
        Ok((Tag::Char(s[p]), p + 1))
    } else if p + 1 >= s.len() {
        Ok((Tag::Dropped, p + 1))
    } else if s[p + 1] == '@' {
        mention_at(s, p + 2)
    } else if s[p + 1] == '#' {
        channel_at(s, p + 2)
    } else if s[p + 1] == ':' {
        emoji_at(s, p + 2, false)
    } else if s[p + 1] == 'a' || s[p + 1] == 't' {
        if p + 2 >= s.len() {
            Err(ContentError::UnexpectedEnd)
        } else if s[p + 2] != ':' {
            Err(ContentError::MissingColon)
        } else if s[p + 1] == 'a' {
            emoji_at(s, p + 3, true)
        } else {
            time_at(s, p + 3)
        }
    } else {
        Err(ContentError::InvalidTag)
    }
}

/// The format in which a style of Discord's prints a time. A style that is not known, or none,
/// prints the date and the time of day.
pub open spec fn style_format(style: Seq<char>) -> Seq<char> {
    if style == "t"@ {
        "%H:%M"@
    } else if style == "T"@ {
        "%H:%M:%S"@
    } else if style == "d"@ {
        "%d/%m/%Y"@
    } else if style == "D"@ {
        "%d %B %Y"@
    } else if style == "F"@ {
        "%A, %d %B %Y %H:%M"@
    } else {
        "%d %B %Y %H:%M"@
    }
}

/// How long ago a time was, in whole months. A time that is less than a month ago, or yet to
/// come, was no months ago. The wording is the same for every number.
pub open spec fn ago_text(months: int) -> Seq<char> {
    text::integer_text(months) + " months ago"@
}

/// A time as a style of Discord's prints it, where the clock reads `now`. The style `R` tells how
/// long ago it was, and the others tell when.
pub open spec fn time_text(secs: int, style: Seq<char>, now: int) -> Seq<char> {
    if style == "R"@ {
        ago_text(calendar::months_passed(calendar::moment_of(secs), calendar::moment_of(now)))
    } else {
        outside::utc_text(secs, style_format(style))
    }
}

/// What a parser waits for: the name of a role, a nickname, the name of a user or a channel,
/// or the name of an emoji that the tag calls by the name given.
pub enum Waiting {
    Role(u64),
    Nick(u64),
    User(u64),
    Channel(u64),
    Emoji(Seq<char>),
}

/// What comes of a tag, or of an answer: some text, or a question, before which the text given
/// is put out.
pub enum Outcome {
    Text(Seq<char>),
    Ask(Seq<char>, Lookup, Waiting),
}

pub open spec fn opened(guild: u64, now: i64, tag: Tag) -> Outcome {
    match tag {
        Tag::Char(c) => Outcome::Text(seq![c]),
        Tag::Dropped => Outcome::Text(Seq::empty()),
        Tag::LoneAt => Outcome::Text("@"@),
        Tag::User(Some(id)) => Outcome::Ask("@"@, Lookup::User { user: id }, Waiting::User(id)),
        Tag::Nick(Some(id)) => Outcome::Ask(
            "@"@,
            Lookup::Member { guild, user: id },
            Waiting::Nick(id),
        ),
        Tag::Role(Some(id)) => Outcome::Ask("@"@, Lookup::Roles { guild }, Waiting::Role(id)),
        Tag::Channel(Some(id)) => Outcome::Ask(
            "#"@,
            Lookup::Channel { channel: id },
            Waiting::Channel(id),
        ),
        Tag::Emoji(name, Some(id)) => Outcome::Ask(
            ":"@,
            Lookup::Emoji { guild, emoji: id },
            Waiting::Emoji(name),
        ),
        Tag::User(None) => Outcome::Text("@Unknown"@),
        Tag::Nick(None) => Outcome::Text("@Unknown"@),
        Tag::Role(None) => Outcome::Text("@Unknown"@),
        Tag::Channel(None) => Outcome::Text("#Unknown"@),
        Tag::Emoji(name, None) => Outcome::Text(":"@ + name + ":"@),
        Tag::Time(secs, style) => Outcome::Text(time_text(secs, style, now as int)),
    }
}

/// The name of the first role with the id given.
pub open spec fn role_name(roles: Seq<Role>, id: u64) -> Seq<char>
    decreases roles.len(),
{
    if roles.len() == 0 {
        "Unknown"@
    } else if roles[0].id == id {
        roles[0].name@
    } else {
        role_name(roles.skip(1), id)
    }
}

pub open spec fn answered(waiting: Waiting, answer: Answer) -> Outcome {
    match waiting {
        Waiting::Role(id) => Outcome::Text(
            match answer {
                Answer::Roles(roles) => role_name(roles@, id),
                _ => "Unknown"@,
            },
        ),
        Waiting::Nick(id) => match answer {
            Answer::Member(Some(nick)) => Outcome::Text(nick@),
            _ => Outcome::Ask(Seq::empty(), Lookup::User { user: id }, Waiting::User(id)),
        },
        Waiting::User(id) => Outcome::Text(
            match answer {
                Answer::User(name) => name@,
                _ => "Unknown"@,
            },
        ),
        Waiting::Channel(id) => Outcome::Text(
            match answer {
                Answer::Channel(ChannelName::Guild(name)) => name@,
                Answer::Channel(ChannelName::Private) => "Private"@,
                Answer::Channel(ChannelName::Category(name)) => name@,
                _ => "Unknown"@,
            },
        ),
        Waiting::Emoji(own) => Outcome::Text(
            match answer {
                Answer::Emoji(name) => name@ + ":"@,
                _ => own + ":"@,
            },
        ),
    }
}

/// A parser at rest: the guild, the clock, the content, the position it has reached, what it has put out,
/// and what it waits for.
pub struct ParserView {
    pub guild: u64,
    pub now: i64,
    pub content: Seq<char>,
    pub pos: int,
    pub out: Seq<char>,
    pub waiting: Waiting,
}

pub enum ParseStepView {
    Finished(Result<Seq<char>, ContentError>),
    Asking(Lookup, ParserView),
}

/// Scanning for the end of the digits moves forward and stays in the text.
proof fn lemma_digits_end(s: Seq<char>, p: int)
    requires
        0 <= p <= s.len(),
    ensures
        p <= digits_end(s, p) <= s.len(),
        text::all_digits(s.subrange(p, digits_end(s, p))),
    decreases s.len() - p,
{
    if p < s.len() && text::is_digit(s[p]) {
        lemma_digits_end(s, p + 1);
        let e = digits_end(s, p);
        assert forall|i: int| 0 <= i < e - p implies text::is_digit(
            #[trigger] s.subrange(p, e)[i],
        ) by {
            if i > 0 {
                assert(text::is_digit(s.subrange(p + 1, e)[i - 1]));
            }
        }
    }
}

/// Scanning for a character moves forward and stays in the text.
proof fn lemma_find(s: Seq<char>, p: int, c: char)
    requires
        0 <= p <= s.len(),
    ensures
        p <= find(s, p, c) <= s.len(),
    decreases s.len() - p,
{
    if p < s.len() && s[p] != c {
        lemma_find(s, p + 1, c);
    }
}

/// Every piece ends behind its start.
pub proof fn lemma_tag_progress(s: Seq<char>, p: int)
    requires
        0 <= p < s.len(),
    ensures
        tag_at(s, p) matches Ok((_, n)) ==> p < n <= s.len(),
{
    if p + 2 <= s.len() {
        lemma_digits_end(s, p + 2);
        lemma_find(s, p + 2, ':');
        if find(s, p + 2, ':') < s.len() {
            lemma_digits_end(s, find(s, p + 2, ':') + 1);
        }
    }
    if p + 3 <= s.len() {
        lemma_digits_end(s, p + 3);
        lemma_find(s, p + 3, ':');
        if find(s, p + 3, ':') < s.len() {
            lemma_digits_end(s, find(s, p + 3, ':') + 1);
        }
        if digits_end(s, p + 3) < s.len() {
            lemma_find(s, digits_end(s, p + 3) + 1, '>');
        }
    }
}

/// The parse from `p` on, with `out` already put out, up to the next lookup.
pub open spec fn parsed(guild: u64, now: i64, s: Seq<char>, p: int, out: Seq<char>) -> ParseStepView
    decreases s.len() - p,
{
    if p < 0 || p >= s.len() {
        ParseStepView::Finished(Ok(out))
    } else {
        match tag_at(s, p) {
            Err(e) => ParseStepView::Finished(Err(e)),
            Ok((tag, n)) => match opened(guild, now, tag) {
                Outcome::Text(t) => {
                    proof {
                        lemma_tag_progress(s, p);
                    }
                    parsed(guild, now, s, n, out + t)
                },
                Outcome::Ask(t, lookup, waiting) => ParseStepView::Asking(
                    lookup,
                    ParserView { guild, now, content: s, pos: n, out: out + t, waiting },
                ),
            },
        }
    }
}

/// The parse goes on with an answer.
pub open spec fn resumed(parser: ParserView, answer: Answer) -> ParseStepView {
    match answered(parser.waiting, answer) {
        Outcome::Text(t) => parsed(parser.guild, parser.now, parser.content, parser.pos, parser.out + t),
        Outcome::Ask(t, lookup, waiting) => ParseStepView::Asking(
            lookup,
            ParserView { out: parser.out + t, waiting, ..parser },
        ),
    }
}

/// A parse that asks has moved past its start.
pub proof fn lemma_parsed_progress(guild: u64, now: i64, s: Seq<char>, p: int, out: Seq<char>)
    requires
        0 <= p,
    ensures
        parsed(guild, now, s, p, out) matches ParseStepView::Asking(_, parser) ==> {
            &&& parser.guild == guild
            &&& parser.now == now
            &&& parser.content == s
            &&& p < parser.pos <= s.len()
        },
    decreases s.len() - p,
{
    if p < s.len() {
        lemma_tag_progress(s, p);
        if let Ok((tag, n)) = tag_at(s, p) {
            if let Outcome::Text(t) = opened(guild, now, tag) {
                lemma_parsed_progress(guild, now, s, n, out + t);
            }
        }
    }
}

impl ParseStepView {
    /// A bound on the lookups that are still to come.
    pub open spec fn lookups_left(self) -> nat {
        match self {
            ParseStepView::Finished(_) => 0,
            ParseStepView::Asking(_, parser) => parser.lookups_left(),
        }
    }
}

impl ParserView {
    pub open spec fn lookups_left(self) -> nat {
        let own: nat = if self.waiting is Nick {
            2
        } else {
            1
        };
        if self.pos < self.content.len() {
            (2 * (self.content.len() - self.pos) + own) as nat
        } else {
            own
        }
    }
}

/// Every answer brings a parse nearer to its end.
pub proof fn lemma_resumed_progress(parser: ParserView, answer: Answer)
    ensures
        resumed(parser, answer).lookups_left() < parser.lookups_left(),
{
    if let Outcome::Text(t) = answered(parser.waiting, answer) {
        if 0 <= parser.pos {
            lemma_parsed_progress(parser.guild, parser.now, parser.content, parser.pos, parser.out + t);
        }
    }
}

/// The times that the parse from `p` on comes to are all in the calendar.
pub open spec fn times_fit(s: Seq<char>, p: int) -> bool
    decreases s.len() - p,
{
    if p < 0 || p >= s.len() {
        true
    } else {
        match tag_at(s, p) {
            Err(_) => true,
            Ok((tag, n)) => {
                proof {
                    lemma_tag_progress(s, p);
                }
                (tag matches Tag::Time(secs, _) ==> secs <= MAX_TIMESTAMP) && times_fit(s, n)
            },
        }
    }
}

fn scan_digits(chars: &Vec<char>, p: usize) -> (e: usize)
    requires
        p <= chars@.len(),
    ensures
        e == digits_end(chars@, p as int),
        p <= e <= chars@.len(),
{
    let mut e: usize = p;
    while e < chars.len() && chars[e] >= '0' && chars[e] <= '9'
        invariant
            p <= e <= chars@.len(),
            digits_end(chars@, p as int) == digits_end(chars@, e as int),
        decreases chars@.len() - e,
    {
        e = e + 1;
    }
    e
}

fn scan_for(chars: &Vec<char>, p: usize, c: char) -> (q: usize)
    requires
        p <= chars@.len(),
    ensures
        q == find(chars@, p as int, c),
        p <= q <= chars@.len(),
{
    let mut q: usize = p;
    while q < chars.len() && chars[q] != c
        invariant
            p <= q <= chars@.len(),
            find(chars@, p as int, c) == find(chars@, q as int, c),
        decreases chars@.len() - q,
    {
        q = q + 1;
    }
    q
}

fn scan_bracket(chars: &Vec<char>, p: usize) -> (r: Result<usize, Option<char>>)
    requires
        p <= chars@.len(),
    ensures
        match r {
            Ok(e) => closing_bracket(chars@, p as int) == Ok::<int, Option<char>>(e as int) && p
                <= e < chars@.len(),
            Err(c) => closing_bracket(chars@, p as int) == Err::<int, Option<char>>(c),
        },
{
    let e = scan_digits(chars, p);
    if e >= chars.len() {
        Err(None)
    } else if chars[e] == '>' {
        Ok(e)
    } else {
        Err(Some(chars[e]))
    }
}

/// A piece of a content, with its texts given by their positions.
enum Piece {
    Char(char),
    Dropped,
    LoneAt,
    User(Option<u64>),
    Nick(Option<u64>),
    Role(Option<u64>),
    Channel(Option<u64>),
    Emoji(usize, usize, Option<u64>),
    Time(i64, usize, usize),
}

impl Piece {
    spec fn within(self, s: Seq<char>) -> bool {
        match self {
            Piece::Emoji(from, to, _) => from <= to <= s.len(),
            Piece::Time(secs, from, to) => secs >= 0 && from <= to <= s.len(),
            _ => true,
        }
    }

    spec fn tag(self, s: Seq<char>) -> Tag {
        match self {
            Piece::Char(c) => Tag::Char(c),
            Piece::Dropped => Tag::Dropped,
            Piece::LoneAt => Tag::LoneAt,
            Piece::User(id) => Tag::User(id),
            Piece::Nick(id) => Tag::Nick(id),
            Piece::Role(id) => Tag::Role(id),
            Piece::Channel(id) => Tag::Channel(id),
            Piece::Emoji(from, to, id) => Tag::Emoji(s.subrange(from as int, to as int), id),
            Piece::Time(secs, from, to) => Tag::Time(
                secs as int,
                s.subrange(from as int, to as int),
            ),
        }
    }
}

/// Whether a scan found the piece that the content holds.
spec fn scanned(
    r: Result<(Piece, usize), ContentError>,
    s: Seq<char>,
    want: Result<(Tag, int), ContentError>,
) -> bool {
    match r {
        Ok((piece, n)) => piece.within(s) && want == Ok::<(Tag, int), ContentError>(
            (piece.tag(s), n as int),
        ),
        Err(e) => want == Err::<(Tag, int), ContentError>(e),
    }
}

fn scan_mention(chars: &Vec<char>, p: usize) -> (r: Result<(Piece, usize), ContentError>)
    requires
        p <= chars@.len(),
    ensures
        scanned(r, chars@, mention_at(chars@, p as int)),
{
    if p >= chars.len() {
        return Ok((Piece::LoneAt, p));
    }
    match scan_bracket(chars, p + 1) {
        Err(None) => Err(ContentError::UnexpectedEnd),
        Err(Some(c)) => Err(ContentError::InvalidIdChar(c)),
        Ok(e) => {
            let piece = if chars[p] == '!' {
                Piece::Nick(parse_number(chars, p + 1, e, u64::MAX))
            } else if chars[p] == '&' {
                Piece::Role(parse_number(chars, p + 1, e, u64::MAX))
            } else {
                Piece::User(parse_number(chars, p, e, u64::MAX))
            };
            Ok((piece, e + 1))
        },
    }
}

fn scan_channel(chars: &Vec<char>, p: usize) -> (r: Result<(Piece, usize), ContentError>)
    requires
        p <= chars@.len(),
    ensures
        scanned(r, chars@, channel_at(chars@, p as int)),
{
    let len = chars.len();
    match scan_bracket(chars, p) {
        Err(None) => Err(ContentError::UnexpectedEnd),
        Err(Some(c)) => Err(ContentError::InvalidReferenceChar(c)),
        Ok(e) => {
            assert(e < len);
            Ok((Piece::Channel(parse_number(chars, p, e, u64::MAX)), e + 1))
        },
    }
}

fn scan_emoji(chars: &Vec<char>, p: usize, animated: bool) -> (r: Result<
    (Piece, usize),
    ContentError,
>)
    requires
        p <= chars@.len(),
    ensures
        scanned(r, chars@, emoji_at(chars@, p as int, animated)),
{
    let end = if animated {
        ContentError::UnexpectedEndOfEmoji
    } else {
        ContentError::UnexpectedEnd
    };
    let q = scan_for(chars, p, ':');
    if q >= chars.len() {
        return Err(end);
    }
    match scan_bracket(chars, q + 1) {
        Err(None) => Err(end),
        Err(Some(c)) => if animated {
            Err(ContentError::InvalidIdChar(c))
        } else {
            Err(ContentError::InvalidReferenceChar(c))
        },
        Ok(e) => Ok((Piece::Emoji(p, q, parse_number(chars, q + 1, e, u64::MAX)), e + 1)),
    }
}

fn scan_time(chars: &Vec<char>, p: usize) -> (r: Result<(Piece, usize), ContentError>)
    requires
        p <= chars@.len(),
    ensures
        scanned(r, chars@, time_at(chars@, p as int)),
{
    let e = scan_digits(chars, p);
    if e >= chars.len() {
        return Err(ContentError::UnexpectedEndOfTime);
    }
    let secs: i64 = match parse_number(chars, p, e, i64::MAX as u64) {
        Some(n) => n as i64,
        None => 0,
    };
    assert(secs == seconds(chars@.subrange(p as int, e as int)));
    if chars[e] == '>' {
        assert(chars@.subrange(e as int, e as int) =~= Seq::<char>::empty());
        Ok((Piece::Time(secs, e, e), e + 1))
    } else if chars[e] == ':' {
        let q = scan_for(chars, e + 1, '>');
        let next = if q < chars.len() {
            q + 1
        } else {
            q
        };
        Ok((Piece::Time(secs, e + 1, q), next))
    } else {
        Err(ContentError::TimeNotNumber)
    }
}

fn scan(chars: &Vec<char>, p: usize) -> (r: Result<(Piece, usize), ContentError>)
    requires
        p < chars@.len(),
    ensures
        scanned(r, chars@, tag_at(chars@, p as int)),
        r matches Ok((_, n)) ==> p < n <= chars@.len(),
{
    let len = chars.len();
    proof {
        lemma_tag_progress(chars@, p as int);
    }
    if chars[p] != '<' {
        return Ok((Piece::Char(chars[p]), p + 1));
    }
    if p + 1 >= len {
        return Ok((Piece::Dropped, p + 1));
    }
    let kind = chars[p + 1];
    if kind == '@' {
        scan_mention(chars, p + 2)
    } else if kind == '#' {
        scan_channel(chars, p + 2)
    } else if kind == ':' {
        scan_emoji(chars, p + 2, false)
    } else if kind == 'a' || kind == 't' {
        if p + 2 >= len {
            Err(ContentError::UnexpectedEnd)
        } else if chars[p + 2] != ':' {
            Err(ContentError::MissingColon)
        } else if kind == 'a' {
            scan_emoji(chars, p + 3, true)
        } else {
            scan_time(chars, p + 3)
        }
    } else {
        Err(ContentError::InvalidTag)
    }
}

/// The format of the style that stands from `from` to `to`.
fn format_of_style(chars: &Vec<char>, from: usize, to: usize) -> (format: &'static str)
    requires
        from <= to <= chars@.len(),
    ensures
        format@ == style_format(chars@.subrange(from as int, to as int)),
        outside::is_time_format(format@),
{
    let ghost style = chars@.subrange(from as int, to as int);
    proof {
        reveal_strlit("t");
        reveal_strlit("T");
        reveal_strlit("d");
        reveal_strlit("D");
        reveal_strlit("F");
        if style.len() == 1 {
            assert(style =~= seq![style[0]]);
        }
        assert("t"@ =~= seq!['t']);
        assert("T"@ =~= seq!['T']);
        assert("d"@ =~= seq!['d']);
        assert("D"@ =~= seq!['D']);
        assert("F"@ =~= seq!['F']);
    }
    if to - from != 1 {
        return "%d %B %Y %H:%M";
    }
    let c = chars[from];
    assert(style[0] == c);
    if c == 't' {
        "%H:%M"
    } else if c == 'T' {
        "%H:%M:%S"
    } else if c == 'd' {
        "%d/%m/%Y"
    } else if c == 'D' {
        "%d %B %Y"
    } else if c == 'F' {
        "%A, %d %B %Y %H:%M"
    } else {
        "%d %B %Y %H:%M"
    }
}

/// How long ago a time was.
pub fn print_ago(then: Moment, now: Moment) -> (printed: String)
    ensures
        printed@ == ago_text(calendar::months_passed(then, now)),
{
    let mut printed = String::new();
    push_integer(&mut printed, whole_months(then, now));
    printed.append(" months ago");
    assert(printed@ =~= ago_text(calendar::months_passed(then, now)));
    printed
}

/// A time in the style that stands from `from` to `to`.
fn print_time(chars: &Vec<char>, secs: i64, from: usize, to: usize, now: i64) -> (printed: String)
    requires
        0 <= secs <= MAX_TIMESTAMP,
        MIN_TIMESTAMP <= now <= MAX_TIMESTAMP,
        from <= to <= chars@.len(),
    ensures
        printed@ == time_text(
            secs as int,
            chars@.subrange(from as int, to as int),
            now as int,
        ),
{
    let ghost style = chars@.subrange(from as int, to as int);
    proof {
        reveal_strlit("R");
        if style.len() == 1 {
            assert(style =~= seq![style[0]]);
        }
        assert("R"@ =~= seq!['R']);
    }
    if to - from == 1 && chars[from] == 'R' {
        assert(style[0] == 'R');
        print_ago(moment(secs), moment(now))
    } else {
        assert(style != "R"@) by {
            if style.len() == 1 {
                assert(style[0] == chars@[from as int]);
            }
        }
        format_utc(secs, format_of_style(chars, from, to))
    }
}

/// Whether every time that the parse of a content comes to is in the calendar. One that is not
/// cannot be printed.
pub fn times_in_range(content: &str) -> (fit: bool)
    ensures
        fit == times_fit(content@, 0),
{
    let chars = chars_of(content);
    let mut p: usize = 0;
    while p < chars.len()
        invariant
            chars@ == content@,
            p <= chars@.len(),
            times_fit(chars@, 0) == times_fit(chars@, p as int),
        decreases chars@.len() - p,
    {
        match scan(&chars, p) {
            Err(_) => {
                return true;
            },
            Ok((piece, n)) => {
                if let Piece::Time(secs, _, _) = piece {
                    if secs > MAX_TIMESTAMP {
                        return false;
                    }
                }
                p = n;
            },
        }
    }
    true
}

enum Pending {
    Role(u64),
    Nick(u64),
    User(u64),
    Channel(u64),
    Emoji(String),
}

impl View for Pending {
    type V = Waiting;

    closed spec fn view(&self) -> Waiting {
        match self {
            Pending::Role(id) => Waiting::Role(*id),
            Pending::Nick(id) => Waiting::Nick(*id),
            Pending::User(id) => Waiting::User(*id),
            Pending::Channel(id) => Waiting::Channel(*id),
            Pending::Emoji(name) => Waiting::Emoji(name@),
        }
    }
}

/// A parse that waits for an answer.
pub struct ContentParser {
    guild: u64,
    now: i64,
    chars: Vec<char>,
    pos: usize,
    out: String,
    pending: Pending,
}

impl View for ContentParser {
    type V = ParserView;

    closed spec fn view(&self) -> ParserView {
        ParserView {
            guild: self.guild,
            now: self.now,
            content: self.chars@,
            pos: self.pos as int,
            out: self.out@,
            waiting: self.pending@,
        }
    }
}

/// How far a parse has come.
pub enum ParseStep {
    Finished(Result<String, ContentError>),
    Asking(Lookup, ContentParser),
}

impl View for ParseStep {
    type V = ParseStepView;

    open spec fn view(&self) -> ParseStepView {
        match self {
            ParseStep::Finished(Ok(t)) => ParseStepView::Finished(Ok(t@)),
            ParseStep::Finished(Err(e)) => ParseStepView::Finished(Err(*e)),
            ParseStep::Asking(lookup, parser) => ParseStepView::Asking(*lookup, parser@),
        }
    }
}

impl ParserView {
    /// The clock is in the calendar, the position in the content, and the times behind it can be
    /// printed.
    pub open spec fn well_formed(self) -> bool {
        &&& MIN_TIMESTAMP <= self.now <= MAX_TIMESTAMP
        &&& 0 <= self.pos <= self.content.len()
        &&& times_fit(self.content, self.pos)
    }
}

impl ParseStepView {
    pub open spec fn well_formed(self) -> bool {
        self matches ParseStepView::Asking(_, parser) ==> parser.well_formed()
    }
}

/// A parse keeps within the content, and the times behind it can be printed.
pub proof fn lemma_parsed_well_formed(guild: u64, now: i64, s: Seq<char>, p: int, out: Seq<char>)
    requires
        MIN_TIMESTAMP <= now <= MAX_TIMESTAMP,
        0 <= p <= s.len(),
        times_fit(s, p),
    ensures
        parsed(guild, now, s, p, out).well_formed(),
        parsed(guild, now, s, p, out) matches ParseStepView::Asking(_, parser) ==> {
            &&& parser.content == s
            &&& p < parser.pos
        },
    decreases s.len() - p,
{
    if p < s.len() {
        lemma_tag_progress(s, p);
        if let Ok((tag, n)) = tag_at(s, p) {
            if let Outcome::Text(t) = opened(guild, now, tag) {
                lemma_parsed_well_formed(guild, now, s, n, out + t);
            }
        }
    }
}

/// So does a parse that goes on.
pub proof fn lemma_resumed_well_formed(parser: ParserView, answer: Answer)
    requires
        parser.well_formed(),
    ensures
        resumed(parser, answer).well_formed(),
{
    if let Outcome::Text(t) = answered(parser.waiting, answer) {
        lemma_parsed_well_formed(parser.guild, parser.now, parser.content, parser.pos, parser.out + t);
    }
}

/// Runs the parse from `pos` on, behind what has been put out so far, up to the next lookup.
pub fn run(
    guild: u64,
    now: i64,
    chars: Vec<char>,
    pos: usize,
    begun: String,
) -> (step: ParseStep)
    requires
        MIN_TIMESTAMP <= now <= MAX_TIMESTAMP,
        pos <= chars@.len(),
        times_fit(chars@, pos as int),
    ensures
        step@ == parsed(guild, now, chars@, pos as int, begun@),
        step@.well_formed(),
{
    let mut p: usize = pos;
    let mut out: String = begun;
    while p < chars.len()
        invariant
            p <= chars@.len(),
            MIN_TIMESTAMP <= now <= MAX_TIMESTAMP,
            times_fit(chars@, p as int),
            parsed(guild, now, chars@, pos as int, begun@) == parsed(guild, now, chars@, p as int, out@),
        decreases chars@.len() - p,
    {
        let (piece, n) = match scan(&chars, p) {
            Err(e) => {
                return ParseStep::Finished(Err(e));
            },
            Ok(found) => found,
        };
        let ghost before = out@;
        match piece {
            Piece::Char(c) => {
                out.push(c);
                assert(out@ =~= before + seq![c]);
            },
            Piece::Dropped => {
                assert(out@ =~= before + Seq::<char>::empty());
            },
            Piece::LoneAt => {
                out.append("@");
            },
            Piece::User(Some(id)) => {
                out.append("@");
                return ParseStep::Asking(
                    Lookup::User { user: id },
                    ContentParser { guild, now, chars, pos: n, out, pending: Pending::User(id) },
                );
            },
            Piece::Nick(Some(id)) => {
                out.append("@");
                return ParseStep::Asking(
                    Lookup::Member { guild, user: id },
                    ContentParser { guild, now, chars, pos: n, out, pending: Pending::Nick(id) },
                );
            },
            Piece::Role(Some(id)) => {
                out.append("@");
                return ParseStep::Asking(
                    Lookup::Roles { guild },
                    ContentParser { guild, now, chars, pos: n, out, pending: Pending::Role(id) },
                );
            },
            Piece::Channel(Some(id)) => {
                out.append("#");
                return ParseStep::Asking(
                    Lookup::Channel { channel: id },
                    ContentParser { guild, now, chars, pos: n, out, pending: Pending::Channel(id) },
                );
            },
            Piece::Emoji(from, to, Some(id)) => {
                out.append(":");
                let mut name: String = String::new();
                push_range(&mut name, &chars, from, to);
                assert(name@ =~= chars@.subrange(from as int, to as int));
                return ParseStep::Asking(
                    Lookup::Emoji { guild, emoji: id },
                    ContentParser { guild, now, chars, pos: n, out, pending: Pending::Emoji(name) },
                );
            },
            Piece::User(None) => {
                out.append("@Unknown");
            },
            Piece::Nick(None) => {
                out.append("@Unknown");
            },
            Piece::Role(None) => {
                out.append("@Unknown");
            },
            Piece::Channel(None) => {
                out.append("#Unknown");
            },
            Piece::Emoji(from, to, None) => {
                out.append(":");
                push_range(&mut out, &chars, from, to);
                out.append(":");
                assert(out@ =~= before + (":"@ + chars@.subrange(from as int, to as int) + ":"@));
            },
            Piece::Time(secs, from, to) => {
                let printed = print_time(&chars, secs, from, to, now);
                out.append(printed.as_str());
            },
        }
        p = n;
    }
    ParseStep::Finished(Ok(out))
}

/// Starts the parse of a content of a guild.
pub fn start(guild: u64, now: i64, content: &str) -> (step: ParseStep)
    requires
        MIN_TIMESTAMP <= now <= MAX_TIMESTAMP,
        times_fit(content@, 0),
    ensures
        step@ == parsed(guild, now, content@, 0, Seq::empty()),
        step@.well_formed(),
{
    run(guild, now, chars_of(content), 0, String::new())
}

fn name_of_role(roles: &Vec<Role>, id: u64) -> (name: String)
    ensures
        name@ == role_name(roles@, id),
{
    let mut i: usize = 0;
    assert(roles@.skip(0) =~= roles@);
    while i < roles.len()
        invariant
            i <= roles@.len(),
            role_name(roles@, id) == role_name(roles@.skip(i as int), id),
        decreases roles@.len() - i,
    {
        if roles[i].id == id {
            return roles[i].name.clone();
        }
        assert(roles@.skip(i as int).skip(1) =~= roles@.skip(i + 1));
        i = i + 1;
    }
    "Unknown".to_string()
}

impl ContentParser {
    /// Goes on with the answer to the lookup that was handed out.
    pub fn resume(self, answer: Answer) -> (step: ParseStep)
        requires
            self@.well_formed(),
        ensures
            step@ == resumed(self@, answer),
            step@.well_formed(),
    {
        let mut out: String = self.out;
        match self.pending {
            Pending::Role(id) => match answer {
                Answer::Roles(roles) => {
                    let name = name_of_role(&roles, id);
                    out.append(name.as_str());
                },
                _ => {
                    out.append("Unknown");
                },
            },
            Pending::Nick(id) => match answer {
                Answer::Member(Some(nick)) => {
                    out.append(nick.as_str());
                },
                _ => {
                    assert(out@ + Seq::<char>::empty() =~= out@);
                    return ParseStep::Asking(
                        Lookup::User { user: id },
                        ContentParser {
                            guild: self.guild,
                            now: self.now,
                            chars: self.chars,
                            pos: self.pos,
                            out,
                            pending: Pending::User(id),
                        },
                    );
                },
            },
            Pending::User(_) => match answer {
                Answer::User(name) => {
                    out.append(name.as_str());
                },
                _ => {
                    out.append("Unknown");
                },
            },
            Pending::Channel(_) => match answer {
                Answer::Channel(ChannelName::Guild(name)) => {
                    out.append(name.as_str());
                },
                Answer::Channel(ChannelName::Private) => {
                    out.append("Private");
                },
                Answer::Channel(ChannelName::Category(name)) => {
                    out.append(name.as_str());
                },
                _ => {
                    out.append("Unknown");
                },
            },
            Pending::Emoji(own) => {
                match answer {
                    Answer::Emoji(name) => {
                        out.append(name.as_str());
                        out.append(":");
                        assert(out@ =~= self.out@ + (name@ + ":"@));
                    },
                    _ => {
                        out.append(own.as_str());
                        out.append(":");
                        assert(out@ =~= self.out@ + (own@ + ":"@));
                    },
                }
            },
        }
        run(self.guild, self.now, self.chars, self.pos, out)
    }
}

/// The text that comes of a tag where every lookup is answered by `answers`.
pub open spec fn settled(outcome: Outcome, answers: spec_fn(Lookup) -> Answer) -> Seq<char>
    decreases
            match outcome {
                Outcome::Text(_) => 0nat,
                Outcome::Ask(_, _, Waiting::Nick(_)) => 2,
                Outcome::Ask(_, _, _) => 1,
            },
{
    match outcome {
        Outcome::Text(t) => t,
        Outcome::Ask(t, lookup, waiting) => t + settled(
            answered(waiting, answers(lookup)),
            answers,
        ),
    }
}

/// The plain text of a content from `p` on: the texts of its pieces, one after the other.
pub open spec fn rendered(
    guild: u64,
    now: i64,
    s: Seq<char>,
    p: int,
    answers: spec_fn(Lookup) -> Answer,
) -> Result<Seq<char>, ContentError>
    decreases s.len() - p,
{
    if p < 0 || p >= s.len() {
        Ok(Seq::empty())
    } else {
        match tag_at(s, p) {
            Err(e) => Err(e),
            Ok((tag, n)) => {
                proof {
                    lemma_tag_progress(s, p);
                }
                match rendered(guild, now, s, n, answers) {
                    Err(e) => Err(e),
                    Ok(rest) => Ok(settled(opened(guild, now, tag), answers) + rest),
                }
            },
        }
    }
}

/// What a parse comes to where every lookup is answered by `answers`.
pub open spec fn driven(
    step: ParseStepView,
    answers: spec_fn(Lookup) -> Answer,
) -> Result<Seq<char>, ContentError>
    decreases step.lookups_left(),
{
    match step {
        ParseStepView::Finished(r) => r,
        ParseStepView::Asking(lookup, parser) => {
            proof {
                lemma_resumed_progress(parser, answers(lookup));
            }
            driven(resumed(parser, answers(lookup)), answers)
        },
    }
}

/// A text put in front of what was read.
pub open spec fn after(
    out: Seq<char>,
    rest: Result<Seq<char>, ContentError>,
) -> Result<Seq<char>, ContentError> {
    match rest {
        Ok(t) => Ok(out + t),
        Err(e) => Err(e),
    }
}

proof fn lemma_driven(
    guild: u64,
    now: i64,
    s: Seq<char>,
    p: int,
    out: Seq<char>,
    answers: spec_fn(Lookup) -> Answer,
)
    requires
        0 <= p,
    ensures
        driven(parsed(guild, now, s, p, out), answers) == after(out, rendered(guild, now, s, p, answers)),
    decreases s.len() - p, 0nat,
{
    if p >= s.len() {
        assert(out + Seq::<char>::empty() =~= out);
    } else {
        lemma_tag_progress(s, p);
        if let Ok((tag, n)) = tag_at(s, p) {
            let rest = rendered(guild, now, s, n, answers);
            match opened(guild, now, tag) {
                Outcome::Text(t) => {
                    lemma_driven(guild, now, s, n, out + t, answers);
                    if let Ok(r) = rest {
                        assert((out + t) + r =~= out + (t + r));
                    }
                },
                Outcome::Ask(t, lookup, waiting) => {
                    let parser = ParserView { guild, now, content: s, pos: n, out: out + t, waiting };
                    lemma_driven_on(parser, lookup, answers);
                    if let Ok(r) = rest {
                        let own = settled(answered(waiting, answers(lookup)), answers);
                        assert(((out + t) + own) + r =~= out + ((t + own) + r));
                    }
                },
            }
        }
    }
}

proof fn lemma_driven_on(parser: ParserView, lookup: Lookup, answers: spec_fn(Lookup) -> Answer)
    requires
        0 <= parser.pos,
    ensures
        driven(ParseStepView::Asking(lookup, parser), answers) == after(
            parser.out + settled(answered(parser.waiting, answers(lookup)), answers),
            rendered(parser.guild, parser.now, parser.content, parser.pos, answers),
        ),
    decreases parser.content.len() - parser.pos, parser.lookups_left(),
{
    match answered(parser.waiting, answers(lookup)) {
        Outcome::Text(t) => {
            lemma_driven(parser.guild, parser.now, parser.content, parser.pos, parser.out + t, answers);
        },
        Outcome::Ask(t, again, waiting) => {
            let next = ParserView { out: parser.out + t, waiting, ..parser };
            lemma_resumed_progress(parser, answers(lookup));
            lemma_driven_on(next, again, answers);
            let own = settled(answered(waiting, answers(again)), answers);
            assert((parser.out + t) + own =~= parser.out + (t + own));
        },
    }
}

/// A parse whose lookups are all answered comes to the texts of the content's pieces, one after
/// the other, or to the first piece that cannot be read.
pub proof fn law_parse_renders(
    guild: u64,
    now: i64,
    content: Seq<char>,
    answers: spec_fn(Lookup) -> Answer,
)
    ensures
        driven(parsed(guild, now, content, 0, Seq::empty()), answers) == rendered(
            guild,
            now,
            content,
            0,
            answers,
        ),
{
    lemma_driven(guild, now, content, 0, Seq::empty(), answers);
    if let Ok(t) = rendered(guild, now, content, 0, answers) {
        assert(Seq::<char>::empty() + t =~= t);
    }
}

/// Whether a content can be read, and what is wrong with it, does not depend on the answers.
pub proof fn law_errors_ignore_answers(
    guild: u64,
    now: i64,
    content: Seq<char>,
    p: int,
    these: spec_fn(Lookup) -> Answer,
    those: spec_fn(Lookup) -> Answer,
)
    ensures
        match rendered(guild, now, content, p, these) {
            Ok(_) => rendered(guild, now, content, p, those) is Ok,
            Err(e) => rendered(guild, now, content, p, those) == Err::<Seq<char>, ContentError>(e),
        },
    decreases content.len() - p,
{
    if 0 <= p < content.len() {
        lemma_tag_progress(content, p);
        if let Ok((_, n)) = tag_at(content, p) {
            law_errors_ignore_answers(guild, now, content, n, these, those);
        }
    }
}

proof fn lemma_plain(guild: u64, now: i64, s: Seq<char>, p: int)
    requires
        0 <= p <= s.len(),
        !s.contains('<'),
    ensures
        parsed(guild, now, s, p, s.take(p)) == ParseStepView::Finished(Ok(s)),
    decreases s.len() - p,
{
    if p == s.len() {
        assert(s.take(p) =~= s);
    } else {
        assert(s[p] != '<');
        assert(s.take(p) + seq![s[p]] =~= s.take(p + 1));
        lemma_plain(guild, now, s, p + 1);
    }
}

/// A content without an opening bracket is its own plain text, and needs no lookup.
pub proof fn law_plain_text_unchanged(guild: u64, now: i64, content: Seq<char>)
    requires
        !content.contains('<'),
    ensures
        parsed(guild, now, content, 0, Seq::empty()) == ParseStepView::Finished(Ok(content)),
{
    lemma_plain(guild, now, content, 0);
    assert(content.take(0) =~= Seq::<char>::empty());
}

/// Scanning depends on what follows alone.
proof fn lemma_scans_shifted(before: Seq<char>, s: Seq<char>, p: int, c: char)
    requires
        0 <= p <= s.len(),
    ensures
        digits_end(before + s, before.len() + p) == before.len() + digits_end(s, p),
        find(before + s, before.len() + p, c) == before.len() + find(s, p, c),
    decreases s.len() - p,
{
    if p < s.len() {
        assert((before + s)[before.len() + p] == s[p]);
        lemma_scans_shifted(before, s, p + 1, c);
    }
}

/// A piece, with what follows it further on.
spec fn further(piece: Result<(Tag, int), ContentError>, by: int) -> Result<
    (Tag, int),
    ContentError,
> {
    match piece {
        Ok((tag, n)) => Ok((tag, n + by)),
        Err(e) => Err(e),
    }
}

proof fn lemma_same_range(before: Seq<char>, s: Seq<char>, from: int, to: int)
    requires
        0 <= from <= to <= s.len(),
    ensures
        (before + s).subrange(before.len() + from, before.len() + to) == s.subrange(from, to),
{
    assert((before + s).subrange(before.len() + from, before.len() + to) =~= s.subrange(from, to));
}

proof fn lemma_emoji_shifted(before: Seq<char>, s: Seq<char>, p: int, animated: bool)
    requires
        0 <= p <= s.len(),
    ensures
        emoji_at(before + s, before.len() + p, animated) == further(
            emoji_at(s, p, animated),
            before.len() as int,
        ),
{
    let w = before + s;
    let k = before.len() as int;
    lemma_find(s, p, ':');
    lemma_scans_shifted(before, s, p, ':');
    let q = find(s, p, ':');
    lemma_same_range(before, s, p, q);
    if q < s.len() {
        lemma_scans_shifted(before, s, q + 1, ':');
        lemma_digits_end(s, q + 1);
        let e = digits_end(s, q + 1);
        lemma_same_range(before, s, q + 1, e);
        if e < s.len() {
            assert(w[k + e] == s[e]);
        }
    }
}

proof fn lemma_time_shifted(before: Seq<char>, s: Seq<char>, p: int)
    requires
        0 <= p <= s.len(),
    ensures
        time_at(before + s, before.len() + p) == further(time_at(s, p), before.len() as int),
{
    let w = before + s;
    let k = before.len() as int;
    lemma_digits_end(s, p);
    lemma_scans_shifted(before, s, p, '>');
    let e = digits_end(s, p);
    lemma_same_range(before, s, p, e);
    if e < s.len() {
        assert(w[k + e] == s[e]);
        lemma_find(s, e + 1, '>');
        lemma_scans_shifted(before, s, e + 1, '>');
        lemma_same_range(before, s, e + 1, find(s, e + 1, '>'));
    }
}

proof fn lemma_tag_shifted(before: Seq<char>, s: Seq<char>, p: int)
    requires
        0 <= p < s.len(),
    ensures
        tag_at(before + s, before.len() + p) == further(tag_at(s, p), before.len() as int),
{
    let w = before + s;
    let k = before.len() as int;
    assert(w[k + p] == s[p]);
    if s[p] == '<' && p + 1 < s.len() {
        assert(w[k + p + 1] == s[p + 1]);
        if p + 2 < s.len() {
            assert(w[k + p + 2] == s[p + 2]);
        }
        if s[p + 1] == '@' {
            if p + 2 < s.len() {
                lemma_digits_end(s, p + 3);
                lemma_scans_shifted(before, s, p + 3, '>');
                let e = digits_end(s, p + 3);
                lemma_same_range(before, s, p + 2, e);
                lemma_same_range(before, s, p + 3, e);
                if e < s.len() {
                    assert(w[k + e] == s[e]);
                }
            }
        } else if s[p + 1] == '#' {
            lemma_digits_end(s, p + 2);
            lemma_scans_shifted(before, s, p + 2, '>');
            let e = digits_end(s, p + 2);
            lemma_same_range(before, s, p + 2, e);
            if e < s.len() {
                assert(w[k + e] == s[e]);
            }
        } else if s[p + 1] == ':' {
            lemma_emoji_shifted(before, s, p + 2, false);
        } else if p + 2 < s.len() {
            lemma_emoji_shifted(before, s, p + 3, true);
            lemma_time_shifted(before, s, p + 3);
        }
    }
}

/// What a content comes to from a position on depends on what follows alone.
proof fn lemma_rendered_shifted(
    guild: u64,
    now: i64,
    before: Seq<char>,
    s: Seq<char>,
    p: int,
    answers: spec_fn(Lookup) -> Answer,
)
    requires
        0 <= p,
    ensures
        rendered(guild, now, before + s, before.len() + p, answers) == rendered(
            guild,
            now,
            s,
            p,
            answers,
        ),
    decreases s.len() - p,
{
    if p < s.len() {
        lemma_tag_shifted(before, s, p);
        lemma_tag_progress(s, p);
        if let Ok((_, n)) = tag_at(s, p) {
            lemma_rendered_shifted(guild, now, before, s, n, answers);
        }
    }
}

/// Scanning that ends within a text does not see what is put behind it.
proof fn lemma_scans_extended(s: Seq<char>, behind: Seq<char>, p: int, c: char)
    requires
        0 <= p <= s.len(),
    ensures
        digits_end(s, p) < s.len() ==> digits_end(s + behind, p) == digits_end(s, p),
        find(s, p, c) < s.len() ==> find(s + behind, p, c) == find(s, p, c),
    decreases s.len() - p,
{
    if p < s.len() {
        assert((s + behind)[p] == s[p]);
        lemma_scans_extended(s, behind, p + 1, c);
    }
}

/// Whether a piece of a content comes to its own end, and not to that of the content.
pub open spec fn is_closed(s: Seq<char>, tag: Tag, n: int) -> bool {
    match tag {
        Tag::Dropped => false,
        Tag::LoneAt => false,
        Tag::Time(_, _) => s[n - 1] == '>',
        _ => true,
    }
}

/// Whether each piece of a content from `p` on can be read and comes to its own end.
pub open spec fn is_complete(s: Seq<char>, p: int) -> bool
    decreases s.len() - p,
{
    if p < 0 || p >= s.len() {
        true
    } else {
        match tag_at(s, p) {
            Err(_) => false,
            Ok((tag, n)) => {
                proof {
                    lemma_tag_progress(s, p);
                }
                is_closed(s, tag, n) && is_complete(s, n)
            },
        }
    }
}

proof fn lemma_same_start(s: Seq<char>, behind: Seq<char>, from: int, to: int)
    requires
        0 <= from <= to <= s.len(),
    ensures
        (s + behind).subrange(from, to) == s.subrange(from, to),
{
    assert((s + behind).subrange(from, to) =~= s.subrange(from, to));
}

proof fn lemma_emoji_extended(s: Seq<char>, behind: Seq<char>, p: int, animated: bool)
    requires
        0 <= p <= s.len(),
        emoji_at(s, p, animated) is Ok,
    ensures
        emoji_at(s + behind, p, animated) == emoji_at(s, p, animated),
{
    lemma_find(s, p, ':');
    lemma_scans_extended(s, behind, p, ':');
    let q = find(s, p, ':');
    lemma_same_start(s, behind, p, q);
    lemma_scans_extended(s, behind, q + 1, ':');
    lemma_digits_end(s, q + 1);
    let e = digits_end(s, q + 1);
    lemma_same_start(s, behind, q + 1, e);
    assert((s + behind)[e] == s[e]);
}

proof fn lemma_time_extended(s: Seq<char>, behind: Seq<char>, p: int)
    requires
        0 < p <= s.len(),
        time_at(s, p) matches Ok((_, n)) && s[n - 1] == '>',
    ensures
        time_at(s + behind, p) == time_at(s, p),
{
    lemma_digits_end(s, p);
    lemma_scans_extended(s, behind, p, '>');
    let e = digits_end(s, p);
    lemma_same_start(s, behind, p, e);
    assert((s + behind)[e] == s[e]);
    if s[e] == ':' {
        lemma_find(s, e + 1, '>');
        lemma_found_last(s, e + 1, '>');
        lemma_scans_extended(s, behind, e + 1, '>');
        lemma_same_start(s, behind, e + 1, find(s, e + 1, '>'));
    }
}

/// A search that comes to the end of the text has not seen what it is for.
proof fn lemma_found_last(s: Seq<char>, p: int, c: char)
    requires
        0 <= p <= s.len(),
    ensures
        p < s.len() && s.last() == c ==> find(s, p, c) < s.len(),
    decreases s.len() - p,
{
    if p < s.len() {
        lemma_found_last(s, p + 1, c);
    }
}

proof fn lemma_tag_extended(s: Seq<char>, behind: Seq<char>, p: int)
    requires
        0 <= p < s.len(),
        tag_at(s, p) matches Ok((tag, n)) && is_closed(s, tag, n),
    ensures
        tag_at(s + behind, p) == tag_at(s, p),
{
    let w = s + behind;
    assert(w[p] == s[p]);
    if s[p] == '<' {
        assert(w[p + 1] == s[p + 1]);
        if s[p + 1] == '@' {
            assert(w[p + 2] == s[p + 2]);
            lemma_digits_end(s, p + 3);
            lemma_scans_extended(s, behind, p + 3, '>');
            let e = digits_end(s, p + 3);
            lemma_same_start(s, behind, p + 2, e);
            lemma_same_start(s, behind, p + 3, e);
            assert(w[e] == s[e]);
        } else if s[p + 1] == '#' {
            lemma_digits_end(s, p + 2);
            lemma_scans_extended(s, behind, p + 2, '>');
            let e = digits_end(s, p + 2);
            lemma_same_start(s, behind, p + 2, e);
            assert(w[e] == s[e]);
        } else if s[p + 1] == ':' {
            lemma_emoji_extended(s, behind, p + 2, false);
        } else {
            assert(w[p + 2] == s[p + 2]);
            if s[p + 1] == 'a' {
                lemma_emoji_extended(s, behind, p + 3, true);
            } else {
                lemma_time_extended(s, behind, p + 3);
            }
        }
    }
}

proof fn lemma_joined(
    guild: u64,
    now: i64,
    s: Seq<char>,
    behind: Seq<char>,
    p: int,
    answers: spec_fn(Lookup) -> Answer,
)
    requires
        0 <= p <= s.len(),
        is_complete(s, p),
    ensures
        rendered(guild, now, s, p, answers) matches Ok(t) && rendered(
            guild,
            now,
            s + behind,
            p,
            answers,
        ) == after(t, rendered(guild, now, behind, 0, answers)),
    decreases s.len() - p,
{
    if p == s.len() {
        lemma_rendered_shifted(guild, now, s, behind, 0, answers);
        if let Ok(rest) = rendered(guild, now, behind, 0, answers) {
            assert(Seq::<char>::empty() + rest =~= rest);
        }
    } else {
        lemma_tag_extended(s, behind, p);
        lemma_tag_progress(s, p);
        if let Ok((tag, n)) = tag_at(s, p) {
            lemma_joined(guild, now, s, behind, n, answers);
            let own = settled(opened(guild, now, tag), answers);
            let rest = rendered(guild, now, s, n, answers);
            if let (Ok(t), Ok(r)) = (rest, rendered(guild, now, behind, 0, answers)) {
                assert((own + t) + r =~= own + (t + r));
            }
        }
    }
}

/// Two texts that are joined read as the first followed by the second, where no tag of the first
/// is left open at its end.
pub proof fn law_texts_join(
    guild: u64,
    now: i64,
    first: Seq<char>,
    second: Seq<char>,
    answers: spec_fn(Lookup) -> Answer,
)
    requires
        is_complete(first, 0),
    ensures
        rendered(guild, now, first, 0, answers) matches Ok(t) && rendered(
            guild,
            now,
            first + second,
            0,
            answers,
        ) == after(t, rendered(guild, now, second, 0, answers)),
{
    lemma_joined(guild, now, first, second, 0, answers);
}

/// An animated emoji reads like a still one, and the text behind it too. Where one cannot be
/// read, neither can the other.
pub proof fn law_animated_emojis_read_like_still_ones(
    guild: u64,
    now: i64,
    rest: Seq<char>,
    answers: spec_fn(Lookup) -> Answer,
)
    ensures
        match rendered(guild, now, "<:"@ + rest, 0, answers) {
            Ok(t) => rendered(guild, now, "<a:"@ + rest, 0, answers) == Ok::<
                Seq<char>,
                ContentError,
            >(t),
            Err(_) => rendered(guild, now, "<a:"@ + rest, 0, answers) is Err,
        },
{
    reveal_strlit("<:");
    reveal_strlit("<a:");
    let still = "<:"@ + rest;
    let animated = "<a:"@ + rest;
    assert(still[0] == '<' && still[1] == ':');
    assert(animated[0] == '<' && animated[1] == 'a' && animated[2] == ':');
    lemma_emoji_shifted("<:"@, rest, 0, false);
    lemma_emoji_shifted("<a:"@, rest, 0, true);
    lemma_tag_progress(still, 0);
    if let Ok((_, n)) = emoji_at(rest, 0, false) {
        lemma_rendered_shifted(guild, now, "<:"@, rest, n, answers);
        lemma_rendered_shifted(guild, now, "<a:"@, rest, n, answers);
    }
}

} // verus!
