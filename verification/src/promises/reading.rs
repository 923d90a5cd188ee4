//! What each piece of Discord's markup becomes.
//!
//! A content is read from left to right. Each law says what is put out for the piece that starts
//! at a position, what is asked for, and where the reading goes on.

use crate::calendar;
use crate::calendar::{Date, Moment};
use crate::content;
use crate::content::{Answer, ChannelName, ContentError, Lookup, ParseStepView, Role, Tag};
use crate::outside;
use crate::text;
use vstd::prelude::*;

verus! {

/// Whether the characters of a text between two positions are decimal digits.
pub open spec fn digits_between(s: Seq<char>, from: int, to: int) -> bool {
    forall|i: int| from <= i < to ==> '0' <= #[trigger] s[i] <= '9'
}

/// The number that a row of digits spells.
pub open spec fn spelled(digits: Seq<char>) -> nat
    decreases digits.len(),
{
    if digits.len() == 0 {
        0
    } else {
        10 * spelled(digits.drop_last()) + (digits.last() as nat - 48) as nat
    }
}

/// Whether a text is the decimal numeral of a number: its digits, without a zero in front.
pub open spec fn is_numeral(t: Seq<char>, n: int) -> bool {
    &&& t.len() > 0
    &&& digits_between(t, 0, t.len() as int)
    &&& spelled(t) == n
    &&& t[0] == '0' ==> t.len() == 1
}

proof fn lemma_spelled(digits: Seq<char>)
    ensures
        text::decimal(digits) == spelled(digits),
    decreases digits.len(),
{
    if digits.len() > 0 {
        lemma_spelled(digits.drop_last());
    }
}

proof fn lemma_digits_end(s: Seq<char>, p: int, e: int)
    requires
        0 <= p <= e <= s.len(),
        digits_between(s, p, e),
        e < s.len() ==> !('0' <= s[e] <= '9'),
    ensures
        content::digits_end(s, p) == e,
    decreases e - p,
{
    if p < e {
        assert('0' <= s[p] <= '9');
        lemma_digits_end(s, p + 1, e);
    }
}

proof fn lemma_find(s: Seq<char>, p: int, q: int, c: char)
    requires
        0 <= p <= q <= s.len(),
        forall|i: int| p <= i < q ==> #[trigger] s[i] != c,
        q < s.len() ==> s[q] == c,
    ensures
        content::find(s, p, c) == q,
    decreases q - p,
{
    if p < q {
        assert(s[p] != c);
        lemma_find(s, p + 1, q, c);
    }
}

proof fn lemma_id(digits: Seq<char>)
    requires
        digits_between(digits, 0, digits.len() as int),
    ensures
        text::id_of(digits) == (if digits.len() > 0 && spelled(digits) <= u64::MAX {
            Some(spelled(digits) as u64)
        } else {
            None
        }),
{
    lemma_spelled(digits);
    if digits.len() > 0 {
        assert('0' <= digits[0] <= '9');
    }
    assert forall|i: int| 0 <= i < digits.len() implies text::is_digit(#[trigger] digits[i]) by {}
}

proof fn lemma_digits_within(s: Seq<char>, from: int, to: int)
    requires
        0 <= from <= to <= s.len(),
        digits_between(s, from, to),
    ensures
        digits_between(s.subrange(from, to), 0, to - from),
{
    assert forall|i: int| 0 <= i < to - from implies '0' <= #[trigger] s.subrange(from, to)[i]
        <= '9' by {
        assert(s.subrange(from, to)[i] == s[from + i]);
    }
}

/// A text spells an id where it is a number of at most 64 bits in decimal digits, which may have
/// a plus sign in front. The id is that number.
pub proof fn law_ids_are_the_numbers_that_are_spelled(s: Seq<char>, digits: Seq<char>)
    requires
        s == digits || s == seq!['+'] + digits,
    ensures
        digits.len() > 0 && digits_between(digits, 0, digits.len() as int) && spelled(digits)
            <= u64::MAX ==> text::id_of(s) == Some(spelled(digits) as u64),
        s == seq!['+'] + digits && !(digits.len() > 0 && digits_between(
            digits,
            0,
            digits.len() as int,
        ) && spelled(digits) <= u64::MAX) ==> text::id_of(s) is None,
        s.len() > 0 && s[0] != '+' && !(digits_between(s, 0, s.len() as int) && spelled(s)
            <= u64::MAX) ==> text::id_of(s) is None,
        s.len() == 0 ==> text::id_of(s) is None,
{
    lemma_spelled(digits);
    lemma_spelled(s);
    if s == seq!['+'] + digits {
        assert(s.skip(1) =~= digits);
        assert(s[0] == '+');
        if digits.len() > 0 && !digits_between(digits, 0, digits.len() as int) {
            let i = choose|i: int|
                0 <= i < digits.len() && !('0' <= #[trigger] digits[i] <= '9');
            assert(!text::is_digit(digits[i]));
        }
    }
    if digits_between(digits, 0, digits.len() as int) {
        lemma_id(digits);
    }
    if s.len() > 0 && s[0] != '+' && !digits_between(s, 0, s.len() as int) {
        let i = choose|i: int| 0 <= i < s.len() && !('0' <= #[trigger] s[i] <= '9');
        assert(!text::is_digit(s[i]));
    }
}

/// A number is printed in decimal, with a minus sign in front of a negative one.
pub proof fn law_numbers_are_printed_in_decimal(n: int)
    ensures
        n >= 0 ==> is_numeral(text::integer_text(n), n),
        n < 0 ==> exists|t: Seq<char>| #[trigger]
            is_numeral(t, -n) && text::integer_text(n) == seq!['-'] + t,
{
    if n >= 0 {
        lemma_numeral(n as nat);
    } else {
        lemma_numeral((-n) as nat);
        assert(is_numeral(text::numeral((-n) as nat), -n));
    }
}

proof fn lemma_numeral(n: nat)
    ensures
        is_numeral(text::numeral(n), n as int),
        n > 0 ==> text::numeral(n)[0] != '0',
    decreases n,
{
    let t = text::numeral(n);
    let last = ('0' as nat + n % 10) as char;
    assert(last as nat == 48 + n % 10);
    if n < 10 {
        assert(t =~= seq![last]);
        assert(t.drop_last() =~= Seq::<char>::empty());
        reveal_with_fuel(spelled, 2);
    } else {
        lemma_numeral(n / 10);
        let front = text::numeral(n / 10);
        assert(t =~= front.push(last));
        assert(t.drop_last() =~= front);
        assert forall|i: int| 0 <= i < t.len() implies '0' <= #[trigger] t[i] <= '9' by {
            if i < front.len() {
                assert(t[i] == front[i]);
            }
        }
    }
}

/// Where the content ends, what was put out is the plain text.
pub proof fn law_reading_ends_with_the_content(guild: u64, now: i64, s: Seq<char>, out: Seq<char>)
    ensures
        content::parsed(guild, now, s, s.len() as int, out) == ParseStepView::Finished(Ok(out)),
{
}

/// A character that opens no tag is put out as it is.
pub proof fn law_characters_are_copied(
    guild: u64,
    now: i64,
    s: Seq<char>,
    p: int,
    out: Seq<char>,
)
    requires
        0 <= p < s.len(),
        s[p] != '<',
    ensures
        content::parsed(guild, now, s, p, out) == content::parsed(
            guild,
            now,
            s,
            p + 1,
            out.push(s[p]),
        ),
{
    assert(out + seq![s[p]] =~= out.push(s[p]));
}

/// A bracket, or a bracket and an at sign, at the very end of a content: the bracket is dropped.
pub proof fn law_brackets_at_the_end_are_dropped(
    guild: u64,
    now: i64,
    s: Seq<char>,
    p: int,
    out: Seq<char>,
)
    requires
        0 <= p < s.len(),
        s[p] == '<',
        p + 1 == s.len() || (p + 2 == s.len() && s[p + 1] == '@'),
    ensures
        content::parsed(guild, now, s, p, out) == ParseStepView::Finished(
            Ok(
                if p + 1 == s.len() {
                    out
                } else {
                    out.push('@')
                },
            ),
        ),
{
    reveal_strlit("@");
    reveal_with_fuel(content::parsed, 2);
    assert(out + Seq::<char>::empty() =~= out);
    assert(out + "@"@ =~= out.push('@'));
}

/// A tag for a channel asks for the channel whose id its digits spell, and becomes a number sign
/// and the channel's name. One whose digits spell no id asks for nothing.
pub proof fn law_channels_are_named(
    guild: u64,
    now: i64,
    s: Seq<char>,
    p: int,
    e: int,
    out: Seq<char>,
)
    requires
        0 <= p,
        p + 2 <= e < s.len(),
        s[p] == '<',
        s[p + 1] == '#',
        digits_between(s, p + 2, e),
        s[e] == '>',
    ensures
        ({
            let digits = s.subrange(p + 2, e);
            let step = content::parsed(guild, now, s, p, out);
            if digits.len() > 0 && spelled(digits) <= u64::MAX {
                &&& step matches ParseStepView::Asking(lookup, parser)
                &&& lookup matches Lookup::Channel { channel }
                &&& channel == spelled(digits)
                &&& forall|answer: Answer| #[trigger]
                    content::resumed(parser, answer) == content::parsed(
                        guild,
                        now,
                        s,
                        e + 1,
                        out + "#"@ + match answer {
                            Answer::Channel(ChannelName::Guild(name)) => name@,
                            Answer::Channel(ChannelName::Category(name)) => name@,
                            Answer::Channel(ChannelName::Private) => "Private"@,
                            _ => "Unknown"@,
                        },
                    )
            } else {
                step == content::parsed(guild, now, s, e + 1, out + "#Unknown"@)
            }
        }),
{
    lemma_digits_end(s, p + 2, e);
    lemma_digits_within(s, p + 2, e);
    lemma_id(s.subrange(p + 2, e));
}

/// A mention of a user asks for the user whose id it spells, and becomes an at sign and the
/// user's name. The id may have a plus sign in front. One that spells no id asks for nothing.
pub proof fn law_users_are_named(
    guild: u64,
    now: i64,
    s: Seq<char>,
    p: int,
    e: int,
    out: Seq<char>,
)
    requires
        0 <= p,
        p + 3 <= e < s.len(),
        s[p] == '<',
        s[p + 1] == '@',
        s[p + 2] != '!' && s[p + 2] != '&',
        digits_between(s, p + 3, e),
        s[e] == '>',
    ensures
        ({
            let digits = if s[p + 2] == '+' {
                s.subrange(p + 3, e)
            } else {
                s.subrange(p + 2, e)
            };
            let step = content::parsed(guild, now, s, p, out);
            if (s[p + 2] == '+' || '0' <= s[p + 2] <= '9') && digits.len() > 0 && spelled(digits)
                <= u64::MAX {
                &&& step matches ParseStepView::Asking(lookup, parser)
                &&& lookup matches Lookup::User { user }
                &&& user == spelled(digits)
                &&& forall|answer: Answer| #[trigger]
                    content::resumed(parser, answer) == content::parsed(
                        guild,
                        now,
                        s,
                        e + 1,
                        out + "@"@ + match answer {
                            Answer::User(name) => name@,
                            _ => "Unknown"@,
                        },
                    )
            } else {
                step == content::parsed(guild, now, s, e + 1, out + "@Unknown"@)
            }
        }),
{
    lemma_digits_end(s, p + 3, e);
    lemma_digits_within(s, p + 3, e);
    let id = s.subrange(p + 2, e);
    assert(id[0] == s[p + 2]);
    if s[p + 2] == '+' {
        assert(id =~= seq!['+'] + s.subrange(p + 3, e));
        law_ids_are_the_numbers_that_are_spelled(id, s.subrange(p + 3, e));
    } else {
        if '0' <= s[p + 2] <= '9' {
            assert(digits_between(s, p + 2, e));
            lemma_digits_within(s, p + 2, e);
        } else {
            assert(!digits_between(id, 0, id.len() as int));
        }
        law_ids_are_the_numbers_that_are_spelled(id, id);
    }
}

/// A mention of a member asks for the member of the guild whose id its digits spell, and becomes
/// an at sign and the nickname. Where there is none to be had, the user of that id is asked for,
/// and the user's name is put out.
pub proof fn law_nicknames_come_before_names(
    guild: u64,
    now: i64,
    s: Seq<char>,
    p: int,
    e: int,
    out: Seq<char>,
)
    requires
        0 <= p,
        p + 3 <= e < s.len(),
        s[p] == '<',
        s[p + 1] == '@',
        s[p + 2] == '!',
        digits_between(s, p + 3, e),
        s[e] == '>',
    ensures
        ({
            let digits = s.subrange(p + 3, e);
            let step = content::parsed(guild, now, s, p, out);
            if digits.len() > 0 && spelled(digits) <= u64::MAX {
                &&& step matches ParseStepView::Asking(lookup, parser)
                &&& lookup matches Lookup::Member { guild: of, user }
                &&& of == guild && user == spelled(digits)
                &&& forall|nick: String| #[trigger]
                    content::resumed(parser, Answer::Member(Some(nick))) == content::parsed(
                        guild,
                        now,
                        s,
                        e + 1,
                        out + "@"@ + nick@,
                    )
                &&& forall|answer: Answer, later: Answer|
                    !(answer matches Answer::Member(Some(_))) ==> {
                        &&& content::resumed(parser, answer) matches ParseStepView::Asking(
                            again,
                            next,
                        )
                        &&& again matches Lookup::User { user: same }
                        &&& same == spelled(digits)
                        &&& #[trigger] content::resumed(
                            content::resumed(parser, answer)->Asking_1,
                            later,
                        ) == content::parsed(
                            guild,
                            now,
                            s,
                            e + 1,
                            out + "@"@ + match later {
                                Answer::User(name) => name@,
                                _ => "Unknown"@,
                            },
                        )
                    }
            } else {
                step == content::parsed(guild, now, s, e + 1, out + "@Unknown"@)
            }
        }),
{
    lemma_digits_end(s, p + 3, e);
    lemma_digits_within(s, p + 3, e);
    lemma_id(s.subrange(p + 3, e));
    assert((out + "@"@) + Seq::<char>::empty() =~= out + "@"@);
}

proof fn lemma_role(roles: Seq<Role>, id: u64, k: int)
    requires
        0 <= k <= roles.len(),
        forall|j: int| 0 <= j < k ==> (#[trigger] roles[j]).id != id,
        k < roles.len() ==> roles[k].id == id,
    ensures
        content::role_name(roles, id) == if k < roles.len() {
            roles[k].name@
        } else {
            "Unknown"@
        },
    decreases k,
{
    if k > 0 {
        assert(roles[0].id != id);
        let rest = roles.skip(1);
        assert forall|j: int| 0 <= j < k - 1 implies (#[trigger] rest[j]).id != id by {
            assert(rest[j] == roles[j + 1]);
        }
        if k < roles.len() {
            assert(rest[k - 1] == roles[k]);
        }
        lemma_role(rest, id, k - 1);
    }
}

/// A mention of a role asks for the roles of the guild, and becomes an at sign and the name of
/// the first role that has the id which its digits spell.
pub proof fn law_roles_are_named(
    guild: u64,
    now: i64,
    s: Seq<char>,
    p: int,
    e: int,
    out: Seq<char>,
    roles: Vec<Role>,
    k: int,
    other: Answer,
)
    requires
        0 <= p,
        p + 3 <= e < s.len(),
        s[p] == '<',
        s[p + 1] == '@',
        s[p + 2] == '&',
        digits_between(s, p + 3, e),
        s[e] == '>',
        0 <= k <= roles@.len(),
        forall|j: int|
            0 <= j < k ==> (#[trigger] roles@[j]).id != spelled(s.subrange(p + 3, e)),
        k < roles@.len() ==> roles@[k].id == spelled(s.subrange(p + 3, e)),
        other !is Roles,
    ensures
        ({
            let digits = s.subrange(p + 3, e);
            let step = content::parsed(guild, now, s, p, out);
            if digits.len() > 0 && spelled(digits) <= u64::MAX {
                &&& step matches ParseStepView::Asking(lookup, parser)
                &&& lookup == (Lookup::Roles { guild })
                &&& content::resumed(parser, Answer::Roles(roles)) == content::parsed(
                    guild,
                    now,
                    s,
                    e + 1,
                    out + "@"@ + if k < roles@.len() {
                        roles@[k].name@
                    } else {
                        "Unknown"@
                    },
                )
                &&& content::resumed(parser, other) == content::parsed(
                    guild,
                    now,
                    s,
                    e + 1,
                    out + "@"@ + "Unknown"@,
                )
            } else {
                step == content::parsed(guild, now, s, e + 1, out + "@Unknown"@)
            }
        }),
{
    lemma_digits_end(s, p + 3, e);
    lemma_digits_within(s, p + 3, e);
    lemma_id(s.subrange(p + 3, e));
    if spelled(s.subrange(p + 3, e)) <= u64::MAX {
        lemma_role(roles@, spelled(s.subrange(p + 3, e)) as u64, k);
    }
}

/// An emoji, still or animated, asks for the emoji of the guild whose id its digits spell, and
/// becomes that emoji's name between colons, or the name in the tag where it cannot be had.
pub proof fn law_emojis_are_named(
    guild: u64,
    now: i64,
    s: Seq<char>,
    p: int,
    from: int,
    q: int,
    e: int,
    out: Seq<char>,
)
    requires
        0 <= p < from <= q < e < s.len(),
        s[p] == '<',
        (from == p + 2 && s[p + 1] == ':') || (from == p + 3 && s[p + 1] == 'a' && s[p + 2]
            == ':'),
        forall|i: int| from <= i < q ==> #[trigger] s[i] != ':',
        s[q] == ':',
        digits_between(s, q + 1, e),
        s[e] == '>',
    ensures
        ({
            let digits = s.subrange(q + 1, e);
            let own = s.subrange(from, q);
            let step = content::parsed(guild, now, s, p, out);
            if digits.len() > 0 && spelled(digits) <= u64::MAX {
                &&& step matches ParseStepView::Asking(lookup, parser)
                &&& lookup matches Lookup::Emoji { guild: of, emoji }
                &&& of == guild && emoji == spelled(digits)
                &&& forall|answer: Answer| #[trigger]
                    content::resumed(parser, answer) == content::parsed(
                        guild,
                        now,
                        s,
                        e + 1,
                        out + ":"@ + match answer {
                            Answer::Emoji(name) => name@,
                            _ => own,
                        } + ":"@,
                    )
            } else {
                step == content::parsed(guild, now, s, e + 1, out + ":"@ + own + ":"@)
            }
        }),
{
    lemma_find(s, from, q, ':');
    lemma_digits_end(s, q + 1, e);
    lemma_digits_within(s, q + 1, e);
    lemma_id(s.subrange(q + 1, e));
    let own = s.subrange(from, q);
    assert(out + (":"@ + own + ":"@) =~= out + ":"@ + own + ":"@);
    let step = content::parsed(guild, now, s, p, out);
    if e > q + 1 && spelled(s.subrange(q + 1, e)) <= u64::MAX {
        let parser = step->Asking_1;
        assert forall|answer: Answer| #[trigger]
            content::resumed(parser, answer) == content::parsed(
                guild,
                now,
                s,
                e + 1,
                out + ":"@ + match answer {
                    Answer::Emoji(name) => name@,
                    _ => own,
                } + ":"@,
            ) by {
            let name = match answer {
                Answer::Emoji(name) => name@,
                _ => own,
            };
            assert((out + ":"@) + (name + ":"@) =~= out + ":"@ + name + ":"@);
        }
    }
}

/// A time becomes what is printed for the number of seconds that its digits spell, in the format
/// of its style. The style is what stands between the second colon and the bracket, or the end.
pub proof fn law_times_are_printed_in_their_style(
    guild: u64,
    now: i64,
    s: Seq<char>,
    p: int,
    e: int,
    q: int,
    out: Seq<char>,
)
    requires
        0 <= p,
        p + 3 <= e < s.len(),
        s[p] == '<',
        s[p + 1] == 't',
        s[p + 2] == ':',
        digits_between(s, p + 3, e),
        s[e] == '>' && q == e || s[e] == ':' && e < q <= s.len() && (forall|i: int|
            e < i < q ==> #[trigger] s[i] != '>') && (q < s.len() ==> s[q] == '>'),
        q > e ==> s.subrange(e + 1, q) != seq!['R'],
    ensures
        ({
            let digits = s.subrange(p + 3, e);
            let secs = if digits.len() > 0 && spelled(digits) <= i64::MAX {
                spelled(digits)
            } else {
                0
            };
            let style = if q > e {
                s.subrange(e + 1, q)
            } else {
                Seq::empty()
            };
            let format = if style == seq!['t'] {
                "%H:%M"@
            } else if style == seq!['T'] {
                "%H:%M:%S"@
            } else if style == seq!['d'] {
                "%d/%m/%Y"@
            } else if style == seq!['D'] {
                "%d %B %Y"@
            } else if style == seq!['F'] {
                "%A, %d %B %Y %H:%M"@
            } else {
                "%d %B %Y %H:%M"@
            };
            content::parsed(guild, now, s, p, out) == content::parsed(
                guild,
                now,
                s,
                if q < s.len() {
                    q + 1
                } else {
                    q
                },
                out + outside::utc_text(secs as int, format),
            )
        }),
{
    lemma_time(s, p, e, q);
    lemma_styles();
    let style = if q > e {
        s.subrange(e + 1, q)
    } else {
        Seq::empty()
    };
    assert("R"@.len() == 1);
    assert(style != "R"@);
}

proof fn lemma_styles()
    ensures
        "t"@ == seq!['t'],
        "T"@ == seq!['T'],
        "d"@ == seq!['d'],
        "D"@ == seq!['D'],
        "F"@ == seq!['F'],
        "R"@ == seq!['R'],
{
    reveal_strlit("t");
    reveal_strlit("T");
    reveal_strlit("d");
    reveal_strlit("D");
    reveal_strlit("F");
    reveal_strlit("R");
    assert("t"@ =~= seq!['t']);
    assert("T"@ =~= seq!['T']);
    assert("d"@ =~= seq!['d']);
    assert("D"@ =~= seq!['D']);
    assert("F"@ =~= seq!['F']);
    assert("R"@ =~= seq!['R']);
}

proof fn lemma_time(s: Seq<char>, p: int, e: int, q: int)
    requires
        0 <= p,
        p + 3 <= e < s.len(),
        s[p] == '<',
        s[p + 1] == 't',
        s[p + 2] == ':',
        digits_between(s, p + 3, e),
        s[e] == '>' && q == e || s[e] == ':' && e < q <= s.len() && (forall|i: int|
            e < i < q ==> #[trigger] s[i] != '>') && (q < s.len() ==> s[q] == '>'),
    ensures
        ({
            let digits = s.subrange(p + 3, e);
            content::tag_at(s, p) == Ok::<(Tag, int), ContentError>(
                (
                    Tag::Time(
                        if digits.len() > 0 && spelled(digits) <= i64::MAX {
                            spelled(digits) as int
                        } else {
                            0
                        },
                        if q > e {
                            s.subrange(e + 1, q)
                        } else {
                            Seq::empty()
                        },
                    ),
                    if q < s.len() {
                        q + 1
                    } else {
                        q
                    },
                ),
            )
        }),
{
    let digits = s.subrange(p + 3, e);
    lemma_digits_end(s, p + 3, e);
    lemma_digits_within(s, p + 3, e);
    lemma_spelled(digits);
    if digits.len() > 0 {
        assert('0' <= digits[0] <= '9');
    }
    assert forall|i: int| 0 <= i < digits.len() implies text::is_digit(#[trigger] digits[i]) by {}
    if s[e] == ':' {
        lemma_find(s, e + 1, q, '>');
    }
}

/// A time in the style `R` becomes the number of whole months that have passed since, and no more
/// than that: from a day and a time of day to the same in the last month in which it was reached.
pub proof fn law_relative_times_count_the_months(
    guild: u64,
    now: i64,
    s: Seq<char>,
    p: int,
    e: int,
    out: Seq<char>,
    then: Date,
    today: Date,
)
    requires
        0 <= p,
        p + 3 < e,
        e + 1 < s.len(),
        s[p] == '<',
        s[p + 1] == 't',
        s[p + 2] == ':',
        digits_between(s, p + 3, e),
        spelled(s.subrange(p + 3, e)) <= i64::MAX,
        s[e] == ':',
        s[e + 1] == 'R',
        e + 2 < s.len() ==> s[e + 2] == '>',
        calendar::is_date_of(then, spelled(s.subrange(p + 3, e)) as int),
        calendar::is_date_of(today, now as int),
    ensures
        ({
            let secs = spelled(s.subrange(p + 3, e)) as int;
            let apart = 12 * (today.year - then.year) + today.month - then.month;
            let round = today.day > then.day || (today.day == then.day && now as int % 86400 >= secs
                % 86400);
            exists|t: Seq<char>, months: int| #[trigger]
                is_numeral(t, months) && months == (if now <= secs {
                    0
                } else if round {
                    apart
                } else {
                    apart - 1
                }) && content::parsed(guild, now, s, p, out) == content::parsed(
                    guild,
                    now,
                    s,
                    if e + 2 < s.len() {
                        e + 3
                    } else {
                        e + 2
                    },
                    out + t + " months ago"@,
                )
        }),
{
    let secs = spelled(s.subrange(p + 3, e)) as int;
    lemma_styles();
    lemma_time(s, p, e, e + 2);
    assert(s.subrange(e + 1, e + 2) =~= seq!['R']);
    calendar::law_dates_are_unique(then, secs);
    calendar::law_dates_are_unique(today, now as int);
    let months = calendar::months_passed(calendar::moment_of(secs), calendar::moment_of(now as int));
    let apart = 12 * (today.year - then.year) + today.month - then.month;
    let round = today.day > then.day || (today.day == then.day && now as int % 86400 >= secs
        % 86400);
    if now <= secs {
        calendar::law_no_month_passes_before_its_time(then, today, secs, now as int);
    } else {
        if today.month_number() < then.month_number() {
            calendar::lemma_dates_in_order(today, then);
        }
        assert(apart >= 0);
        if apart == 0 {
            assert(today.year == then.year && today.month == then.month);
            assert(today.day_number() - then.day_number() == today.day - then.day);
            assert(round);
        }
    }
    law_numbers_are_printed_in_decimal(months);
    let t = text::integer_text(months);
    assert(is_numeral(t, months));
    assert(out + (t + " months ago"@) =~= out + t + " months ago"@);
}

/// A tag that cannot be read ends the reading with what is wrong with it: the content ends in it,
/// or a character stands in it that must not.
pub proof fn law_broken_ids_are_errors(
    guild: u64,
    now: i64,
    s: Seq<char>,
    p: int,
    from: int,
    e: int,
    out: Seq<char>,
)
    requires
        0 <= p,
        from <= e <= s.len(),
        s[p] == '<',
        (from == p + 3 && s[p + 1] == '@') || (from == p + 2 && s[p + 1] == '#'),
        digits_between(s, from, e),
        e < s.len() ==> s[e] != '>' && !('0' <= s[e] <= '9'),
    ensures
        content::parsed(guild, now, s, p, out) == ParseStepView::Finished(
            Err(
                if e == s.len() {
                    ContentError::UnexpectedEnd
                } else if s[p + 1] == '@' {
                    ContentError::InvalidIdChar(s[e])
                } else {
                    ContentError::InvalidReferenceChar(s[e])
                },
            ),
        ),
{
    lemma_digits_end(s, from, e);
}

/// An emoji whose name or id breaks off, or whose id holds a character that must not, cannot be
/// read.
pub proof fn law_broken_emojis_are_errors(
    guild: u64,
    now: i64,
    s: Seq<char>,
    p: int,
    from: int,
    q: int,
    e: int,
    out: Seq<char>,
)
    requires
        0 <= p,
        from <= q <= s.len(),
        s[p] == '<',
        (from == p + 2 && s[p + 1] == ':') || (from == p + 3 && s[p + 1] == 'a' && s[p + 2]
            == ':'),
        forall|i: int| from <= i < q ==> #[trigger] s[i] != ':',
        q == s.len() || (s[q] == ':' && q < e <= s.len() && digits_between(s, q + 1, e) && (e
            < s.len() ==> s[e] != '>' && !('0' <= s[e] <= '9'))),
    ensures
        content::parsed(guild, now, s, p, out) == ParseStepView::Finished(
            Err(
                if q == s.len() || e == s.len() {
                    if s[p + 1] == 'a' {
                        ContentError::UnexpectedEndOfEmoji
                    } else {
                        ContentError::UnexpectedEnd
                    }
                } else if s[p + 1] == 'a' {
                    ContentError::InvalidIdChar(s[e])
                } else {
                    ContentError::InvalidReferenceChar(s[e])
                },
            ),
        ),
{
    lemma_find(s, from, q, ':');
    if q < s.len() {
        lemma_digits_end(s, q + 1, e);
    }
}

/// A time whose digits break off, or are followed by anything but a colon or the bracket, cannot
/// be read.
pub proof fn law_broken_times_are_errors(
    guild: u64,
    now: i64,
    s: Seq<char>,
    p: int,
    e: int,
    out: Seq<char>,
)
    requires
        0 <= p,
        p + 3 <= e <= s.len(),
        s[p] == '<',
        s[p + 1] == 't',
        s[p + 2] == ':',
        digits_between(s, p + 3, e),
        e < s.len() ==> s[e] != '>' && s[e] != ':' && !('0' <= s[e] <= '9'),
    ensures
        content::parsed(guild, now, s, p, out) == ParseStepView::Finished(
            Err(
                if e == s.len() {
                    ContentError::UnexpectedEndOfTime
                } else {
                    ContentError::TimeNotNumber
                },
            ),
        ),
{
    lemma_digits_end(s, p + 3, e);
}

/// A bracket that is followed by no kind of tag cannot be read.
pub proof fn law_unknown_tags_are_errors(
    guild: u64,
    now: i64,
    s: Seq<char>,
    p: int,
    out: Seq<char>,
)
    requires
        0 <= p,
        p + 1 < s.len(),
        s[p] == '<',
        s[p + 1] != '@' && s[p + 1] != '#' && s[p + 1] != ':',
        (s[p + 1] == 'a' || s[p + 1] == 't') && p + 2 < s.len() ==> s[p + 2] != ':',
    ensures
        content::parsed(guild, now, s, p, out) == ParseStepView::Finished(
            Err(
                if s[p + 1] != 'a' && s[p + 1] != 't' {
                    ContentError::InvalidTag
                } else if p + 2 == s.len() {
                    ContentError::UnexpectedEnd
                } else {
                    ContentError::MissingColon
                },
            ),
        ),
{
}

/// What is said of each error.
pub proof fn law_content_errors_say_what_is_wrong(c: char)
    ensures
        content::error_text(ContentError::UnexpectedEnd) == "Unexpected end of string."@,
        content::error_text(ContentError::UnexpectedEndOfEmoji) == "Unexpected endof stream."@,
        content::error_text(ContentError::UnexpectedEndOfTime) == "Unexpected endof string."@,
        content::error_text(ContentError::InvalidIdChar(c)) == "Invalid character in id: "@.push(c),
        content::error_text(ContentError::InvalidReferenceChar(c))
            == "Invalid character inid: "@.push(c),
        content::error_text(ContentError::MissingColon) == "Time missing opening ':'"@,
        content::error_text(ContentError::TimeNotNumber) == "Time is not a number"@,
        content::error_text(ContentError::InvalidTag) == "Invalid markup tag"@,
{
}

/// The times in a content are in the calendar where none of those that are read is later than the
/// last second that the calendar holds. A reading that ends with an error comes to no more.
pub proof fn law_times_fit_where_each_does(s: Seq<char>, p: int)
    requires
        0 <= p <= s.len(),
    ensures
        p == s.len() ==> content::times_fit(s, p),
        p < s.len() ==> match content::tag_at(s, p) {
            Err(_) => content::times_fit(s, p),
            Ok((Tag::Time(secs, _), n)) => content::times_fit(s, p) == (secs <= 8210266876799
                && content::times_fit(s, n)),
            Ok((_, n)) => content::times_fit(s, p) == content::times_fit(s, n),
        },
{
}

/// The first day of 1970 has the number zero, and each day has the number that follows on that of
/// the day before it.
pub proof fn law_days_are_counted(day: Date, next: Date)
    requires
        day.is_valid(),
        ({
            let leap = day.year as int % 4 == 0 && (day.year as int % 100 != 0 || day.year as int
                % 400 == 0);
            let length: int = if day.month == 2 {
                if leap {
                    29
                } else {
                    28
                }
            } else if day.month == 4 || day.month == 6 || day.month == 9 || day.month == 11 {
                30
            } else {
                31
            };
            if day.day < length {
                next.year == day.year && next.month == day.month && next.day == day.day + 1
            } else if day.month < 12 {
                next.year == day.year && next.month == day.month + 1 && next.day == 1
            } else {
                next.year == day.year + 1 && next.month == 1 && next.day == 1
            }
        }),
    ensures
        next.is_valid(),
        next.day_number() == day.day_number() + 1,
        (Date { year: 1970, month: 1, day: 1 }).day_number() == 0,
{
    lemma_epoch();
    let year = day.year as int;
    if day.month == 12 && next.year == day.year + 1 {
        lemma_december(year);
        calendar::lemma_year_length(year);
        assert(calendar::days_before_month(year + 1, 1) == 0);
    } else if next.month == day.month + 1 {
        assert(calendar::days_before_month(year, next.month as int) == calendar::days_before_month(
            year,
            day.month as int,
        ) + calendar::month_length(year, day.month as int));
    }
}

proof fn lemma_epoch()
    ensures
        (Date { year: 1970, month: 1, day: 1 }).day_number() == 0,
{
    assert(calendar::days_before_month(1970, 1) == 0);
}

proof fn lemma_december(year: int)
    ensures
        calendar::days_before_month(year, 12) == if calendar::is_leap(year) {
            335int
        } else {
            334
        },
{
    reveal_with_fuel(calendar::days_before_month, 12);
}

/// A date is that of the seconds of its day, and of no others.
pub proof fn law_dates_last_a_day(day: Date, secs: int)
    requires
        day.is_valid(),
    ensures
        calendar::is_date_of(day, secs) <==> day.day_number() * 86400 <= secs < (day.day_number()
            + 1) * 86400,
{
}

/// A moment is its date and the seconds of its day.
pub proof fn law_moments_are_a_date_and_a_time(secs: int, date: Date)
    requires
        calendar::is_date_of(date, secs),
    ensures
        calendar::moment_of(secs).date == date,
        calendar::moment_of(secs).second == secs - date.day_number() * 86400,
{
    calendar::law_dates_are_unique(date, secs);
}

/// How long ago something was is told by the number of months.
pub proof fn law_months_ago_are_counted(months: int)
    requires
        months >= 0,
    ensures
        exists|t: Seq<char>| #[trigger]
            is_numeral(t, months) && content::ago_text(months) == t + " months ago"@,
{
    law_numbers_are_printed_in_decimal(months);
}

/// The months between two moments are those of the calendar, less one where the day and the time
/// of day have not come round. None have passed to a moment before.
pub proof fn law_months_come_round(then: Moment, now: Moment)
    ensures
        ({
            let apart = 12 * (now.date.year - then.date.year) + now.date.month - then.date.month;
            let round = now.date.day > then.date.day || (now.date.day == then.date.day && now.second
                >= then.second);
            let months = calendar::months_passed(then, now);
            &&& apart < 0 ==> months == 0
            &&& apart >= 0 && round ==> months == apart
            &&& apart > 0 && !round ==> months == apart - 1
            &&& apart == 0 ==> months == 0
        }),
{
}

} // verus!
