//! How Discord markup becomes plain text.

use pipo_discord::calendar::{moment, whole_months, Date, Moment};
use pipo_discord::content::{
    print_ago, run, times_in_range, Answer, ChannelName, ContentError, Lookup, ParseStep, Role,
};
use pipo_discord::handler::RealHandler;

const GUILD: u64 = 77;

/// 20 June 2021, 16:20:30.
const NOW: i64 = 1624206030;

/// Reads a content to its end, and notes what was looked up.
fn read(
    content: &str,
    answer: fn(&Lookup) -> Answer,
) -> (Result<String, ContentError>, Vec<Lookup>) {
    read_at(content, NOW, answer)
}

fn read_at(
    content: &str,
    now: i64,
    answer: fn(&Lookup) -> Answer,
) -> (Result<String, ContentError>, Vec<Lookup>) {
    assert!(times_in_range(content));
    let mut asked = Vec::new();
    let mut step = RealHandler::new(0).parse_content(GUILD, content, now);
    loop {
        match step {
            ParseStep::Finished(read) => return (read, asked),
            ParseStep::Asking(lookup, parser) => {
                asked.push(lookup);
                step = parser.resume(answer(&lookup));
            }
        }
    }
}

fn nobody(_: &Lookup) -> Answer {
    Answer::Failed
}

fn everybody(lookup: &Lookup) -> Answer {
    match lookup {
        Lookup::Roles { guild } => {
            assert_eq!(*guild, GUILD);
            Answer::Roles(vec![
                Role { id: 1, name: "all".to_string() },
                Role { id: 7, name: "mods".to_string() },
                Role { id: 7, name: "late".to_string() },
            ])
        }
        Lookup::Member { guild, user } => {
            assert_eq!(*guild, GUILD);
            Answer::Member(if *user == 5 { Some("Annie".to_string()) } else { None })
        }
        Lookup::User { user } => Answer::User(format!("user{}", user)),
        Lookup::Channel { channel } => Answer::Channel(match channel {
            1 => ChannelName::Guild("general".to_string()),
            2 => ChannelName::Private,
            3 => ChannelName::Category("talk".to_string()),
            _ => ChannelName::Other,
        }),
        Lookup::Emoji { guild, emoji } => {
            assert_eq!(*guild, GUILD);
            Answer::Emoji(format!("emoji{}", emoji))
        }
    }
}

fn text(content: &str) -> String {
    read(content, everybody).0.unwrap()
}

fn error(content: &str) -> ContentError {
    let with = read(content, everybody).0.unwrap_err();
    let without = read(content, nobody).0.unwrap_err();
    assert_eq!(with, without);
    with
}

#[test]
fn plain_text_stays_as_it_is() {
    let content = "no markup > here, \u{e9}\u{1f680}\n";
    assert_eq!(read(content, everybody), (Ok(content.to_string()), vec![]));
    assert_eq!(text(""), "");
}

#[test]
fn users_are_named() {
    assert_eq!(
        read("hi <@5>!", everybody),
        (Ok("hi @user5!".to_string()), vec![Lookup::User { user: 5 }])
    );
    assert_eq!(read("<@5>", nobody).0.unwrap(), "@Unknown");
}

#[test]
fn nicknames_come_before_names() {
    assert_eq!(
        read("<@!5>", everybody),
        (
            Ok("@Annie".to_string()),
            vec![Lookup::Member { guild: GUILD, user: 5 }]
        )
    );
    assert_eq!(
        read("<@!6>", everybody),
        (
            Ok("@user6".to_string()),
            vec![Lookup::Member { guild: GUILD, user: 6 }, Lookup::User { user: 6 }]
        )
    );
    assert_eq!(read("<@!5>", nobody).0.unwrap(), "@Unknown");
}

#[test]
fn the_first_role_with_the_id_counts() {
    assert_eq!(text("<@&7>, <@&1>, <@&9>"), "@mods, @all, @Unknown");
    assert_eq!(read("<@&7>", nobody).0.unwrap(), "@Unknown");
}

#[test]
fn channels_are_named() {
    assert_eq!(text("<#1> <#2> <#3> <#4>"), "#general #Private #talk #Unknown");
    assert_eq!(read("<#1>", nobody).0.unwrap(), "#Unknown");
}

#[test]
fn emojis_are_named() {
    assert_eq!(text("<:smile:3><a:dance:4>"), ":emoji3::emoji4:");
    assert_eq!(read("<:smile:3><a:dance:4>", nobody).0.unwrap(), ":smile::dance:");
    assert_eq!(read("<:smile:>", everybody), (Ok(":smile:".to_string()), vec![]));
}

#[test]
fn ids_that_are_no_numbers_are_not_looked_up() {
    let too_large = "<@99999999999999999999> <#> <@!>";
    assert_eq!(
        read(too_large, everybody),
        (Ok("@Unknown #Unknown @Unknown".to_string()), vec![])
    );
    assert_eq!(
        read("<@18446744073709551615>", everybody).1,
        vec![Lookup::User { user: 18446744073709551615 }]
    );
    assert_eq!(read("<@+5>", everybody).1, vec![Lookup::User { user: 5 }]);
    assert_eq!(read("<@x>", everybody), (Ok("@Unknown".to_string()), vec![]));
}

#[test]
fn times_are_printed_in_their_style() {
    assert_eq!(text("<t:0:t>"), "00:00");
    assert_eq!(text("<t:1618953630:t>"), "21:20");
    assert_eq!(text("<t:1618953630:T>"), "21:20:30");
    assert_eq!(text("<t:1618953630:d>"), "20/04/2021");
    assert_eq!(text("<t:1618953630:D>"), "20 April 2021");
    assert_eq!(text("<t:1618953630:F>"), "Tuesday, 20 April 2021 21:20");
    assert_eq!(text("<t:1618953630:f>"), "20 April 2021 21:20");
    assert_eq!(text("<t:1618953630>"), "20 April 2021 21:20");
}

#[test]
fn a_time_without_a_style_prints_date_and_time() {
    assert_eq!(text("<t:1618935630>"), "20 April 2021 16:20");
    assert_eq!(text("<t:1618935630:x>"), "20 April 2021 16:20");
    assert_eq!(text("<t:1618935630:RR>"), "20 April 2021 16:20");
}

fn ago(then: i64, now: i64) -> String {
    read_at(&format!("<t:{}:R>", then), now, nobody).0.unwrap()
}

#[test]
fn the_relative_style_tells_the_months_that_have_passed() {
    assert_eq!(text("<t:1618935630:R>"), "2 months ago");
    assert_eq!(ago(1618935630, 1624206029), "1 months ago");
    assert_eq!(ago(1618935630, 1621527630), "1 months ago");
    assert_eq!(ago(1618935630, 1621527629), "0 months ago");
    assert_eq!(ago(0, NOW), "617 months ago");
    assert_eq!(text("<t:1618935630:R>, <@5>, <t:0:R>"), "2 months ago, @user5, 617 months ago");
}

#[test]
fn no_month_has_passed_from_a_time_to_come() {
    assert_eq!(ago(NOW, NOW), "0 months ago");
    assert_eq!(ago(NOW + 1, NOW), "0 months ago");
    assert_eq!(ago(8210266876799, NOW), "0 months ago");
    assert_eq!(ago(0, -8334601228800), "0 months ago");
    assert_eq!(ago(0, 8210266876799), format!("{} months ago", 12 * (262142 - 1970) + 11));
}

#[test]
fn moments_have_dates() {
    let at = |secs, year, month, day, second| {
        assert_eq!(moment(secs), Moment { date: Date { year, month, day }, second });
    };
    at(0, 1970, 1, 1, 0);
    at(-1, 1969, 12, 31, 86399);
    at(951782400, 2000, 2, 29, 0);
    at(951868800, 2000, 3, 1, 0);
    at(1618935630, 2021, 4, 20, 58830);
    at(4107542399, 2100, 2, 28, 86399);
    at(4107542400, 2100, 3, 1, 0);
    at(-62167219200, 0, 1, 1, 0);
    at(-62162121600, 0, 2, 29, 0);
    at(-8334601228800, -262143, 1, 1, 0);
    at(8210266876799, 262142, 12, 31, 86399);
}

#[test]
fn a_month_is_over_when_the_day_comes_round() {
    let day = |year, month, day| Moment { date: Date { year, month, day }, second: 100 };
    assert_eq!(whole_months(day(2021, 1, 31), day(2021, 2, 28)), 0);
    assert_eq!(whole_months(day(2021, 1, 31), day(2021, 3, 1)), 1);
    assert_eq!(whole_months(day(2020, 12, 5), day(2021, 1, 5)), 1);
    assert_eq!(whole_months(day(2020, 12, 5), day(2021, 12, 4)), 11);
    assert_eq!(whole_months(day(2021, 2, 5), day(2021, 1, 5)), 0);
    assert_eq!(print_ago(day(2011, 2, 5), day(2021, 2, 5)), "120 months ago");
}

#[test]
fn texts_can_be_joined() {
    for first in ["plain ", "<@5>", "<t:0:t>", "<t:1618935630:R>", "<:a:1>"] {
        for second in ["plain", "<#1>", "<", "<@", "<t:0:t"] {
            let joined = format!("{}{}", first, second);
            assert_eq!(text(&joined), format!("{}{}", text(first), text(second)));
        }
    }
}

#[test]
fn animated_emojis_read_like_still_ones() {
    for rest in ["a:1> <@5>", "a:>", "a:x>", "a", "a:1> <z>"] {
        let still = read(&format!("<:{}", rest), everybody).0;
        let animated = read(&format!("<a:{}", rest), everybody).0;
        assert_eq!(still.ok(), animated.ok());
    }
}

#[test]
fn a_style_may_run_up_to_the_end() {
    assert_eq!(text("<t:1618953630:t"), "21:20");
    assert_eq!(text("<t:1618953630:"), "20 April 2021 21:20");
    assert_eq!(text("<t::D>"), "01 January 1970");
    assert_eq!(text("<t:99999999999999999999:D>"), "01 January 1970");
}

#[test]
fn times_outside_the_calendar_are_told_beforehand() {
    assert!(times_in_range("<t:8210266876799:t>"));
    assert_eq!(text("<t:8210266876799:T>"), "23:59:59");
    assert!(!times_in_range("<t:8210266876800:t>"));
    assert!(times_in_range("<z> <t:8210266876800:t>"));
}

#[test]
fn a_lone_bracket_is_dropped() {
    assert_eq!(text("a<"), "a");
    assert_eq!(text("a<@"), "a@");
}

#[test]
fn tags_that_break_off_are_errors() {
    for content in ["<@5", "<#5", "<:a", "<:a:5", "<a", "<t"] {
        assert_eq!(error(content), ContentError::UnexpectedEnd);
    }
    assert_eq!(error("<a:b"), ContentError::UnexpectedEndOfEmoji);
    assert_eq!(error("<a:b:1"), ContentError::UnexpectedEndOfEmoji);
    assert_eq!(error("<t:5"), ContentError::UnexpectedEndOfTime);
}

#[test]
fn malformed_tags_are_errors() {
    assert_eq!(error("<@5x>"), ContentError::InvalidIdChar('x'));
    assert_eq!(error("<a:b:x>"), ContentError::InvalidIdChar('x'));
    assert_eq!(error("<#x>"), ContentError::InvalidReferenceChar('x'));
    assert_eq!(error("<:b:x>"), ContentError::InvalidReferenceChar('x'));
    assert_eq!(error("<ab>"), ContentError::MissingColon);
    assert_eq!(error("<tb>"), ContentError::MissingColon);
    assert_eq!(error("<t:5x>"), ContentError::TimeNotNumber);
    assert_eq!(error("<z>"), ContentError::InvalidTag);
}

#[test]
fn an_error_comes_after_the_lookups_before_it() {
    let (read, asked) = read("<@5> <z> <@6>", everybody);
    assert_eq!(read, Err(ContentError::InvalidTag));
    assert_eq!(asked, vec![Lookup::User { user: 5 }]);
}

#[test]
fn content_errors_have_texts() {
    assert_eq!(ContentError::UnexpectedEnd.message(), "Unexpected end of string.");
    assert_eq!(ContentError::UnexpectedEndOfEmoji.message(), "Unexpected endof stream.");
    assert_eq!(ContentError::UnexpectedEndOfTime.message(), "Unexpected endof string.");
    assert_eq!(ContentError::InvalidIdChar('x').message(), "Invalid character in id: x");
    assert_eq!(ContentError::InvalidReferenceChar('y').message(), "Invalid character inid: y");
    assert_eq!(ContentError::MissingColon.message(), "Time missing opening ':'");
    assert_eq!(ContentError::TimeNotNumber.message(), "Time is not a number");
    assert_eq!(ContentError::InvalidTag.message(), "Invalid markup tag");
}

#[test]
fn a_parse_goes_on_behind_what_was_put_out() {
    let chars: Vec<char> = "<t:0:t>, <#1>".chars().collect();
    match run(GUILD, NOW, chars, 7, "noon".to_string()) {
        ParseStep::Asking(lookup, parser) => {
            assert_eq!(lookup, Lookup::Channel { channel: 1 });
            match parser.resume(everybody(&lookup)) {
                ParseStep::Finished(read) => assert_eq!(read.unwrap(), "noon, #general"),
                ParseStep::Asking(..) => panic!("nothing is left to be asked for"),
            }
        }
        ParseStep::Finished(_) => panic!("a channel has to be asked for"),
    }
}

#[test]
fn an_answer_of_another_kind_counts_as_a_failed_one() {
    assert_eq!(read("<@5>", |_| Answer::Emoji("no".to_string())).0.unwrap(), "@Unknown");
    assert_eq!(read("<:a:5>", |_| Answer::User("no".to_string())).0.unwrap(), ":a:");
}
