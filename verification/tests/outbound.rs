//! What messages from the buses ask of Discord.

use pipo_discord::discord::Discord;
use pipo_discord::jobs::{attach_from, Job, TextMessage};
use pipo_discord::message::{Attachment, Message};
use pipo_discord::outbound::{
    BridgeError, Call, Failure, GuildEmoji, Progress, ReactionType, Response,
};
use pipo_discord::registry::{HandlerChannel, Registry};
use std::collections::HashMap;

const TRANSPORT: usize = 4;
const HOOKED: u64 = 10;
const PLAIN: u64 = 20;

fn discord() -> Discord {
    let mut discord =
        Discord::new(TRANSPORT, &vec![], "token".to_string(), 77, &vec![]).unwrap();
    discord.registry = Registry::new(HashMap::from([
        (HOOKED, HandlerChannel { bus: "main".to_string(), webhook: Some(900) }),
        (PLAIN, HandlerChannel { bus: "side".to_string(), webhook: None }),
    ]));
    discord.registry.follow_thread(60, HOOKED);
    discord
}

fn failed(message: &str) -> Response {
    Response::Failed(Failure { code: None, message: message.to_string() })
}

/// Relays a message to its end. Gives what was asked for, and how it ended.
fn run(
    discord: &mut Discord,
    channel: u64,
    message: Message,
    world: &dyn Fn(&Call) -> Response,
) -> (Vec<Call>, Result<(), BridgeError>) {
    let mut calls = Vec::new();
    let mut progress = discord.dispatch(channel, message);
    loop {
        match progress {
            Progress::Done(outcome) => return (calls, outcome),
            Progress::Ask(call, job) => {
                let response = world(&call);
                calls.push(call);
                assert!(job.accepts(&discord.registry, &response));
                progress = discord.resume(job, response);
            }
        }
    }
}

/// Everything exists and goes well. Message ids are those of the bridge plus 5000.
fn fine(call: &Call) -> Response {
    match call {
        Call::DiscordId { pipo_id } => Response::DiscordId(Some(*pipo_id as u64 + 5000)),
        Call::DiscordIdOfSlack { .. } => Response::DiscordId(Some(61)),
        Call::CreateThread { .. } => Response::Thread(62),
        Call::GuildEmojis => Response::Emojis(vec![
            GuildEmoji { id: 1, name: "party".to_string(), animated: false },
            GuildEmoji { id: 2, name: "party".to_string(), animated: true },
        ]),
        Call::Webhook { .. } | Call::FetchMessage { .. } => Response::Found,
        Call::Say { .. } | Call::Reply { .. } => Response::Sent(70),
        Call::WebhookExecute { .. } | Call::WebhookEdit { .. } => Response::Sent(71),
        _ => Response::Done,
    }
}

fn text(message: Option<&str>, is_edit: bool) -> Message {
    threaded(message, is_edit, None)
}

fn threaded(
    message: Option<&str>,
    is_edit: bool,
    thread: Option<(Option<String>, Option<u64>)>,
) -> Message {
    Message::Text {
        sender: 1,
        pipo_id: 9,
        transport: "IRC".to_string(),
        username: "ann".to_string(),
        avatar_url: Some("http://pic".to_string()),
        thread,
        message: message.map(|m| m.to_string()),
        attachments: None,
        is_edit,
        irc_flag: false,
    }
}

fn say(channel: u64, content: &str) -> Call {
    Call::Say { channel, content: content.to_string() }
}

#[test]
fn a_text_without_a_webhook_is_said_under_a_heading() {
    assert_eq!(
        run(&mut discord(), PLAIN, text(Some("hi"), false), &fine),
        (
            vec![
                say(PLAIN, "**ann** [IRC]\nhi\n\n"),
                Call::SetDiscordId { pipo_id: 9, message: 70 },
            ],
            Ok(())
        )
    );
}

#[test]
fn a_text_with_a_webhook_goes_under_the_users_name() {
    let execute = || Call::WebhookExecute {
        webhook: 900,
        content: "hi\n".to_string(),
        username: "ann (IRC)".to_string(),
        avatar_url: Some("http://pic".to_string()),
    };
    assert_eq!(
        run(&mut discord(), HOOKED, text(Some("hi"), false), &fine),
        (
            vec![
                Call::Webhook { webhook: 900 },
                execute(),
                Call::SetDiscordId { pipo_id: 9, message: 71 },
            ],
            Ok(())
        )
    );
    let unusable = |call: &Call| match call {
        Call::WebhookExecute { .. } => failed("no"),
        call => fine(call),
    };
    assert_eq!(
        run(&mut discord(), HOOKED, text(Some("hi"), false), &unusable).0,
        vec![
            Call::Webhook { webhook: 900 },
            execute(),
            say(HOOKED, "**ann** [IRC]\nhi\n\n"),
            Call::SetDiscordId { pipo_id: 9, message: 70 },
        ]
    );
    let gone = |call: &Call| match call {
        Call::Webhook { .. } => failed("no"),
        call => fine(call),
    };
    assert_eq!(
        run(&mut discord(), HOOKED, text(Some("hi"), false), &gone).0[1],
        say(HOOKED, "**ann** [IRC]\nhi\n\n")
    );
}

#[test]
fn failures_end_the_relaying() {
    let mute = |call: &Call| match call {
        Call::Say { .. } => failed("mute"),
        call => fine(call),
    };
    assert_eq!(
        run(&mut discord(), PLAIN, text(Some("hi"), false), &mute).1,
        Err(BridgeError::Outside("mute".to_string()))
    );
    let forgetful = |call: &Call| match call {
        Call::SetDiscordId { .. } => failed("full"),
        call => fine(call),
    };
    assert_eq!(
        run(&mut discord(), PLAIN, text(Some("hi"), false), &forgetful).1,
        Err(BridgeError::Outside("full".to_string()))
    );
}

#[test]
fn an_edit_changes_the_message_that_is_known() {
    let edit = || Call::EditMessage {
        channel: PLAIN,
        message: 5009,
        content: "**ann** [IRC]\nhi\n\n".to_string(),
    };
    assert_eq!(
        run(&mut discord(), PLAIN, text(Some("hi"), true), &fine),
        (vec![Call::DiscordId { pipo_id: 9 }, edit()], Ok(()))
    );
    let hook_edit = || Call::WebhookEdit {
        webhook: 900,
        message: 5009,
        content: "hi\n".to_string(),
    };
    assert_eq!(
        run(&mut discord(), HOOKED, text(Some("hi"), true), &fine).0,
        vec![
            Call::DiscordId { pipo_id: 9 },
            Call::Webhook { webhook: 900 },
            hook_edit(),
            Call::SetDiscordId { pipo_id: 9, message: 71 },
        ]
    );
    let stubborn = |call: &Call| match call {
        Call::WebhookEdit { .. } => failed("no"),
        call => fine(call),
    };
    let (calls, outcome) = run(&mut discord(), HOOKED, text(Some("hi"), true), &stubborn);
    assert_eq!(calls[2], hook_edit());
    assert_eq!(
        calls[3],
        Call::EditMessage {
            channel: HOOKED,
            message: 5009,
            content: "**ann** [IRC]\nhi\n\n".to_string(),
        }
    );
    assert_eq!(outcome, Ok(()));
}

#[test]
fn an_edit_of_an_unknown_message_fails() {
    let unknown = |call: &Call| match call {
        Call::DiscordId { .. } => Response::DiscordId(None),
        call => fine(call),
    };
    assert_eq!(
        run(&mut discord(), PLAIN, text(Some("hi"), true), &unknown).1,
        Err(BridgeError::UnknownId(9))
    );
    let broken = |call: &Call| match call {
        Call::DiscordId { .. } => failed("locked"),
        call => fine(call),
    };
    assert_eq!(
        run(&mut discord(), PLAIN, text(Some("hi"), true), &broken).1,
        Err(BridgeError::Outside("locked".to_string()))
    );
}

#[test]
fn a_text_without_contents_is_not_relayed() {
    assert_eq!(
        run(&mut discord(), PLAIN, text(None, false), &fine),
        (vec![], Err(BridgeError::NoContents))
    );
}

fn attachment(pipo_id: Option<i64>, fallback: Option<&str>) -> Attachment {
    Attachment {
        id: 0,
        pipo_id,
        fallback: fallback.map(|f| f.to_string()),
        author_name: None,
        author_icon: None,
    }
}

fn attached(message: Option<&str>, list: Vec<Attachment>) -> Message {
    match text(message, false) {
        Message::Text {
            sender,
            pipo_id,
            transport,
            username,
            avatar_url,
            thread,
            message,
            is_edit,
            irc_flag,
            ..
        } => Message::Text {
            sender,
            pipo_id,
            transport,
            username,
            avatar_url,
            thread,
            message,
            attachments: Some(list),
            is_edit,
            irc_flag,
        },
        other => other,
    }
}

#[test]
fn an_attached_message_is_replied_to() {
    let list = vec![attachment(None, Some("skipped")), attachment(Some(3), Some("unused"))];
    assert_eq!(
        run(&mut discord(), HOOKED, attached(Some("yes"), list), &fine),
        (
            vec![
                Call::DiscordId { pipo_id: 3 },
                Call::FetchMessage { channel: HOOKED, message: 5003 },
                Call::Reply { channel: HOOKED, message: 5003, content: "yes\n".to_string() },
                Call::SetDiscordId { pipo_id: 3, message: 70 },
            ],
            Ok(())
        )
    );
}

#[test]
fn an_attached_message_that_cannot_be_had_is_quoted() {
    let lost = |call: &Call| match call {
        Call::DiscordId { pipo_id: 3 } => failed("locked"),
        Call::DiscordId { pipo_id: 4 } => Response::DiscordId(None),
        Call::FetchMessage { .. } => failed("gone"),
        call => fine(call),
    };
    let list = vec![
        attachment(Some(3), Some("hello @everyone")),
        attachment(Some(4), None),
        attachment(Some(5), Some("> twice")),
    ];
    let (calls, _) = run(&mut discord(), PLAIN, attached(None, list), &lost);
    assert_eq!(
        calls[4],
        say(
            PLAIN,
            "**ann** [IRC]\nAttachment:\n> hello @\u{200B}everyone\n>  twice\n\n"
        )
    );
    assert_eq!(calls.len(), 6);
    assert_eq!(
        run(&mut discord(), PLAIN, attached(None, vec![]), &lost).0[0],
        say(PLAIN, "**ann** [IRC]\nAttachment:\n\n")
    );
}

fn slack() -> Option<(Option<String>, Option<u64>)> {
    Some((Some("1618.1".to_string()), None))
}

#[test]
fn a_thread_on_slack_becomes_a_thread_on_discord() {
    let (calls, outcome) =
        run(&mut discord(), PLAIN, threaded(Some("hi"), false, slack()), &fine);
    assert_eq!(
        calls,
        vec![
            Call::DiscordIdOfSlack { slack_id: "1618.1".to_string() },
            Call::CreateThread {
                channel: PLAIN,
                message: 61,
                name: "hi".to_string(),
                archive_minutes: 1440,
            },
            say(62, "**ann** [IRC]\nhi\n\n"),
            Call::SetDiscordId { pipo_id: 9, message: 70 },
        ]
    );
    assert_eq!(outcome, Ok(()));
}

#[test]
fn a_thread_that_is_known_is_not_opened_again() {
    let known = |call: &Call| match call {
        Call::DiscordIdOfSlack { .. } => Response::DiscordId(Some(60)),
        call => fine(call),
    };
    let (calls, _) = run(&mut discord(), PLAIN, threaded(Some("hi"), false, slack()), &known);
    assert_eq!(calls[1], say(60, "**ann** [IRC]\nhi\n\n"));
    let exists = |call: &Call| match call {
        Call::CreateThread { .. } => Response::Failed(Failure {
            code: Some(160004),
            message: "exists".to_string(),
        }),
        call => fine(call),
    };
    let (calls, _) = run(&mut discord(), PLAIN, threaded(Some("hi"), false, slack()), &exists);
    assert_eq!(calls[2], say(61, "**ann** [IRC]\nhi\n\n"));
}

#[test]
fn a_text_whose_thread_cannot_be_opened_is_not_relayed() {
    for code in [None, Some(160005)] {
        let closed = move |call: &Call| match call {
            Call::CreateThread { .. } => {
                Response::Failed(Failure { code, message: "closed".to_string() })
            }
            call => fine(call),
        };
        assert_eq!(
            run(&mut discord(), PLAIN, threaded(Some("hi"), false, slack()), &closed).1,
            Err(BridgeError::NoThread)
        );
    }
}

#[test]
fn a_text_without_a_message_to_hang_on_stays_in_its_channel() {
    let unknown = |call: &Call| match call {
        Call::DiscordIdOfSlack { .. } => Response::DiscordId(None),
        call => fine(call),
    };
    let (calls, _) = run(&mut discord(), PLAIN, threaded(Some("hi"), false, slack()), &unknown);
    assert_eq!(calls[1], say(PLAIN, "**ann** [IRC]\nhi\n\n"));
    let broken = |call: &Call| match call {
        Call::DiscordIdOfSlack { .. } => failed("locked"),
        call => fine(call),
    };
    assert_eq!(
        run(&mut discord(), PLAIN, threaded(Some("hi"), false, slack()), &broken).1,
        Err(BridgeError::Outside("locked".to_string()))
    );
    let elsewhere = Some((None, Some(60)));
    let (calls, _) = run(&mut discord(), PLAIN, threaded(Some("hi"), false, elsewhere), &fine);
    assert_eq!(calls[0], say(PLAIN, "**ann** [IRC]\nhi\n\n"));
}

/// The name of the thread that is opened for a message, if one can be.
fn thread_name(message: &str) -> Option<String> {
    let mut discord = discord();
    let first = discord.dispatch(PLAIN, threaded(Some(message), false, slack()));
    let job = match first {
        Progress::Ask(_, job) => job,
        Progress::Done(_) => panic!("nothing was asked for"),
    };
    let response = Response::DiscordId(Some(61));
    if !job.accepts(&discord.registry, &response) {
        return None;
    }
    match discord.resume(job, response) {
        Progress::Ask(Call::CreateThread { name, .. }, _) => Some(name),
        _ => panic!("no thread was asked for"),
    }
}

#[test]
fn threads_are_named_after_their_message() {
    assert_eq!(thread_name("").unwrap(), "!");
    assert_eq!(thread_name("a").unwrap(), "a!");
    assert_eq!(thread_name("ab").unwrap(), "ab");
    assert_eq!(thread_name("\u{e9}").unwrap(), "\u{e9}");
    assert_eq!(thread_name(&"a".repeat(200)).unwrap(), "a".repeat(200));
    assert_eq!(thread_name(&"a".repeat(201)).unwrap(), "a".repeat(200));
    assert_eq!(thread_name(&"\u{e9}".repeat(150)).unwrap(), "\u{e9}".repeat(100));
    assert_eq!(thread_name(&format!("a{}", "\u{e9}".repeat(150))), None);
    assert_eq!(
        thread_name(&format!("{}\u{e9}", "a".repeat(198))).unwrap(),
        format!("{}\u{e9}", "a".repeat(198))
    );
    let list = vec![attachment(Some(3), None)];
    let message = match attached(None, list) {
        Message::Text { sender, pipo_id, transport, username, avatar_url, attachments, .. } => {
            Message::Text {
                sender,
                pipo_id,
                transport,
                username,
                avatar_url,
                thread: slack(),
                message: None,
                attachments,
                is_edit: false,
                irc_flag: false,
            }
        }
        other => other,
    };
    let (calls, _) = run(&mut discord(), PLAIN, message, &fine);
    assert!(matches!(&calls[1], Call::CreateThread { name, .. } if name == "New Thread"));
}

fn action(message: Option<&str>, is_edit: bool) -> Message {
    Message::Action {
        sender: 1,
        pipo_id: 9,
        transport: "IRC".to_string(),
        username: "ann".to_string(),
        avatar_url: None,
        thread: slack(),
        message: message.map(|m| m.to_string()),
        attachments: None,
        is_edit,
        irc_flag: false,
    }
}

#[test]
fn actions_are_set_in_italics() {
    assert_eq!(
        run(&mut discord(), HOOKED, action(Some("waves"), false), &fine).0,
        vec![
            say(HOOKED, "**ann** [IRC]\n_waves_"),
            Call::SetDiscordId { pipo_id: 9, message: 70 },
        ]
    );
    assert_eq!(
        run(&mut discord(), HOOKED, action(Some("waves"), true), &fine).0,
        vec![
            Call::DiscordId { pipo_id: 9 },
            Call::EditMessage {
                channel: HOOKED,
                message: 5009,
                content: "**ann** [IRC]\n_waves_".to_string(),
            },
        ]
    );
    assert_eq!(
        run(&mut discord(), HOOKED, action(None, false), &fine),
        (vec![], Err(BridgeError::EmptyMessage))
    );
    let unknown = |_: &Call| Response::DiscordId(None);
    assert_eq!(
        run(&mut discord(), HOOKED, action(Some("waves"), true), &unknown).1,
        Err(BridgeError::UnknownId(9))
    );
}

fn delete() -> Message {
    Message::Delete { sender: 1, pipo_id: 9, transport: "IRC".to_string() }
}

#[test]
fn messages_are_deleted_the_way_they_were_posted() {
    let find = || Call::DiscordId { pipo_id: 9 };
    let hook = || Call::Webhook { webhook: 900 };
    let plain = |channel| Call::DeleteMessage { channel, message: 5009 };
    assert_eq!(run(&mut discord(), PLAIN, delete(), &fine).0, vec![find(), plain(PLAIN)]);
    assert_eq!(
        run(&mut discord(), HOOKED, delete(), &fine).0,
        vec![find(), hook(), Call::WebhookDelete { webhook: 900, message: 5009 }]
    );
    let gone = |call: &Call| match call {
        Call::Webhook { .. } => failed("no"),
        call => fine(call),
    };
    assert_eq!(
        run(&mut discord(), HOOKED, delete(), &gone).0,
        vec![find(), hook(), plain(HOOKED)]
    );
    let unknown = |_: &Call| Response::DiscordId(None);
    assert_eq!(
        run(&mut discord(), HOOKED, delete(), &unknown).1,
        Err(BridgeError::NoMessage)
    );
}

#[test]
fn messages_are_pinned_and_unpinned() {
    let pin = |remove| Message::Pin { sender: 1, pipo_id: 9, remove };
    assert_eq!(
        run(&mut discord(), PLAIN, pin(false), &fine).0[1],
        Call::Pin { channel: PLAIN, message: 5009 }
    );
    assert_eq!(
        run(&mut discord(), PLAIN, pin(true), &fine).0[1],
        Call::Unpin { channel: PLAIN, message: 5009 }
    );
    let unknown = |_: &Call| Response::DiscordId(None);
    assert_eq!(
        run(&mut discord(), PLAIN, pin(true), &unknown).1,
        Err(BridgeError::NoMessage)
    );
}

fn reaction(emoji: &str, remove: bool) -> Message {
    Message::Reaction {
        sender: 1,
        pipo_id: 9,
        transport: "IRC".to_string(),
        emoji: emoji.to_string(),
        remove,
        username: None,
        avatar_url: None,
        thread: None,
    }
}

#[test]
fn reactions_with_emojis_of_unicode() {
    for name in ["rocket", "\u{1f680}"] {
        assert_eq!(
            run(&mut discord(), PLAIN, reaction(name, false), &fine).0,
            vec![
                Call::DiscordId { pipo_id: 9 },
                Call::CreateReaction {
                    channel: PLAIN,
                    message: 5009,
                    emoji: ReactionType::Unicode("\u{1f680}".to_string()),
                },
            ]
        );
    }
}

#[test]
fn the_guilds_emojis_are_asked_for_once() {
    let mut discord = discord();
    let party = || ReactionType::Custom { animated: true, id: 2, name: "party".to_string() };
    assert_eq!(
        run(&mut discord, PLAIN, reaction("party", false), &fine).0,
        vec![
            Call::GuildEmojis,
            Call::DiscordId { pipo_id: 9 },
            Call::CreateReaction { channel: PLAIN, message: 5009, emoji: party() },
        ]
    );
    assert_eq!(
        run(&mut discord, PLAIN, reaction("party", true), &fine).0,
        vec![
            Call::DiscordId { pipo_id: 9 },
            Call::DeleteReaction { channel: PLAIN, message: 5009, emoji: party() },
        ]
    );
    assert_eq!(
        run(&mut discord, PLAIN, reaction("unheard_of", false), &fine),
        (vec![Call::GuildEmojis], Err(BridgeError::UnknownEmoji))
    );
    let emptied = |call: &Call| match call {
        Call::GuildEmojis => Response::Emojis(vec![]),
        call => fine(call),
    };
    run(&mut discord, PLAIN, reaction("unheard_of", false), &emptied);
    assert_eq!(
        run(&mut discord, PLAIN, reaction("party", false), &|_| failed("no")).1,
        Err(BridgeError::Outside("no".to_string()))
    );
    let unknown = |call: &Call| match call {
        Call::DiscordId { .. } => Response::DiscordId(None),
        call => fine(call),
    };
    assert_eq!(
        run(&mut discord, PLAIN, reaction("party", false), &unknown).1,
        Err(BridgeError::NoMessage)
    );
}

#[test]
fn a_reaction_prefers_the_emoji_that_was_found() {
    let mut discord = discord();
    run(&mut discord, PLAIN, reaction("party", false), &fine);
    let unicode = || Some("\u{1f389}".to_string());
    for (found, emoji) in [
        (unicode(), ReactionType::Unicode("\u{1f389}".to_string())),
        (None, ReactionType::Custom { animated: true, id: 2, name: "party".to_string() }),
    ] {
        match discord.react_with_found(PLAIN, 9, "party".to_string(), found, true) {
            Progress::Ask(call, job) => {
                assert_eq!(call, Call::DiscordId { pipo_id: 9 });
                assert_eq!(job, Job::ReactionId { channel: PLAIN, emoji, remove: true });
            }
            Progress::Done(_) => panic!("nothing was asked for"),
        }
    }
    match discord.react_with_found(PLAIN, 9, "new".to_string(), None, false) {
        Progress::Ask(call, _) => assert_eq!(call, Call::GuildEmojis),
        Progress::Done(_) => panic!("nothing was asked for"),
    }
}

#[test]
fn a_text_goes_on_behind_what_was_quoted() {
    let discord = discord();
    let text = |attachments| TextMessage {
        channel: PLAIN,
        pipo_id: 9,
        transport: "IRC".to_string(),
        username: "ann".to_string(),
        avatar_url: None,
        message: None,
        attachments,
        is_edit: false,
    };
    let list = vec![attachment(Some(3), None), attachment(None, None), attachment(Some(5), None)];
    let quoted = || "> safe\n".to_string();
    match attach_from(&discord.registry, text(Some(list)), quoted(), 1) {
        Progress::Ask(call, _) => assert_eq!(call, Call::DiscordId { pipo_id: 5 }),
        Progress::Done(_) => panic!("nothing was asked for"),
    }
    match attach_from(&discord.registry, text(None), quoted(), 0) {
        Progress::Ask(call, _) => assert_eq!(call, say(PLAIN, "**ann** [IRC]\n> safe\n\n")),
        Progress::Done(_) => panic!("nothing was asked for"),
    }
}

#[test]
fn own_messages_are_passed_over() {
    let mut discord = discord();
    for message in [
        text(Some("hi"), false),
        action(Some("waves"), false),
        delete(),
        Message::Pin { sender: 1, pipo_id: 9, remove: false },
        reaction("rocket", false),
    ] {
        discord.transport_id = 1;
        assert_eq!(run(&mut discord, PLAIN, message.clone(), &fine), (vec![], Ok(())));
        discord.transport_id = TRANSPORT;
        assert_ne!(run(&mut discord, PLAIN, message, &fine).0, vec![]);
    }
}

#[test]
fn bots_and_names_are_passed_over() {
    let bot = Message::Bot {
        sender: 1,
        pipo_id: 9,
        transport: "IRC".to_string(),
        message: Some("beep".to_string()),
        attachments: None,
        is_edit: false,
    };
    let names = Message::Names {
        sender: 1,
        transport: "IRC".to_string(),
        username: "ann".to_string(),
        message: None,
    };
    for message in [bot, names] {
        assert_eq!(run(&mut discord(), PLAIN, message, &fine), (vec![], Ok(())));
    }
}

#[test]
fn the_transport_follows_the_channels_with_a_bus() {
    let mapping = vec![
        ("10".to_string(), "main".to_string()),
        ("20".to_string(), "side".to_string()),
        ("30".to_string(), "nowhere".to_string()),
    ];
    let buses = vec!["main".to_string(), "side".to_string()];
    let discord = Discord::new(TRANSPORT, &buses, "token".to_string(), 77, &mapping).unwrap();
    assert_eq!(discord.registry.webhook_of(HOOKED), None);
    let connection = discord.connect();
    assert_eq!(connection.handler.transport_id, TRANSPORT);
    assert!(connection.handler.pins.is_empty());
    let mut subscriptions = connection.subscriptions;
    subscriptions.sort();
    assert_eq!(
        subscriptions,
        vec![(HOOKED, "main".to_string()), (PLAIN, "side".to_string())]
    );
    assert_eq!((discord.token.as_str(), discord.guild), ("token", 77));
}

#[test]
fn of_two_entries_for_a_channel_the_later_counts() {
    let mapping = vec![
        ("7".to_string(), "a".to_string()),
        ("+007".to_string(), "b".to_string()),
        ("no number".to_string(), "c".to_string()),
    ];
    let buses = vec!["a".to_string(), "b".to_string()];
    let discord = Discord::new(0, &buses, String::new(), 1, &mapping).unwrap();
    assert_eq!(discord.connect().subscriptions, vec![(7, "b".to_string())]);
}

#[test]
fn jobs_take_the_responses_that_they_wait_for() {
    let registry = discord().registry;
    assert!(Job::Last.accepts(&registry, &Response::Done));
    assert!(Job::Last.accepts(&registry, &failed("no")));
    assert!(!Job::Last.accepts(&registry, &Response::Found));
    assert!(!Job::Posted { pipo_id: 1 }.accepts(&registry, &Response::Done));
    assert!(!Job::DeleteId { channel: 1 }.accepts(&registry, &Response::Sent(1)));
}

#[test]
fn bridge_errors_have_texts() {
    assert_eq!(BridgeError::Outside("why".to_string()).message(), "why");
    assert_eq!(BridgeError::EmptyMessage.message(), "Message is empty");
    assert_eq!(BridgeError::NoContents.message(), "Message has no contents");
    assert_eq!(BridgeError::UnknownId(42).message(), "Could find discordid for id: 42");
    assert_eq!(BridgeError::UnknownId(-7).message(), "Could find discordid for id: -7");
    assert_eq!(BridgeError::NoMessage.message(), "No message for associated id");
    assert_eq!(BridgeError::UnknownEmoji.message(), "Couldn't find emoji");
    assert_eq!(BridgeError::NoThread.message(), "I don't know");
    assert_eq!(BridgeError::Closed.message(), "ups");
}
