//! What Discord's events put on the buses.

use pipo_discord::content::{Answer, ContentError, Lookup};
use pipo_discord::handler::RealHandler;
use pipo_discord::inbound::{
    ChannelKind, GuildStatus, Member, MessageEdit, MessageKind, NewGuild, NewMessage, NewThread,
    Outgoing, Query, ReactionEmoji, ReactionEvent, Referenced, Reply, Step, User, WebhookInfo,
};
use pipo_discord::message::{counter_after, next_pipo_id, Attachment, Message, MAX_PIPO_ID};
use pipo_discord::posts::quote_line;
use pipo_discord::registry::{HandlerChannel, Registry, ThreadInfo};
use std::collections::{HashMap, HashSet};

const TRANSPORT: usize = 4;

/// 20 June 2021, 16:20:30.
const NOW: i64 = 1624206030;

const CHANNEL: u64 = 10;
const OTHER: u64 = 20;
const THREAD: u64 = 11;

fn registry() -> Registry {
    let mut channels = HashMap::new();
    channels.insert(CHANNEL, HandlerChannel { bus: "main".to_string(), webhook: Some(900) });
    channels.insert(OTHER, HandlerChannel { bus: "side".to_string(), webhook: None });
    let mut registry = Registry::new(channels);
    registry.follow_threads(&vec![ThreadInfo { id: THREAD, parent: Some(CHANNEL) }]);
    registry
}

/// Handles an event to its end. Gives what was put on the buses, and what was asked for.
fn run(
    handler: &mut RealHandler,
    registry: &mut Registry,
    mut step: Step,
    reply: &dyn Fn(&Query) -> Reply,
) -> (Vec<Outgoing>, Vec<Query>) {
    let mut sent = Vec::new();
    let mut asked = Vec::new();
    loop {
        if let Some(out) = step.send {
            sent.push(out);
        }
        match step.next {
            None => return (sent, asked),
            Some((query, task)) => {
                let reply = reply(&query);
                asked.push(query);
                assert!(task.accepts(&reply));
                step = handler.resume(registry, task, reply);
            }
        }
    }
}

/// Everything exists and goes well.
fn fine(query: &Query) -> Reply {
    match query {
        Query::CurrentUser => Reply::CurrentUser(1),
        Query::Channel { .. } => Reply::Channel(ChannelKind::Guild("general".to_string())),
        Query::InsertMessage { message } => Reply::PipoId(*message as i64 + 1000),
        Query::PipoId { message } => Reply::PipoId(*message as i64 + 1000),
        Query::Message { .. } => Reply::Message {
            secs: 1618953630,
            author: "bob".to_string(),
            content: "earlier".to_string(),
        },
        Query::Lookup(Lookup::User { user }) => {
            Reply::Lookup(Answer::User(format!("user{}", user)))
        }
        Query::CreateWebhook { .. } => Reply::WebhookCreated,
        _ => Reply::Failed,
    }
}

fn ann() -> User {
    User { name: "ann".to_string(), avatar_url: Some("http://pic".to_string()) }
}

fn message(content: &str) -> NewMessage {
    NewMessage {
        id: 50,
        channel: CHANNEL,
        guild: Some(77),
        author: ann(),
        bot: false,
        kind: MessageKind::Regular,
        content: content.to_string(),
        attachments: vec![],
        reply: None,
    }
}

fn relay(msg: NewMessage, reply: &dyn Fn(&Query) -> Reply) -> (Vec<Outgoing>, Vec<Query>) {
    let mut handler = RealHandler::new(TRANSPORT);
    let step = handler.message(msg, NOW);
    run(&mut handler, &mut registry(), step, reply)
}

fn text(content: &str) -> Message {
    Message::Text {
        sender: TRANSPORT,
        pipo_id: 1050,
        transport: "Discord".to_string(),
        username: "ann".to_string(),
        avatar_url: Some("http://pic".to_string()),
        thread: None,
        message: Some(content.to_string()),
        attachments: None,
        is_edit: false,
        irc_flag: false,
    }
}

fn on_main(message: Message) -> Vec<Outgoing> {
    vec![Outgoing { bus: "main".to_string(), message }]
}

#[test]
fn a_message_becomes_a_text() {
    let (sent, asked) = relay(message("hi <@5>"), &fine);
    assert_eq!(sent, on_main(text("hi @user5")));
    assert_eq!(
        asked,
        vec![
            Query::Channel { channel: CHANNEL },
            Query::InsertMessage { message: 50 },
            Query::Lookup(Lookup::User { user: 5 }),
        ]
    );
}

#[test]
fn content_that_cannot_be_read_is_relayed_as_it_is() {
    let (sent, _) = relay(message("<@5> <z>"), &fine);
    assert_eq!(sent, on_main(text("<@5> <z>")));
}

#[test]
fn the_step_that_finds_a_content_unreadable_says_why() {
    for (content, unread) in [("<z>", Some(ContentError::InvalidTag)), ("hi", None)] {
        let mut handler = RealHandler::new(TRANSPORT);
        let mut registry = registry();
        let (_, task) = handler.message(message(content), NOW).next.unwrap();
        let reply = Reply::Channel(ChannelKind::Guild("general".to_string()));
        let step = handler.resume(&mut registry, task, reply);
        assert_eq!(step.unread, None);
        let (_, task) = step.next.unwrap();
        let step = handler.resume(&mut registry, task, Reply::PipoId(1));
        assert_eq!(step.unread, unread);
        assert!(step.send.is_some());
    }
}

#[test]
fn times_are_told_by_the_clock_of_the_event() {
    let (sent, _) = relay(message("<t:1618935630:R>"), &fine);
    assert_eq!(sent, on_main(text("2 months ago")));
    assert!(matches!(
        &relay_edit(edit(Some("<@5>: <t:1618935630:R>"))).0[0].message,
        Message::Text { message: Some(text), .. } if text == "@user5: 2 months ago"
    ));
}

#[test]
fn attachments_follow_on_lines_of_their_own() {
    let mut msg = message("look");
    msg.attachments = vec!["http://a".to_string(), "http://b".to_string()];
    let (sent, _) = relay(msg, &fine);
    assert_eq!(sent, on_main(text("look\nhttp://a\nhttp://b")));
}

#[test]
fn an_escaped_asterisk_marks_an_action() {
    let action = |body: &str| Message::Action {
        sender: TRANSPORT,
        pipo_id: 1050,
        transport: "Discord".to_string(),
        username: "ann".to_string(),
        avatar_url: Some("http://pic".to_string()),
        thread: None,
        message: Some(body.to_string()),
        attachments: None,
        is_edit: false,
        irc_flag: false,
    };
    assert_eq!(relay(message("\\*waves*"), &fine).0, on_main(action("waves")));
    assert_eq!(relay(message("\\*waves\\*"), &fine).0, on_main(action("waves\\")));
    assert_eq!(relay(message("\\*x*"), &fine).0, on_main(action("x")));
    for content in ["\\**", "*waves*", "\\*waves", "\\*a\nb*", "\\*waves*\n", ""] {
        assert_eq!(relay(message(content), &fine).0, on_main(text(content)));
    }
}

#[test]
fn messages_in_threads_name_their_thread() {
    let mut msg = message("hi");
    msg.channel = THREAD;
    let (sent, _) = relay(msg, &fine);
    assert_eq!(sent.len(), 1);
    assert_eq!(sent[0].bus, "main");
    assert!(matches!(
        &sent[0].message,
        Message::Text { thread: Some((None, Some(THREAD))), .. }
    ));
}

#[test]
fn bots_and_notices_are_not_relayed() {
    let mut msg = message("hi");
    msg.bot = true;
    assert_eq!(relay(msg, &fine), (vec![], vec![]));
    let mut msg = message("hi");
    msg.kind = MessageKind::Other;
    assert_eq!(relay(msg, &fine), (vec![], vec![]));
    let mut msg = message("hi");
    msg.kind = MessageKind::InlineReply;
    assert_eq!(relay(msg, &fine).0, on_main(text("hi")));
}

#[test]
fn messages_from_elsewhere_are_not_relayed() {
    let mut msg = message("hi");
    msg.channel = 12;
    assert_eq!(relay(msg, &fine).0, vec![]);
    assert_eq!(relay(message("hi"), &|_| Reply::Channel(ChannelKind::Other)).0, vec![]);
    assert_eq!(relay(message("hi"), &|_| Reply::Failed).0, vec![]);
    let unnumbered = |query: &Query| match query {
        Query::InsertMessage { .. } => Reply::Failed,
        _ => fine(query),
    };
    assert_eq!(relay(message("hi"), &unnumbered).0, vec![]);
}

fn reply_to(nick: Option<&str>) -> NewMessage {
    let mut msg = message("yes");
    msg.kind = MessageKind::InlineReply;
    msg.reply = Some(Referenced {
        id: 40,
        author: User { name: "bob".to_string(), avatar_url: Some("http://bob".to_string()) },
        member: Some(Member { nick: nick.map(|n| n.to_string()), user: None }),
    });
    msg
}

#[test]
fn a_reply_quotes_what_it_replies_to() {
    let (sent, asked) = relay(reply_to(Some("Bobby")), &fine);
    let quote = Attachment {
        id: 0,
        pipo_id: Some(1040),
        fallback: Some("[April 20, 2021  9:20 PM] bob: earlier".to_string()),
        author_name: Some("Bobby (Discord)".to_string()),
        author_icon: Some("http://bob".to_string()),
    };
    assert!(matches!(
        &sent[0].message,
        Message::Text { attachments: Some(list), .. } if *list == vec![quote]
    ));
    assert_eq!(asked[2], Query::PipoId { message: 40 });
    assert_eq!(asked[3], Query::Message { channel: CHANNEL, message: 40 });
}

#[test]
fn a_reply_is_relayed_without_the_text_that_cannot_be_had() {
    let lost = |query: &Query| match query {
        Query::Message { .. } => Reply::Failed,
        _ => fine(query),
    };
    let (sent, _) = relay(reply_to(None), &lost);
    assert!(matches!(
        &sent[0].message,
        Message::Text { attachments: Some(list), .. }
            if list[0].fallback.is_none()
                && list[0].author_name == Some("bob (Discord)".to_string())
    ));
    let unknown = |query: &Query| match query {
        Query::PipoId { .. } => Reply::Failed,
        _ => fine(query),
    };
    assert_eq!(relay(reply_to(None), &unknown).0, vec![]);
}

#[test]
fn a_quote_says_when_and_by_whom() {
    assert_eq!(quote_line("noon", "bob", "hi: there"), "[noon] bob: hi: there");
}

fn edit(content: Option<&str>) -> MessageEdit {
    MessageEdit {
        id: 50,
        channel: CHANNEL,
        guild: Some(77),
        author: Some((ann(), false)),
        content: content.map(|c| c.to_string()),
        attachments: None,
    }
}

fn relay_edit(edit: MessageEdit) -> (Vec<Outgoing>, Vec<Query>) {
    let mut handler = RealHandler::new(TRANSPORT);
    let step = handler.message_update(edit, NOW);
    run(&mut handler, &mut registry(), step, &fine)
}

#[test]
fn an_edit_keeps_the_id_of_its_message() {
    let (sent, asked) = relay_edit(edit(Some("fixed")));
    assert!(matches!(
        &sent[0].message,
        Message::Text { pipo_id: 1050, is_edit: true, irc_flag: true, message: Some(text), .. }
            if text == "fixed"
    ));
    assert_eq!(asked[1], Query::PipoId { message: 50 });
    let mut pictured = edit(Some("fixed"));
    pictured.attachments = Some(vec!["http://a".to_string()]);
    assert!(matches!(
        &relay_edit(pictured).0[0].message,
        Message::Text { message: Some(text), .. } if text == "fixed\nhttp://a"
    ));
}

#[test]
fn edits_without_author_or_content_are_not_relayed() {
    let mut anonymous = edit(Some("fixed"));
    anonymous.author = None;
    assert_eq!(relay_edit(anonymous), (vec![], vec![]));
    let mut automatic = edit(Some("fixed"));
    automatic.author = Some((ann(), true));
    assert_eq!(relay_edit(automatic), (vec![], vec![]));
    assert_eq!(relay_edit(edit(None)).0, vec![]);
}

#[test]
fn contents_that_cannot_be_read_safely_are_told_beforehand() {
    let handler = RealHandler::new(TRANSPORT);
    let mut registry = registry();
    let guildless = NewMessage { guild: None, ..message("hi") };
    let late = message("<t:8210266876800:t>");
    for (msg, now, accepted) in [
        (guildless, NOW, false),
        (late, NOW, false),
        (message("hi"), NOW, true),
        (message("hi"), -8334601228801, false),
        (message("hi"), 8210266876800, false),
    ] {
        let (_, task) = handler.message(msg, now).next.unwrap();
        let reply = Reply::Channel(ChannelKind::Guild("general".to_string()));
        let mut handler = RealHandler::new(TRANSPORT);
        let (_, task) = handler.resume(&mut registry, task, reply).next.unwrap();
        assert_eq!(task.accepts(&Reply::PipoId(3)), accepted);
        assert!(task.accepts(&Reply::Failed));
    }
}

#[test]
fn deletions_are_told_in_order() {
    let mut handler = RealHandler::new(TRANSPORT);
    let step = handler.message_delete_bulk(CHANNEL, vec![1, 2, 3]);
    let partly = |query: &Query| match query {
        Query::PipoId { message: 2 } => Reply::Failed,
        _ => fine(query),
    };
    let (sent, _) = run(&mut handler, &mut registry(), step, &partly);
    let delete = |pipo_id| Outgoing {
        bus: "main".to_string(),
        message: Message::Delete {
            sender: TRANSPORT,
            pipo_id,
            transport: "Discord".to_string(),
        },
    };
    assert_eq!(sent, vec![delete(1001), delete(1003)]);
    let step = handler.message_delete(CHANNEL, 9);
    let (sent, _) = run(&mut handler, &mut registry(), step, &fine);
    assert_eq!(sent, vec![delete(1009)]);
    let step = handler.message_delete(12, 9);
    assert_eq!(run(&mut handler, &mut registry(), step, &fine).0, vec![]);
}

fn reaction(user: u64) -> ReactionEvent {
    ReactionEvent {
        user: Some(user),
        channel: CHANNEL,
        message: 50,
        member: Some(Member { nick: None, user: Some(ann()) }),
        emoji: ReactionEmoji::Unicode("\u{1f680}".to_string()),
    }
}

#[test]
fn reactions_are_told_both_ways() {
    let mut handler = RealHandler::new(TRANSPORT);
    for remove in [false, true] {
        let step = if remove {
            handler.reaction_remove(reaction(2))
        } else {
            handler.reaction_add(reaction(2))
        };
        let (sent, _) = run(&mut handler, &mut registry(), step, &fine);
        assert_eq!(
            sent,
            on_main(Message::Reaction {
                sender: TRANSPORT,
                pipo_id: 1050,
                transport: "Discord".to_string(),
                emoji: "\u{1f680}".to_string(),
                remove,
                username: Some("ann".to_string()),
                avatar_url: Some("http://pic".to_string()),
                thread: None,
            })
        );
    }
}

#[test]
fn own_reactions_are_not_told() {
    let mut handler = RealHandler::new(TRANSPORT);
    let step = handler.reaction_add(reaction(1));
    assert_eq!(
        run(&mut handler, &mut registry(), step, &fine),
        (vec![], vec![Query::CurrentUser])
    );
    let (_, task) = handler.reaction_add(reaction(1)).next.unwrap();
    assert!(!task.accepts(&Reply::Failed));
}

#[test]
fn reactions_are_told_by_nickname_and_name_of_the_emoji() {
    let mut handler = RealHandler::new(TRANSPORT);
    let mut event = reaction(2);
    event.member = Some(Member { nick: Some("Annie".to_string()), user: None });
    event.emoji = ReactionEmoji::Custom(Some("party".to_string()));
    let step = handler.reaction_add(event);
    let (sent, _) = run(&mut handler, &mut registry(), step, &fine);
    assert!(matches!(
        &sent[0].message,
        Message::Reaction { emoji, username: Some(name), avatar_url: None, .. }
            if emoji == "party" && name == "Annie"
    ));
    for emoji in [ReactionEmoji::Custom(None), ReactionEmoji::Other] {
        let step = handler.reaction_add(ReactionEvent { emoji, ..reaction(2) });
        assert_eq!(run(&mut handler, &mut registry(), step, &fine).0, vec![]);
    }
}

fn pins_of(list: Vec<u64>) -> impl Fn(&Query) -> Reply {
    move |query: &Query| match query {
        Query::Pins { .. } => Reply::Pins(list.clone()),
        Query::PipoId { message: 3 } => Reply::Failed,
        _ => fine(query),
    }
}

#[test]
fn pins_are_told_when_they_change() {
    let mut handler = RealHandler::new(TRANSPORT);
    let mut registry = registry();
    let pin = |pipo_id, remove| Outgoing {
        bus: "main".to_string(),
        message: Message::Pin { sender: TRANSPORT, pipo_id, remove },
    };
    let step = handler.channel_pins_update(&registry, CHANNEL);
    let (sent, _) = run(&mut handler, &mut registry, step, &pins_of(vec![1, 3]));
    assert_eq!(sent, vec![pin(1001, false)]);
    assert_eq!(handler.pins, HashSet::from([1, 3]));

    let step = handler.channel_pins_update(&registry, THREAD);
    let (sent, asked) = run(&mut handler, &mut registry, step, &pins_of(vec![3, 1, 1]));
    assert_eq!((sent, asked), (vec![], vec![Query::Pins { channel: THREAD }]));

    let step = handler.channel_pins_update(&registry, CHANNEL);
    let (sent, _) = run(&mut handler, &mut registry, step, &pins_of(vec![2]));
    assert_eq!(sent, vec![pin(1001, true), pin(1002, false)]);
    assert_eq!(handler.pins, HashSet::from([2]));

    let step = handler.channel_pins_update(&registry, CHANNEL);
    let (sent, _) = run(&mut handler, &mut registry, step, &|_| Reply::Failed);
    assert_eq!(sent, vec![]);
    assert_eq!(handler.pins, HashSet::from([2]));
    assert!(handler.channel_pins_update(&registry, 12).next.is_none());
}

#[test]
fn a_guild_brings_its_threads() {
    let mut handler = RealHandler::new(TRANSPORT);
    let mut registry = registry();
    let guild = NewGuild {
        id: 77,
        threads: vec![
            ThreadInfo { id: 30, parent: Some(OTHER) },
            ThreadInfo { id: 31, parent: Some(12) },
            ThreadInfo { id: 32, parent: None },
        ],
    };
    let webhooks = |query: &Query| match query {
        Query::Webhooks { guild: 77 } => Reply::Webhooks(vec![
            WebhookInfo { channel: 12, name: Some("PIPO general".to_string()) },
            WebhookInfo { channel: CHANNEL, name: Some("another".to_string()) },
            WebhookInfo { channel: CHANNEL, name: None },
        ]),
        _ => fine(query),
    };
    let step = handler.guild_create(guild);
    let (sent, asked) = run(&mut handler, &mut registry, step, &webhooks);
    assert_eq!(sent, vec![]);
    assert_eq!(
        asked,
        vec![
            Query::Webhooks { guild: 77 },
            Query::Channel { channel: CHANNEL },
            Query::Channel { channel: OTHER },
        ]
    );
    assert_eq!(*registry.known_threads(), HashMap::from([(THREAD, CHANNEL), (30, OTHER)]));
    assert_eq!(registry.webhook_of(CHANNEL), Some(900));
}

#[test]
fn a_webhook_of_the_bridges_own_is_let_go() {
    let mut handler = RealHandler::new(TRANSPORT);
    let mut registry = registry();
    let webhooks = |query: &Query| match query {
        Query::Webhooks { .. } => Reply::Webhooks(vec![WebhookInfo {
            channel: CHANNEL,
            name: Some("PIPO general".to_string()),
        }]),
        _ => fine(query),
    };
    let step = handler.guild_create(NewGuild { id: 77, threads: vec![] });
    let (_, asked) = run(&mut handler, &mut registry, step, &webhooks);
    assert_eq!(registry.webhook_of(CHANNEL), None);
    assert_eq!(
        registry.get_sender_and_thread(CHANNEL, &mut None),
        Some("main".to_string())
    );
    assert_eq!(asked.len(), 4);
    let step = handler.guild_create(NewGuild {
        id: 77,
        threads: vec![ThreadInfo { id: 30, parent: Some(OTHER) }],
    });
    run(&mut handler, &mut registry, step, &|_| Reply::Failed);
    assert_eq!(*registry.known_threads(), HashMap::from([(THREAD, CHANNEL)]));
}

#[test]
fn new_threads_of_followed_channels_are_followed() {
    let mut handler = RealHandler::new(TRANSPORT);
    let followed = registry();
    let thread = |parent| NewThread { id: 30, parent, name: "topic".to_string() };
    for parent in [None, Some(12), Some(THREAD)] {
        assert!(handler.thread_create(&followed, thread(parent)).next.is_none());
    }
    for reply in [fine, |_: &Query| Reply::Failed] {
        let mut registry = registry();
        let step = handler.thread_create(&registry, thread(Some(OTHER)));
        let (_, asked) = run(&mut handler, &mut registry, step, &reply);
        assert_eq!(
            asked,
            vec![Query::CreateWebhook { channel: 30, name: "topic".to_string() }]
        );
        assert_eq!(*registry.known_threads(), HashMap::from([(THREAD, CHANNEL), (30, OTHER)]));
    }
}

#[test]
fn threads_of_guilds_online_are_followed() {
    let handler = RealHandler::new(TRANSPORT);
    let mut registry = registry();
    let guilds = vec![
        GuildStatus::Other,
        GuildStatus::Online(vec![
            ThreadInfo { id: 30, parent: Some(OTHER) },
            ThreadInfo { id: 31, parent: Some(12) },
        ]),
        GuildStatus::Online(vec![ThreadInfo { id: 30, parent: Some(CHANNEL) }]),
    ];
    for _ in 0..2 {
        handler.ready(&mut registry, &guilds);
        assert_eq!(*registry.known_threads(), HashMap::from([(THREAD, CHANNEL), (30, CHANNEL)]));
    }
}

#[test]
fn routes_lead_to_the_bus_of_a_channel_or_of_its_parent() {
    let registry = registry();
    let mut thread = None;
    assert_eq!(
        registry.get_sender_and_thread(CHANNEL, &mut thread),
        Some("main".to_string())
    );
    assert_eq!(thread, None);
    assert_eq!(
        registry.get_sender_and_thread(THREAD, &mut thread),
        Some("main".to_string())
    );
    assert_eq!(thread, Some((None, Some(THREAD))));
    assert_eq!(registry.get_sender_and_thread(12, &mut thread), None);
    assert_eq!(registry.unhooked(), vec![OTHER]);
    assert!(registry.follows(CHANNEL) && !registry.follows(THREAD));
}

#[test]
fn ids_of_the_bridge_come_round() {
    assert_eq!(next_pipo_id(0), 1);
    assert_eq!(next_pipo_id(MAX_PIPO_ID - 1), MAX_PIPO_ID);
    assert_eq!(next_pipo_id(MAX_PIPO_ID), 0);
    assert_eq!(next_pipo_id(50000), 0);
    assert_eq!(MAX_PIPO_ID, 40000);
    assert_eq!(counter_after(5, true), 6);
    assert_eq!(counter_after(MAX_PIPO_ID, true), 0);
    assert_eq!(counter_after(5, false), 5);
    assert_eq!(counter_after(i64::MAX, false), i64::MAX);
    let mut id = 7;
    for _ in 0..MAX_PIPO_ID {
        id = next_pipo_id(id);
        assert_ne!(id, 7);
    }
    assert_eq!(next_pipo_id(id), 7);
}
