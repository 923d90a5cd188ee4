//! Both directions together, and events that overlap.

use pipo_discord::discord::Discord;
use pipo_discord::handler::RealHandler;
use pipo_discord::inbound::{
    ChannelKind, MessageKind, NewGuild, NewMessage, NewThread, Query, Referenced, Reply, User,
    WebhookInfo,
};
use pipo_discord::message::Message;
use pipo_discord::outbound::Progress;
use pipo_discord::registry::ThreadInfo;

fn discord(transport_id: usize) -> Discord {
    let mapping = vec![("10".to_string(), "main".to_string())];
    Discord::new(transport_id, &vec!["main".to_string()], String::new(), 77, &mapping).unwrap()
}

fn guild_channel() -> Reply {
    Reply::Channel(ChannelKind::Guild("general".to_string()))
}

fn somebody() -> User {
    User { name: "ann".to_string(), avatar_url: None }
}

fn message(reply: Option<Referenced>) -> NewMessage {
    NewMessage {
        id: 50,
        channel: 10,
        guild: Some(77),
        author: somebody(),
        bot: false,
        kind: MessageKind::Regular,
        content: "hi".to_string(),
        attachments: vec![],
        reply,
    }
}

#[test]
fn what_goes_on_a_bus_does_not_come_back() {
    let mut own = discord(3);
    let mut handler = own.connect().handler;
    let (_, task) = handler.message(message(None), 0).next.unwrap();
    let step = handler.resume(&mut own.registry, task, guild_channel());
    let (query, task) = step.next.unwrap();
    assert_eq!(query, Query::InsertMessage { message: 50 });
    let step = handler.resume(&mut own.registry, task, Reply::PipoId(1));
    let sent = step.send.unwrap();
    assert_eq!(sent.bus, "main");
    assert!(matches!(own.dispatch(10, sent.message.clone()), Progress::Done(Ok(()))));
    assert!(matches!(discord(4).dispatch(10, sent.message), Progress::Ask(..)));
}

#[test]
fn events_may_overlap() {
    let mut own = discord(3);
    let mut handler = own.connect().handler;
    let guild = NewGuild { id: 77, threads: vec![ThreadInfo { id: 11, parent: Some(10) }] };
    let (_, waiting) = handler.guild_create(guild).next.unwrap();
    let webhooks = vec![WebhookInfo { channel: 10, name: Some("PIPO general".to_string()) }];
    let step = handler.resume(&mut own.registry, waiting, Reply::Webhooks(webhooks));
    let (_, waiting) = step.next.unwrap();

    let thread = NewThread { id: 12, parent: Some(10), name: "topic".to_string() };
    let (_, other) = handler.thread_create(&own.registry, thread).next.unwrap();
    assert!(handler.resume(&mut own.registry, other, Reply::Failed).next.is_none());

    let step = handler.resume(&mut own.registry, waiting, guild_channel());
    let (query, waiting) = step.next.unwrap();
    assert_eq!(query, Query::Channel { channel: 10 });
    assert!(handler.resume(&mut own.registry, waiting, Reply::Failed).next.is_none());
    let mut threads: Vec<(u64, u64)> = own.registry.known_threads().iter().map(|(t, c)| (*t, *c)).collect();
    threads.sort();
    assert_eq!(threads, vec![(11, 10), (12, 10)]);
}

#[test]
fn a_quoted_message_may_be_as_old_as_the_calendar() {
    for (secs, accepted) in [
        (-8334601228800, true),
        (-8334601228801, false),
        (8210266876799, true),
        (8210266876800, false),
    ] {
        let mut registry = discord(3).registry;
        let mut handler = RealHandler::new(3);
        let reply = Referenced { id: 40, author: somebody(), member: None };
        let (_, task) = handler.message(message(Some(reply)), 0).next.unwrap();
        let (_, task) = handler.resume(&mut registry, task, guild_channel()).next.unwrap();
        let (_, task) = handler.resume(&mut registry, task, Reply::PipoId(1)).next.unwrap();
        let (_, task) = handler.resume(&mut registry, task, Reply::PipoId(2)).next.unwrap();
        let found = Reply::Message {
            secs,
            author: "bob".to_string(),
            content: "old".to_string(),
        };
        assert_eq!(task.accepts(&found), accepted);
        if accepted {
            let sent = handler.resume(&mut registry, task, found).send.unwrap();
            let list = match sent.message {
                Message::Text { attachments, .. } => attachments.unwrap(),
                _ => panic!("no text was sent"),
            };
            assert!(list[0].fallback.as_ref().unwrap().ends_with("] bob: old"));
        }
    }
}
