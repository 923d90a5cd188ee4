//! What happens on Discord, and what is told of it on the buses.

use crate::changes;
use crate::changes::{GuildTask, PinsTask};
use crate::content;
use crate::content::{Answer, Lookup, ParseStepView};
use crate::handler;
use crate::inbound::{
    ChannelKind, MessageEdit, NewGuild, NewMessage, NewThread, Query, ReactionEmoji, ReactionEvent,
    Reply, StepView, TaskView, User, WebhookInfo,
};
use crate::message::MessageView;
use crate::outside;
use crate::posts;
use crate::posts::{Origin, Post, PostStageView, PostTaskView};
use crate::registry::{Registry, ThreadInfo};
use crate::relays;
use vstd::prelude::*;

verus! {

/// Addresses, each behind a line feed.
pub open spec fn lines(urls: Seq<String>) -> Seq<char>
    decreases urls.len(),
{
    if urls.len() == 0 {
        Seq::empty()
    } else {
        seq!['\n'] + urls[0]@ + lines(urls.skip(1))
    }
}

proof fn lemma_lines(urls: Seq<String>)
    requires
        urls.len() > 0,
    ensures
        lines(urls) == lines(urls.drop_last()) + seq!['\n'] + urls.last()@,
    decreases urls.len(),
{
    if urls.len() == 1 {
        assert(urls.skip(1) =~= Seq::<String>::empty());
        assert(urls.drop_last() =~= Seq::<String>::empty());
        assert(lines(urls) =~= lines(urls.drop_last()) + seq!['\n'] + urls.last()@);
    } else {
        let rest = urls.skip(1);
        lemma_lines(rest);
        assert(rest.drop_last() =~= urls.drop_last().skip(1));
        assert(urls.drop_last()[0] == urls[0]);
        assert(lines(urls) =~= lines(urls.drop_last()) + seq!['\n'] + urls.last()@);
    }
}

proof fn lemma_with_urls(content: Seq<char>, urls: Seq<String>)
    ensures
        posts::with_urls(content, urls) == content + lines(urls),
    decreases urls.len(),
{
    reveal_strlit("\n");
    assert("\n"@ =~= seq!['\n']);
    if urls.len() == 0 {
        assert(content + lines(urls) =~= content);
    } else {
        lemma_with_urls(content, urls.drop_last());
        lemma_lines(urls);
        assert(posts::with_urls(content, urls) =~= content + lines(urls));
    }
}

proof fn lemma_action(content: Seq<char>)
    ensures
        match outside::action_body(content) {
            Some(body) => content == seq!['\\', '*'] + body + seq!['*'] && body.len() > 0
                && !body.contains('\n'),
            None => forall|body: Seq<char>|
                body.len() > 0 && !(#[trigger] body.contains('\n')) ==> content != seq!['\\', '*']
                    + body + seq!['*'],
        },
{
    match outside::action_body(content) {
        Some(body) => {
            assert(content =~= seq!['\\', '*'] + body + seq!['*']);
        },
        None => {
            assert forall|body: Seq<char>|
                body.len() > 0 && !(#[trigger] body.contains('\n')) implies content != seq![
                '\\',
                '*',
            ] + body + seq!['*'] by {
                let whole = seq!['\\', '*'] + body + seq!['*'];
                if content == whole {
                    assert(whole[0] == '\\' && whole[1] == '*' && whole.last() == '*');
                    assert(whole.subrange(2, whole.len() - 1) =~= body);
                }
            }
        },
    }
}

/// The name that a quoted author goes by, in its parts.
proof fn lemma_signed(name: Seq<char>)
    ensures
        name + " ("@ + "Discord"@ + ")"@ == name + " (Discord)"@,
{
    reveal_strlit(" (");
    reveal_strlit("Discord");
    reveal_strlit(")");
    reveal_strlit(" (Discord)");
    assert(name + " ("@ + "Discord"@ + ")"@ =~= name + " (Discord)"@);
}

/// A new message of a user's in a channel or thread that is followed puts exactly one message on
/// the bus of the channel. It goes under the transport's number and Discord's name, and carries
/// the id that the message was stored under, the author's name and picture, and the thread. It is
/// no edit. Its text is the plain text, or the content itself where that cannot be read, and each
/// attachment's address on a line of its own. An escaped asterisk in front and an asterisk behind
/// make it an action with what stands between them on one line, and everything else is a text.
pub proof fn law_messages_say_what_was_written(
    transport_id: usize,
    registry: Registry,
    msg: NewMessage,
    now: i64,
    replies: spec_fn(Query) -> Reply,
    answers: spec_fn(Lookup) -> Answer,
    bus: String,
    thread: Option<u64>,
    id: i64,
    text: Seq<char>,
)
    requires
        !msg.bot,
        msg.kind is Regular || msg.kind is InlineReply,
        msg.reply is None,
        replies(Query::Channel { channel: msg.channel }) matches Reply::Channel(
            ChannelKind::Guild(_),
        ),
        (registry.channels().contains_key(msg.channel) && thread is None && bus
            == registry.channels()[msg.channel].bus) || (!registry.channels().contains_key(
            msg.channel,
        ) && registry.threads().contains_key(msg.channel) && thread == Some(msg.channel) && bus
            == registry.channels()[registry.threads()[msg.channel]].bus),
        replies(Query::InsertMessage { message: msg.id }) == Reply::PipoId(id),
        forall|lookup: Lookup| #[trigger]
            answers(lookup) == match replies(Query::Lookup(lookup)) {
                Reply::Lookup(answer) => answer,
                _ => Answer::Failed,
            },
        text == match content::driven(
            content::parsed(msg.guild->0, now, msg.content@, 0, Seq::empty()),
            answers,
        ) {
            Ok(plain) => plain,
            Err(_) => msg.content@,
        } + lines(msg.attachments@),
    ensures
        ({
            let told = relays::told(
                transport_id,
                registry,
                handler::message_started(msg, now),
                replies,
            );
            &&& told.len() == 1
            &&& told[0].0 == bus
            &&& match told[0].1 {
                MessageView::Text {
                    sender,
                    pipo_id,
                    transport,
                    username,
                    avatar_url,
                    thread: in_thread,
                    message,
                    attachments,
                    is_edit,
                    irc_flag,
                } => {
                    &&& sender == transport_id
                    &&& pipo_id == id
                    &&& transport == "Discord"@
                    &&& username == msg.author.name@
                    &&& avatar_url == match msg.author.avatar_url {
                        Some(url) => Some(url@),
                        None => None,
                    }
                    &&& in_thread == match thread {
                        Some(t) => Some((None::<Seq<char>>, Some(t))),
                        None => None,
                    }
                    &&& message == Some(text)
                    &&& attachments is None
                    &&& !is_edit
                    &&& !irc_flag
                    &&& forall|body: Seq<char>|
                        body.len() > 0 && !(#[trigger] body.contains('\n')) ==> text != seq![
                            '\\',
                            '*',
                        ] + body + seq!['*']
                },
                MessageView::Action {
                    sender,
                    pipo_id,
                    transport,
                    username,
                    avatar_url,
                    thread: in_thread,
                    message,
                    attachments,
                    is_edit,
                    irc_flag,
                } => {
                    &&& sender == transport_id
                    &&& pipo_id == id
                    &&& transport == "Discord"@
                    &&& username == msg.author.name@
                    &&& avatar_url == match msg.author.avatar_url {
                        Some(url) => Some(url@),
                        None => None,
                    }
                    &&& in_thread == match thread {
                        Some(t) => Some((None::<Seq<char>>, Some(t))),
                        None => None,
                    }
                    &&& message matches Some(body) && text == seq!['\\', '*'] + body + seq!['*']
                        && body.len() > 0 && !body.contains('\n')
                    &&& attachments is None
                    &&& !is_edit
                    &&& !irc_flag
                },
                _ => false,
            }
        }),
{
    relays::law_messages_are_relayed(transport_id, registry, msg, now, replies);
    assert(relays::lookups(replies) =~= answers);
    content::law_parse_renders(msg.guild->0, now, msg.content@, answers);
    let plain = match content::rendered(msg.guild->0, now, msg.content@, 0, answers) {
        Ok(plain) => plain,
        Err(_) => msg.content@,
    };
    lemma_with_urls(plain, msg.attachments@);
    lemma_action(text);
}

/// A message that replies to another one is relayed like the same message without the reply, but
/// for one attachment. The attachment carries the bridge's id of the message replied to, its
/// author's picture, and the author's nickname, or the name where there is no member or the
/// member has no nickname. What is shown of the message is when it was written, by whom, and what
/// it says, where it can be had. A reply to a message without an id is not relayed.
pub proof fn law_replies_quote_what_they_reply_to(
    transport_id: usize,
    registry: Registry,
    msg: NewMessage,
    plain: NewMessage,
    now: i64,
    replies: spec_fn(Query) -> Reply,
)
    requires
        msg.reply is Some,
        plain == (NewMessage { reply: None, ..msg }),
    ensures
        ({
            let reply = msg.reply->0;
            let told = relays::told(
                transport_id,
                registry,
                handler::message_started(msg, now),
                replies,
            );
            let bare = relays::told(
                transport_id,
                registry,
                handler::message_started(plain, now),
                replies,
            );
            let name = if reply.member is Some && reply.member->0.nick is Some {
                reply.member->0.nick->0@
            } else {
                reply.author.name@
            };
            match replies(Query::PipoId { message: reply.id }) {
                Reply::PipoId(id) if bare.len() > 0 => {
                    &&& told.len() == 1
                    &&& told[0].0 == bare[0].0
                    &&& match (told[0].1, bare[0].1) {
                        (
                            MessageView::Text { attachments: Some(list), .. },
                            MessageView::Text { attachments: None, .. },
                        ) => {
                            &&& same_but_attachments(told[0].1, bare[0].1)
                            &&& list.len() == 1
                            &&& list[0].id == 0
                            &&& list[0].pipo_id == Some(id)
                            &&& list[0].author_name == Some(name + " (Discord)"@)
                            &&& list[0].author_icon == match reply.author.avatar_url {
                                Some(url) => Some(url@),
                                None => None,
                            }
                            &&& list[0].fallback == match replies(
                                Query::Message { channel: msg.channel, message: reply.id },
                            ) {
                                Reply::Message { secs, author, content } => Some(
                                    "["@ + outside::utc_text(secs as int, "%B %e, %Y %l:%M %p"@)
                                        + "] "@ + author@ + ": "@ + content@,
                                ),
                                _ => None,
                            }
                        },
                        (
                            MessageView::Action { attachments: Some(list), .. },
                            MessageView::Action { attachments: None, .. },
                        ) => {
                            &&& same_but_attachments(told[0].1, bare[0].1)
                            &&& list.len() == 1
                            &&& list[0].id == 0
                            &&& list[0].pipo_id == Some(id)
                            &&& list[0].author_name == Some(name + " (Discord)"@)
                            &&& list[0].author_icon == match reply.author.avatar_url {
                                Some(url) => Some(url@),
                                None => None,
                            }
                            &&& list[0].fallback == match replies(
                                Query::Message { channel: msg.channel, message: reply.id },
                            ) {
                                Reply::Message { secs, author, content } => Some(
                                    "["@ + outside::utc_text(secs as int, "%B %e, %Y %l:%M %p"@)
                                        + "] "@ + author@ + ": "@ + content@,
                                ),
                                _ => None,
                            }
                        },
                        _ => false,
                    }
                },
                _ => told.len() == 0,
            }
        }),
{
    relays::law_messages_are_relayed(transport_id, registry, msg, now, replies);
    relays::law_messages_are_relayed(transport_id, registry, plain, now, replies);
    let reply = msg.reply->0;
    lemma_signed(reply.author.name@);
    if let Some(member) = reply.member {
        if let Some(nick) = member.nick {
            lemma_signed(nick@);
        }
    }
    let post = |quoting: NewMessage|
        Post {
            id: quoting.id,
            channel: quoting.channel,
            guild: quoting.guild,
            author: quoting.author,
            content: Some(quoting.content),
            attachments: Some(quoting.attachments),
            reply: quoting.reply,
            is_edit: false,
            now,
        };
    assert(relays::relayed_content(post(msg), msg.content@, replies) == relays::relayed_content(
        post(plain),
        msg.content@,
        replies,
    ));
}

/// Two messages that differ in nothing but their attachments.
pub open spec fn same_but_attachments(this: MessageView, that: MessageView) -> bool {
    match (this, that) {
        (
            MessageView::Text {
                sender,
                pipo_id,
                transport,
                username,
                avatar_url,
                thread,
                message,
                is_edit,
                irc_flag,
                attachments: _,
            },
            MessageView::Text { attachments, .. },
        ) => that == (MessageView::Text {
            sender,
            pipo_id,
            transport,
            username,
            avatar_url,
            thread,
            message,
            is_edit,
            irc_flag,
            attachments,
        }),
        (
            MessageView::Action {
                sender,
                pipo_id,
                transport,
                username,
                avatar_url,
                thread,
                message,
                is_edit,
                irc_flag,
                attachments: _,
            },
            MessageView::Action { attachments, .. },
        ) => that == (MessageView::Action {
            sender,
            pipo_id,
            transport,
            username,
            avatar_url,
            thread,
            message,
            is_edit,
            irc_flag,
            attachments,
        }),
        _ => false,
    }
}

/// A changed message of a user's in a channel or thread that is followed puts exactly one message
/// on the bus of the channel, text or action by the same rule as a new one. It carries the id that
/// the message was stored under before, and it is an edit.
pub proof fn law_edits_say_what_was_written(
    transport_id: usize,
    registry: Registry,
    edit: MessageEdit,
    author: User,
    now: i64,
    replies: spec_fn(Query) -> Reply,
    answers: spec_fn(Lookup) -> Answer,
    bus: String,
    thread: Option<u64>,
    id: i64,
    text: Seq<char>,
)
    requires
        edit.author == Some((author, false)),
        edit.content is Some,
        replies(Query::Channel { channel: edit.channel }) matches Reply::Channel(
            ChannelKind::Guild(_),
        ),
        (registry.channels().contains_key(edit.channel) && thread is None && bus
            == registry.channels()[edit.channel].bus) || (!registry.channels().contains_key(
            edit.channel,
        ) && registry.threads().contains_key(edit.channel) && thread == Some(edit.channel) && bus
            == registry.channels()[registry.threads()[edit.channel]].bus),
        replies(Query::PipoId { message: edit.id }) == Reply::PipoId(id),
        forall|lookup: Lookup| #[trigger]
            answers(lookup) == match replies(Query::Lookup(lookup)) {
                Reply::Lookup(answer) => answer,
                _ => Answer::Failed,
            },
        text == match content::driven(
            content::parsed(edit.guild->0, now, edit.content->0@, 0, Seq::empty()),
            answers,
        ) {
            Ok(plain) => plain,
            Err(_) => edit.content->0@,
        } + match edit.attachments {
            Some(urls) => lines(urls@),
            None => Seq::empty(),
        },
    ensures
        ({
            let told = relays::told(
                transport_id,
                registry,
                handler::edit_started(edit, now),
                replies,
            );
            &&& told.len() == 1
            &&& told[0].0 == bus
            &&& match told[0].1 {
                MessageView::Text {
                    sender,
                    pipo_id,
                    transport,
                    username,
                    avatar_url,
                    thread: in_thread,
                    message,
                    attachments,
                    is_edit,
                    irc_flag,
                } => {
                    &&& sender == transport_id
                    &&& pipo_id == id
                    &&& transport == "Discord"@
                    &&& username == author.name@
                    &&& avatar_url == match author.avatar_url {
                        Some(url) => Some(url@),
                        None => None,
                    }
                    &&& in_thread == match thread {
                        Some(t) => Some((None::<Seq<char>>, Some(t))),
                        None => None,
                    }
                    &&& message == Some(text)
                    &&& attachments is None
                    &&& is_edit
                    &&& irc_flag
                    &&& forall|body: Seq<char>|
                        body.len() > 0 && !(#[trigger] body.contains('\n')) ==> text != seq![
                            '\\',
                            '*',
                        ] + body + seq!['*']
                },
                MessageView::Action {
                    sender,
                    pipo_id,
                    transport,
                    username,
                    avatar_url,
                    thread: in_thread,
                    message,
                    attachments,
                    is_edit,
                    irc_flag,
                } => {
                    &&& sender == transport_id
                    &&& pipo_id == id
                    &&& transport == "Discord"@
                    &&& username == author.name@
                    &&& avatar_url == match author.avatar_url {
                        Some(url) => Some(url@),
                        None => None,
                    }
                    &&& in_thread == match thread {
                        Some(t) => Some((None::<Seq<char>>, Some(t))),
                        None => None,
                    }
                    &&& message matches Some(body) && text == seq!['\\', '*'] + body + seq!['*']
                        && body.len() > 0 && !body.contains('\n')
                    &&& attachments is None
                    &&& is_edit
                    &&& irc_flag
                },
                _ => false,
            }
        }),
{
    relays::law_edits_are_relayed(transport_id, registry, edit, now, replies);
    assert(relays::lookups(replies) =~= answers);
    let raw = edit.content->0@;
    content::law_parse_renders(edit.guild->0, now, raw, answers);
    let plain = match content::rendered(edit.guild->0, now, raw, 0, answers) {
        Ok(plain) => plain,
        Err(_) => raw,
    };
    match edit.attachments {
        Some(urls) => {
            lemma_with_urls(plain, urls@);
        },
        None => {
            assert(plain + Seq::<char>::empty() =~= plain);
        },
    }
    lemma_action(text);
}

/// Whatever handling an edit tells is an edit, and whatever handling a new message tells is none.
pub proof fn law_edits_and_only_edits_are_edits(
    transport_id: usize,
    registry: Registry,
    msg: NewMessage,
    edit: MessageEdit,
    now: i64,
    replies: spec_fn(Query) -> Reply,
    i: int,
)
    ensures
        ({
            let told = relays::told(
                transport_id,
                registry,
                handler::message_started(msg, now),
                replies,
            );
            0 <= i < told.len() ==> match told[i].1 {
                MessageView::Text { is_edit, irc_flag, .. } => !is_edit && !irc_flag,
                MessageView::Action { is_edit, irc_flag, .. } => !is_edit && !irc_flag,
                _ => false,
            }
        }),
        ({
            let told = relays::told(
                transport_id,
                registry,
                handler::edit_started(edit, now),
                replies,
            );
            0 <= i < told.len() ==> match told[i].1 {
                MessageView::Text { is_edit, irc_flag, .. } => is_edit && irc_flag,
                MessageView::Action { is_edit, irc_flag, .. } => is_edit && irc_flag,
                _ => false,
            }
        }),
{
    relays::law_messages_are_relayed(transport_id, registry, msg, now, replies);
    relays::law_edits_are_relayed(transport_id, registry, edit, now, replies);
}

/// Nothing is told of a new message of a bot's, of one that is no message of a user's, of one
/// outside a guild, of one in a channel that is not followed, and of one that could not be stored.
pub proof fn law_other_messages_are_not_told(
    transport_id: usize,
    registry: Registry,
    msg: NewMessage,
    now: i64,
    replies: spec_fn(Query) -> Reply,
)
    requires
        ({
            ||| msg.bot
            ||| msg.kind is Other
            ||| !(replies(Query::Channel { channel: msg.channel }) matches Reply::Channel(
                ChannelKind::Guild(_),
            ))
            ||| !registry.channels().contains_key(msg.channel) && !registry.threads().contains_key(
                msg.channel,
            )
            ||| replies(Query::InsertMessage { message: msg.id }) !is PipoId
        }),
    ensures
        relays::told(transport_id, registry, handler::message_started(msg, now), replies).len()
            == 0,
{
    relays::law_messages_are_relayed(transport_id, registry, msg, now, replies);
}

/// Nothing is told of a change by a bot or by nobody, of one outside a guild, of one in a channel
/// that is not followed, of one to a message without an id, and of one that tells no content.
pub proof fn law_other_edits_are_not_told(
    transport_id: usize,
    registry: Registry,
    edit: MessageEdit,
    now: i64,
    replies: spec_fn(Query) -> Reply,
)
    requires
        ({
            ||| edit.author is None
            ||| (edit.author->0).1
            ||| edit.content is None
            ||| !(replies(Query::Channel { channel: edit.channel }) matches Reply::Channel(
                ChannelKind::Guild(_),
            ))
            ||| !registry.channels().contains_key(edit.channel) && !registry.threads().contains_key(
                edit.channel,
            )
            ||| replies(Query::PipoId { message: edit.id }) !is PipoId
        }),
    ensures
        relays::told(transport_id, registry, handler::edit_started(edit, now), replies).len() == 0,
{
    relays::law_edits_are_relayed(transport_id, registry, edit, now, replies);
}

/// A message asks for its channel first. One that is not followed is given no id, and nothing
/// more is asked for.
pub proof fn law_only_followed_messages_are_stored(
    transport_id: usize,
    registry: Registry,
    msg: NewMessage,
    now: i64,
    reply: Reply,
)
    requires
        !msg.bot,
        msg.kind !is Other,
    ensures
        ({
            let first = handler::message_started(msg, now);
            &&& first.send is None && first.unread is None
            &&& first.next matches Some((query, TaskView::Post(task)))
            &&& query == (Query::Channel { channel: msg.channel })
            &&& {
                let second = posts::post_resumed(transport_id, registry, task, reply);
                &&& second.send is None && second.unread is None
                &&& if (reply matches Reply::Channel(ChannelKind::Guild(_))) && (
                registry.channels().contains_key(msg.channel) || registry.threads().contains_key(
                    msg.channel,
                )) {
                    second.next matches Some((store, _)) && store == (Query::InsertMessage {
                        message: msg.id,
                    })
                } else {
                    second.next is None
                }
            }
        }),
{
}

/// The step in which a content turns out to be unreadable says why, and no other step does.
pub proof fn law_unreadable_contents_are_reported(
    transport_id: usize,
    registry: Registry,
    task: PostTaskView,
    reply: Reply,
)
    ensures
        ({
            let step = posts::post_resumed(transport_id, registry, task, reply);
            match (task.stage, reply) {
                (PostStageView::Id { .. }, Reply::PipoId(_)) => task.post.content is Some ==>
                step.unread == match content::parsed(
                    task.post.guild->0,
                    task.post.now,
                    task.post.content->0@,
                    0,
                    Seq::empty(),
                ) {
                    ParseStepView::Finished(Err(e)) => Some(e),
                    _ => None,
                },
                (PostStageView::Content { parser, .. }, Reply::Lookup(answer)) => step.unread
                    == match content::resumed(parser, answer) {
                    ParseStepView::Finished(Err(e)) => Some(e),
                    _ => None,
                },
                (PostStageView::Content { parser, .. }, _) => step.unread == match content::resumed(
                    parser,
                    Answer::Failed,
                ) {
                    ParseStepView::Finished(Err(e)) => Some(e),
                    _ => None,
                },
                _ => step.unread is None,
            }
        }),
{
}

/// A reaction of anybody but the bridge to a message with an id, in a channel or thread that is
/// followed, puts exactly one message on the bus of the channel. It carries the emoji, or its
/// name, the nickname of the member who reacted, or else the user's name, the user's picture, and
/// whether the reaction was taken back.
pub proof fn law_reactions_say_who_reacted_with_what(
    transport_id: usize,
    registry: Registry,
    event: ReactionEvent,
    remove: bool,
    replies: spec_fn(Query) -> Reply,
    own: u64,
    bus: String,
    thread: Option<u64>,
    id: i64,
    emoji: String,
)
    requires
        replies(Query::CurrentUser) == Reply::CurrentUser(own),
        event.user != Some(own),
        replies(Query::Channel { channel: event.channel }) matches Reply::Channel(
            ChannelKind::Guild(_),
        ),
        (registry.channels().contains_key(event.channel) && thread is None && bus
            == registry.channels()[event.channel].bus) || (!registry.channels().contains_key(
            event.channel,
        ) && registry.threads().contains_key(event.channel) && thread == Some(event.channel) && bus
            == registry.channels()[registry.threads()[event.channel]].bus),
        replies(Query::PipoId { message: event.message }) == Reply::PipoId(id),
        event.emoji == ReactionEmoji::Unicode(emoji) || event.emoji == ReactionEmoji::Custom(
            Some(emoji),
        ),
    ensures
        ({
            let told = relays::told(
                transport_id,
                registry,
                handler::reaction_started(event, remove),
                replies,
            );
            &&& told.len() == 1
            &&& told[0].0 == bus
            &&& told[0].1 matches MessageView::Reaction {
                sender,
                pipo_id,
                transport,
                emoji: with,
                remove: removed,
                username,
                avatar_url,
                thread: in_thread,
            }
            &&& sender == transport_id
            &&& pipo_id == id
            &&& transport == "Discord"@
            &&& with == emoji@
            &&& removed == remove
            &&& in_thread == match thread {
                Some(t) => Some((None::<Seq<char>>, Some(t))),
                None => None,
            }
            &&& event.member is None ==> username is None && avatar_url is None
            &&& event.member matches Some(member) ==> {
                &&& member.nick is Some ==> username == Some(member.nick->0@)
                &&& member.nick is None && member.user is Some ==> username == Some(
                    member.user->0.name@,
                )
                &&& member.nick is None && member.user is None ==> username is None
                &&& avatar_url == if member.user is Some && member.user->0.avatar_url is Some {
                    Some(member.user->0.avatar_url->0@)
                } else {
                    None
                }
            }
        }),
{
    relays::law_reactions_are_relayed(transport_id, registry, event, remove, replies);
}

/// Nothing is told of a reaction of the bridge's own, of one outside a guild, of one in a channel
/// that is not followed, of one to a message without an id, and of one without an emoji's name.
pub proof fn law_other_reactions_are_not_told(
    transport_id: usize,
    registry: Registry,
    event: ReactionEvent,
    remove: bool,
    replies: spec_fn(Query) -> Reply,
)
    requires
        ({
            ||| replies(Query::CurrentUser) matches Reply::CurrentUser(own) && event.user == Some(
                own,
            )
            ||| !(replies(Query::Channel { channel: event.channel }) matches Reply::Channel(
                ChannelKind::Guild(_),
            ))
            ||| !registry.channels().contains_key(event.channel)
                && !registry.threads().contains_key(event.channel)
            ||| replies(Query::PipoId { message: event.message }) !is PipoId
            ||| event.emoji is Other
            ||| event.emoji == ReactionEmoji::Custom(None)
        }),
    ensures
        relays::told(
            transport_id,
            registry,
            handler::reaction_started(event, remove),
            replies,
        ).len() == 0,
{
    relays::law_reactions_are_relayed(transport_id, registry, event, remove, replies);
}

/// One deleted message puts one deletion with its id on the bus of its channel, where the channel
/// is one of a guild and followed, and the message has an id. Otherwise nothing is told.
pub proof fn law_a_deletion_is_told(
    transport_id: usize,
    registry: Registry,
    channel: u64,
    message: u64,
    replies: spec_fn(Query) -> Reply,
)
    ensures
        ({
            let told = relays::told(
                transport_id,
                registry,
                handler::delete_started(channel, seq![message]),
                replies,
            );
            let followed = registry.channels().contains_key(channel);
            let known = followed || registry.threads().contains_key(channel);
            match (
                replies(Query::Channel { channel }),
                replies(Query::PipoId { message }),
            ) {
                (Reply::Channel(ChannelKind::Guild(_)), Reply::PipoId(id)) if known => {
                    &&& told.len() == 1
                    &&& told[0].0 == registry.channels()[if followed {
                        channel
                    } else {
                        registry.threads()[channel]
                    }].bus
                    &&& told[0].1 == (MessageView::Delete {
                        sender: transport_id,
                        pipo_id: id,
                        transport: "Discord"@,
                    })
                },
                _ => told.len() == 0,
            }
        }),
{
    relays::law_deletions_are_relayed(transport_id, registry, channel, seq![message], replies);
    reveal_with_fuel(relays::deletions, 2);
    assert(seq![message].drop_first() =~= Seq::<u64>::empty());
}

/// Messages that are deleted together are told of like messages that are deleted one after the
/// other.
pub proof fn law_deletions_add_up(
    transport_id: usize,
    registry: Registry,
    channel: u64,
    first: Seq<u64>,
    second: Seq<u64>,
    replies: spec_fn(Query) -> Reply,
)
    requires
        first.len() + second.len() <= usize::MAX,
    ensures
        relays::told(
            transport_id,
            registry,
            handler::delete_started(channel, first + second),
            replies,
        ) == relays::told(
            transport_id,
            registry,
            handler::delete_started(channel, first),
            replies,
        ) + relays::told(
            transport_id,
            registry,
            handler::delete_started(channel, second),
            replies,
        ),
{
    relays::law_deletions_are_relayed(transport_id, registry, channel, first + second, replies);
    relays::law_deletions_are_relayed(transport_id, registry, channel, first, replies);
    relays::law_deletions_are_relayed(transport_id, registry, channel, second, replies);
    let none = Seq::<(String, MessageView)>::empty();
    assert(none + none =~= none);
    if let Some((bus, _)) = registry.route(channel) {
        lemma_deletions_joined(transport_id, bus, first, second, replies);
    }
}

proof fn lemma_deletions_joined(
    transport_id: usize,
    bus: String,
    first: Seq<u64>,
    second: Seq<u64>,
    replies: spec_fn(Query) -> Reply,
)
    ensures
        relays::deletions(transport_id, bus, first + second, replies) == relays::deletions(
            transport_id,
            bus,
            first,
            replies,
        ) + relays::deletions(transport_id, bus, second, replies),
    decreases first.len(),
{
    let rest = relays::deletions(transport_id, bus, second, replies);
    if first.len() == 0 {
        assert(first + second =~= second);
        assert(Seq::<(String, MessageView)>::empty() + rest =~= rest);
    } else {
        assert((first + second).drop_first() =~= first.drop_first() + second);
        assert((first + second)[0] == first[0]);
        lemma_deletions_joined(transport_id, bus, first.drop_first(), second, replies);
        assert(relays::deletions(transport_id, bus, first + second, replies)
            =~= relays::deletions(transport_id, bus, first, replies) + rest);
    }
}

/// The pins of a channel or thread that is followed are asked for, to be told of on the bus of
/// the channel, and those of another one are not.
pub proof fn law_pins_of_followed_channels_are_asked_for(registry: Registry, channel: u64)
    ensures
        ({
            let step = handler::pins_started(registry, channel);
            &&& step.send is None && step.unread is None
            &&& match step.next {
                Some((query, TaskView::Pins(PinsTask::Listing { bus }))) => {
                    &&& query == (Query::Pins { channel })
                    &&& registry.channels().contains_key(channel) ==> bus
                        == registry.channels()[channel].bus
                    &&& !registry.channels().contains_key(channel) ==> registry.threads().contains_key(
                        channel,
                    ) && bus == registry.channels()[registry.threads()[channel]].bus
                },
                Some(_) => false,
                None => !registry.channels().contains_key(channel)
                    && !registry.threads().contains_key(channel),
            }
        }),
{
}

/// The pins that are reported are held against those that are known. Each message that is in one
/// of the two lists alone is to be told of once: first those whose pin is gone, then those whose
/// pin is new. The known pins stay until that is done.
pub proof fn law_changed_pins_are_found(
    transport_id: usize,
    bus: String,
    ids: Vec<u64>,
    before: Set<u64>,
    step: StepView,
    now: Set<u64>,
)
    requires
        changes::pins_step(
            transport_id,
            PinsTask::Listing { bus },
            Reply::Pins(ids),
            before,
            step,
            now,
        ),
    ensures
        step.send is None,
        step.unread is None,
        forall|m: u64| #[trigger] now.contains(m) <==> before.contains(m),
        match step.next {
            None => forall|m: u64| #[trigger] before.contains(m) <==> ids@.contains(m),
            Some((query, TaskView::Pins(PinsTask::Telling { bus: on, todo, at, pins }))) => {
                &&& on == bus
                &&& at == 0
                &&& todo@.len() > 0
                &&& query == (Query::PipoId { message: todo@[0].0 })
                &&& forall|m: u64| #[trigger] pins@.contains(m) <==> ids@.contains(m)
                &&& forall|m: u64| #[trigger]
                    todo@.contains((m, true)) <==> before.contains(m) && !ids@.contains(m)
                &&& forall|m: u64| #[trigger]
                    todo@.contains((m, false)) <==> !before.contains(m) && ids@.contains(m)
                &&& forall|i: int, j: int|
                    0 <= i < j < todo@.len() ==> (#[trigger] todo@[i]) != (#[trigger] todo@[j])
                        && (todo@[j].1 ==> todo@[i].1)
            },
            Some(_) => false,
        },
{
    assert forall|m: u64| ids@.to_set().contains(m) <==> ids@.contains(m) by {}
    if let Some((_, TaskView::Pins(PinsTask::Telling { todo, pins, .. }))) = step.next {
        assert forall|i: int, j: int| 0 <= i < j < todo@.len() implies (#[trigger] todo@[i]) != (
        #[trigger] todo@[j]) && (todo@[j].1 ==> todo@[i].1) by {
            assert(todo@[i] != todo@[j]);
        }
        assert forall|m: u64| #[trigger] pins@.contains(m) <==> ids@.contains(m) by {
            assert(ids@.to_set().contains(m) <==> ids@.contains(m));
        }
        assert forall|m: u64| #[trigger] todo@.contains((m, true)) <==> before.contains(m)
            && !ids@.contains(m) by {
            assert(ids@.to_set().contains(m) <==> ids@.contains(m));
        }
        assert forall|m: u64| #[trigger] todo@.contains((m, false)) <==> !before.contains(m)
            && ids@.contains(m) by {
            assert(ids@.to_set().contains(m) <==> ids@.contains(m));
        }
    } else {
        assert forall|m: u64| #[trigger] before.contains(m) <==> ids@.contains(m) by {
            assert(ids@.to_set().contains(m) <==> ids@.contains(m));
        }
    }
}

/// Pins that could not be had change nothing.
pub proof fn law_missing_pins_change_nothing(
    transport_id: usize,
    bus: String,
    reply: Reply,
    before: Set<u64>,
    step: StepView,
    now: Set<u64>,
)
    requires
        reply !is Pins,
        changes::pins_step(
            transport_id,
            PinsTask::Listing { bus },
            reply,
            before,
            step,
            now,
        ),
    ensures
        step.send is None && step.next is None && step.unread is None,
        now == before,
{
}

/// Each change of a pin is told of where the message has an id: that it was pinned, or that it was
/// unpinned. The others are passed over. Then the next one is asked for, and behind the last the
/// pins that were reported are known.
pub proof fn law_changed_pins_are_told_in_turn(
    transport_id: usize,
    bus: String,
    todo: Vec<(u64, bool)>,
    at: usize,
    pins: std::collections::HashSet<u64>,
    reply: Reply,
    before: Set<u64>,
    step: StepView,
    now: Set<u64>,
)
    requires
        at < todo@.len(),
        changes::pins_step(
            transport_id,
            PinsTask::Telling { bus, todo, at, pins },
            reply,
            before,
            step,
            now,
        ),
    ensures
        match reply {
            Reply::PipoId(id) => step.send matches Some((on, message)) && on == bus && message == (
            MessageView::Pin { sender: transport_id, pipo_id: id, remove: todo@[at as int].1 }),
            _ => step.send is None,
        },
        at + 1 < todo@.len() ==> now == before && (step.next matches Some(
            (query, TaskView::Pins(PinsTask::Telling { bus: on, todo: same, at: next, pins: kept })),
        ) && query == (Query::PipoId { message: todo@[at + 1].0 }) && on == bus && same == todo
            && next == at + 1 && kept == pins),
        at + 1 == todo@.len() ==> now == pins@ && step.next is None,
{
    assert(todo@.len() == todo.len());
}

/// A webhook of a followed channel that goes by the name under which the bridge makes its own is
/// let go. No other webhook is, and no channel changes its bus.
pub proof fn law_own_webhooks_are_let_go(
    webhooks: Vec<WebhookInfo>,
    at: usize,
    threads: Vec<ThreadInfo>,
    reply: Reply,
    before: Registry,
    step: StepView,
    now: Registry,
    channel: u64,
)
    requires
        at < webhooks@.len(),
        before.channels().contains_key(webhooks@[at as int].channel),
        changes::guild_step(
            GuildTask::Naming { webhooks, at, threads },
            reply,
            before,
            step,
            now,
        ),
    ensures
        now.channels().contains_key(channel) == before.channels().contains_key(channel),
        before.channels().contains_key(channel) ==> now.channels()[channel].bus
            == before.channels()[channel].bus,
        ({
            let webhook = webhooks@[at as int];
            let own = match (webhook.name, reply) {
                (Some(name), Reply::Channel(ChannelKind::Guild(channel_name))) => name@
                    == "PIPO "@ + channel_name@,
                _ => false,
            };
            before.channels().contains_key(channel) ==> now.channels()[channel].webhook == if own
                && channel == webhook.channel {
                None
            } else {
                before.channels()[channel].webhook
            }
        }),
{
}

/// A guild that comes within sight has its webhooks asked for. They are gone through in order:
/// those of followed channels that have a name have their channel asked for, and the others are
/// passed over. Then the channels without a webhook are asked for, each once, and last the
/// threads are known. Without the webhooks nothing happens.
pub proof fn law_guilds_are_gone_through_in_order(
    webhooks: Vec<WebhookInfo>,
    threads: Vec<ThreadInfo>,
    task: GuildTask,
    from: int,
    reply: Reply,
    before: Registry,
    step: StepView,
    now: Registry,
)
    requires
        changes::guild_step(task, reply, before, step, now),
        0 <= from <= webhooks@.len(),
        (task == (GuildTask::Webhooks { threads }) && reply == Reply::Webhooks(webhooks) && from
            == 0) || (from > 0 && task == (GuildTask::Naming {
            webhooks,
            at: (from - 1) as usize,
            threads,
        })),
    ensures
        step.send is None && step.unread is None,
        match step.next {
            Some((query, TaskView::Guild(GuildTask::Naming { webhooks: same, at, threads: kept }))) =>
            {
                &&& same == webhooks && kept == threads
                &&& from <= at < webhooks@.len()
                &&& query == (Query::Channel { channel: webhooks@[at as int].channel })
                &&& now.channels().contains_key(webhooks@[at as int].channel)
                &&& webhooks@[at as int].name is Some
                &&& forall|k: int|
                    from <= k < at ==> !now.channels().contains_key(
                        (#[trigger] webhooks@[k]).channel,
                    ) || webhooks@[k].name is None
                &&& now.threads() == before.threads()
            },
            Some((query, TaskView::Guild(GuildTask::Checking { channels, at, threads: kept }))) => {
                &&& kept == threads
                &&& at == 0
                &&& channels@.len() > 0
                &&& query == (Query::Channel { channel: channels@[0] })
                &&& forall|c: u64| #[trigger]
                    channels@.contains(c) <==> now.channels().contains_key(c)
                        && now.channels()[c].webhook is None
                &&& forall|i: int, j: int|
                    0 <= i < j < channels@.len() ==> (#[trigger] channels@[i]) != (
                    #[trigger] channels@[j])
                &&& forall|k: int|
                    from <= k < webhooks@.len() ==> !now.channels().contains_key(
                        (#[trigger] webhooks@[k]).channel,
                    ) || webhooks@[k].name is None
                &&& now.threads() == before.threads()
            },
            Some(_) => false,
            None => forall|c: u64| #[trigger]
                now.channels().contains_key(c) ==> now.channels()[c].webhook is Some,
        },
{
    assert(webhooks@.len() == webhooks.len());
    changes::lemma_next_named(now.channels(), webhooks@, from);
    let n = changes::next_named(now.channels(), webhooks@, from);
    if n == webhooks@.len() {
        let channels = choose|channels: Vec<u64>|
            crate::registry::is_unhooked(channels@, now.channels())
                && #[trigger] changes::checking_from(
                channels,
                0,
                threads,
                before.threads(),
                step,
                now,
            );
        if channels@.len() == 0 {
            assert forall|c: u64| #[trigger]
                now.channels().contains_key(c) implies now.channels()[c].webhook is Some by {
                assert(!channels@.contains(c));
            }
        } else {
            assert forall|k: int| from <= k < webhooks@.len() implies !now.channels().contains_key(
                (#[trigger] webhooks@[k]).channel,
            ) || webhooks@[k].name is None by {
                assert(!changes::is_named(now.channels(), webhooks@[k]));
            }
        }
    } else {
        assert forall|k: int| from <= k < n implies !now.channels().contains_key(
            (#[trigger] webhooks@[k]).channel,
        ) || webhooks@[k].name is None by {
            assert(!changes::is_named(now.channels(), webhooks@[k]));
        }
    }
}

/// The channels without a webhook are asked for one after the other, whatever the replies, and
/// nothing changes in between.
pub proof fn law_channels_are_asked_for_in_turn(
    channels: Vec<u64>,
    at: usize,
    threads: Vec<ThreadInfo>,
    reply: Reply,
    before: Registry,
    step: StepView,
    now: Registry,
)
    requires
        at < channels@.len(),
        changes::guild_step(
            GuildTask::Checking { channels, at, threads },
            reply,
            before,
            step,
            now,
        ),
    ensures
        step.send is None && step.unread is None,
        now.channels() == before.channels(),
        at + 1 < channels@.len() ==> now.threads() == before.threads() && (step.next matches Some(
            (query, TaskView::Guild(GuildTask::Checking { channels: same, at: next, threads: kept })),
        ) && query == (Query::Channel { channel: channels@[at + 1] }) && same == channels && next
            == at + 1 && kept == threads),
        at + 1 == channels@.len() ==> step.next is None,
{
    assert(channels@.len() == channels.len());
}

/// Without its webhooks nothing comes of a guild.
pub proof fn law_guilds_without_webhooks_change_nothing(
    threads: Vec<ThreadInfo>,
    reply: Reply,
    before: Registry,
    step: StepView,
    now: Registry,
)
    requires
        reply !is Webhooks,
        changes::guild_step(GuildTask::Webhooks { threads }, reply, before, step, now),
    ensures
        step.send is None && step.next is None && step.unread is None,
        now.channels() == before.channels(),
        now.threads() == before.threads(),
{
}

/// A thread that is opened in a followed channel has a webhook asked for under its own name, and
/// is known from then on whatever the reply. No other thread changes. One that is opened elsewhere
/// is passed over.
pub proof fn law_opened_threads_are_known(
    transport_id: usize,
    registry: Registry,
    thread: NewThread,
    reply: Reply,
    pins: Set<u64>,
    before: Registry,
    step: StepView,
    new_pins: Set<u64>,
    now: Registry,
    other: u64,
)
    ensures
        ({
            let first = handler::thread_started(registry, thread);
            &&& first.send is None && first.unread is None
            &&& if thread.parent is Some && registry.channels().contains_key(thread.parent->0) {
                &&& first.next matches Some((query, TaskView::Thread(task)))
                &&& query == (Query::CreateWebhook { channel: thread.id, name: thread.name })
                &&& handler::handled(
                    transport_id,
                    TaskView::Thread(task),
                    reply,
                    pins,
                    before,
                    step,
                    new_pins,
                    now,
                ) ==> {
                    &&& step.send is None && step.next is None
                    &&& now.threads().contains_key(thread.id) && now.threads()[thread.id]
                        == thread.parent->0
                    &&& other != thread.id ==> now.threads().contains_key(other)
                        == before.threads().contains_key(other) && now.threads()[other]
                        == before.threads()[other]
                    &&& now.channels() == before.channels()
                    &&& new_pins == pins
                }
            } else {
                first.next is None
            }
        }),
{
}

/// A guild that comes within sight has its webhooks asked for, and its threads kept in mind.
pub proof fn law_guilds_have_their_webhooks_asked_for(guild: NewGuild)
    ensures
        ({
            let step = handler::guild_started(guild);
            &&& step.send is None && step.unread is None
            &&& step.next matches Some((query, TaskView::Guild(GuildTask::Webhooks { threads })))
            &&& query == (Query::Webhooks { guild: guild.id })
            &&& threads == guild.threads
        }),
{
}

/// A message is quoted in one line: when it was written in brackets, by whom, and what it says.
pub proof fn law_quotes_are_one_line(time: Seq<char>, author: Seq<char>, content: Seq<char>)
    ensures
        posts::quote_text(time, author, content) == seq!['['] + time + seq![']', ' '] + author
            + seq![':', ' '] + content,
{
    reveal_strlit("[");
    reveal_strlit("] ");
    reveal_strlit(": ");
    assert(posts::quote_text(time, author, content) =~= seq!['['] + time + seq![']', ' '] + author
        + seq![':', ' '] + content);
}

/// An event can go on with every reply, but for these: a content whose guild is not known, that
/// holds a time outside the calendar, or that is read when the clock is outside it; a quoted
/// message that was written outside the calendar; and a reaction without the bridge's own user.
pub proof fn law_few_replies_are_refused(task: TaskView, reply: Reply)
    ensures
        task.accepts(reply) == match task {
            TaskView::Post(post) => match (post.stage, reply) {
                (PostStageView::Id { .. }, Reply::PipoId(_)) => match post.post.content {
                    Some(raw) => post.post.guild is Some && content::times_fit(raw@, 0)
                        && -8334601228800 <= post.post.now <= 8210266876799,
                    None => true,
                },
                (PostStageView::ReplyMessage { .. }, Reply::Message { secs, .. }) =>
                -8334601228800 <= secs <= 8210266876799,
                _ => true,
            },
            TaskView::Reaction(reaction) => reaction.stage !is CurrentUser || reply is CurrentUser,
            _ => true,
        },
{
}

/// What handling an event asks for from a step on, where each query has one reply.
pub open spec fn asked(
    transport_id: usize,
    registry: Registry,
    step: StepView,
    replies: spec_fn(Query) -> Reply,
) -> Seq<Query>
    decreases
            match step.next {
                Some((_, task)) => task.left().1 + 1,
                None => 0,
            },
{
    match step.next {
        Some((query, task)) => if task matches TaskView::Delete(t) ==> t.well_formed() {
            proof {
                relays::lemma_goes_on(transport_id, registry, task, replies(query));
            }
            seq![query] + asked(
                transport_id,
                registry,
                relays::resumed(transport_id, registry, task, replies(query)),
                replies,
            )
        } else {
            seq![query]
        },
        None => Seq::empty(),
    }
}

/// What reading a content looks up from a step on.
pub open spec fn looked_up(
    step: ParseStepView,
    answers: spec_fn(Lookup) -> Answer,
) -> Seq<Query>
    decreases step.lookups_left(),
{
    match step {
        ParseStepView::Finished(_) => Seq::empty(),
        ParseStepView::Asking(lookup, parser) => {
            proof {
                content::lemma_resumed_progress(parser, answers(lookup));
            }
            seq![Query::Lookup(lookup)] + looked_up(
                content::resumed(parser, answers(lookup)),
                answers,
            )
        },
    }
}

/// What a post asks for once its content has been read.
spec fn asked_for_reply(post: Post, replies: spec_fn(Query) -> Reply) -> Seq<Query> {
    match post.reply {
        None => Seq::empty(),
        Some(reply) => seq![Query::PipoId { message: reply.id }] + if replies(
            Query::PipoId { message: reply.id },
        ) is PipoId {
            seq![Query::Message { channel: post.channel, message: reply.id }]
        } else {
            Seq::empty()
        },
    }
}

proof fn lemma_asked_reading(
    transport_id: usize,
    registry: Registry,
    post: Post,
    origin: Origin,
    step: ParseStepView,
    replies: spec_fn(Query) -> Reply,
)
    ensures
        asked(
            transport_id,
            registry,
            posts::content_reading(transport_id, post, origin, step),
            replies,
        ) == looked_up(step, relays::lookups(replies)) + asked_for_reply(post, replies),
    decreases step.lookups_left(),
{
    let none = Seq::<Query>::empty();
    match step {
        ParseStepView::Finished(_) => {
            reveal_with_fuel(asked, 4);
            let rest = asked_for_reply(post, replies);
            assert(none + rest =~= rest);
            let read = posts::content_reading(transport_id, post, origin, step);
            if let Some(reply) = post.reply {
                assert(seq![Query::PipoId { message: reply.id }] + none =~= seq![
                    Query::PipoId { message: reply.id },
                ]);
                let found = Query::Message { channel: post.channel, message: reply.id };
                assert(seq![found] + none =~= seq![found]);
            }
            assert(asked(transport_id, registry, read, replies) =~= rest);
        },
        ParseStepView::Asking(lookup, parser) => {
            let answer = relays::lookups(replies)(lookup);
            content::lemma_resumed_progress(parser, answer);
            let next = content::resumed(parser, answer);
            lemma_asked_reading(transport_id, registry, post, origin, next, replies);
            let later = looked_up(next, relays::lookups(replies));
            let rest = asked_for_reply(post, replies);
            let first = seq![Query::Lookup(lookup)];
            assert(first + (later + rest) =~= (first + later) + rest);
        },
    }
}

proof fn lemma_asked_post(
    transport_id: usize,
    registry: Registry,
    post: Post,
    replies: spec_fn(Query) -> Reply,
)
    ensures
        ({
            let identify = if post.is_edit {
                Query::PipoId { message: post.id }
            } else {
                Query::InsertMessage { message: post.id }
            };
            asked(
                transport_id,
                registry,
                crate::inbound::asking(
                    Query::Channel { channel: post.channel },
                    TaskView::Post(PostTaskView { post, stage: PostStageView::Channel }),
                ),
                replies,
            ) == if !(replies(Query::Channel { channel: post.channel }) matches Reply::Channel(
                ChannelKind::Guild(_),
            )) || registry.route(post.channel) is None {
                seq![Query::Channel { channel: post.channel }]
            } else if replies(identify) !is PipoId || post.content is None {
                seq![Query::Channel { channel: post.channel }, identify]
            } else {
                seq![Query::Channel { channel: post.channel }, identify] + looked_up(
                    content::parsed(post.guild->0, post.now, post.content->0@, 0, Seq::empty()),
                    relays::lookups(replies),
                ) + asked_for_reply(post, replies)
            }
        }),
{
    let none = Seq::<Query>::empty();
    let first = Query::Channel { channel: post.channel };
    let identify = if post.is_edit {
        Query::PipoId { message: post.id }
    } else {
        Query::InsertMessage { message: post.id }
    };
    reveal_with_fuel(asked, 3);
    assert(seq![first] + none =~= seq![first]);
    assert(seq![first] + (seq![identify] + none) =~= seq![first, identify]);
    if let Some((bus, thread)) = registry.route(post.channel) {
        if let Reply::PipoId(pipo_id) = replies(identify) {
            if let Some(raw) = post.content {
                let origin = Origin { bus, thread, pipo_id };
                let step = content::parsed(post.guild->0, post.now, raw@, 0, Seq::empty());
                lemma_asked_reading(transport_id, registry, post, origin, step, replies);
                let looked = looked_up(step, relays::lookups(replies));
                let rest = asked_for_reply(post, replies);
                assert(seq![first] + (seq![identify] + (looked + rest)) =~= seq![first, identify]
                    + looked + rest);
            }
        }
    }
}

/// A new message that is relayed asks for its channel, for an id of its own, for what its content
/// refers to, and for the id and the text of the message that it replies to, in this order. It
/// asks for nothing else, and for nothing more once it turns out that it is not relayed.
pub proof fn law_messages_ask_for_what_they_need(
    transport_id: usize,
    registry: Registry,
    msg: NewMessage,
    now: i64,
    replies: spec_fn(Query) -> Reply,
    answers: spec_fn(Lookup) -> Answer,
)
    requires
        forall|lookup: Lookup| #[trigger]
            answers(lookup) == match replies(Query::Lookup(lookup)) {
                Reply::Lookup(answer) => answer,
                _ => Answer::Failed,
            },
    ensures
        ({
            let all = asked(
                transport_id,
                registry,
                handler::message_started(msg, now),
                replies,
            );
            let channel = Query::Channel { channel: msg.channel };
            let store = Query::InsertMessage { message: msg.id };
            if msg.bot || msg.kind is Other {
                all == Seq::<Query>::empty()
            } else if !(replies(channel) matches Reply::Channel(ChannelKind::Guild(_))) || (
            !registry.channels().contains_key(msg.channel) && !registry.threads().contains_key(
                msg.channel,
            )) {
                all == seq![channel]
            } else if replies(store) !is PipoId {
                all == seq![channel, store]
            } else {
                let looked = looked_up(
                    content::parsed(msg.guild->0, now, msg.content@, 0, Seq::empty()),
                    answers,
                );
                match msg.reply {
                    None => all == seq![channel, store] + looked,
                    Some(reply) => {
                        let id = Query::PipoId { message: reply.id };
                        if replies(id) is PipoId {
                            all == seq![channel, store] + looked + seq![
                                id,
                                Query::Message { channel: msg.channel, message: reply.id },
                            ]
                        } else {
                            all == seq![channel, store] + looked + seq![id]
                        }
                    },
                }
            }
        }),
{
    assert(relays::lookups(replies) =~= answers);
    let post = Post {
        id: msg.id,
        channel: msg.channel,
        guild: msg.guild,
        author: msg.author,
        content: Some(msg.content),
        attachments: Some(msg.attachments),
        reply: msg.reply,
        is_edit: false,
        now,
    };
    lemma_asked_post(transport_id, registry, post, replies);
    let looked = looked_up(
        content::parsed(msg.guild->0, now, msg.content@, 0, Seq::empty()),
        answers,
    );
    let begun = seq![
        Query::Channel { channel: msg.channel },
        Query::InsertMessage { message: msg.id },
    ] + looked;
    match msg.reply {
        None => {
            assert(begun + Seq::<Query>::empty() =~= begun);
        },
        Some(reply) => {
            let id = Query::PipoId { message: reply.id };
            let found = Query::Message { channel: msg.channel, message: reply.id };
            assert(begun + (seq![id] + seq![found]) =~= begun + seq![id, found]);
            assert(begun + (seq![id] + Seq::<Query>::empty()) =~= begun + seq![id]);
        },
    }
}

/// A changed message that is relayed asks for its channel, for the id that it has, and for what
/// its content refers to, in this order, and for nothing else.
pub proof fn law_edits_ask_for_what_they_need(
    transport_id: usize,
    registry: Registry,
    edit: MessageEdit,
    now: i64,
    replies: spec_fn(Query) -> Reply,
    answers: spec_fn(Lookup) -> Answer,
)
    requires
        forall|lookup: Lookup| #[trigger]
            answers(lookup) == match replies(Query::Lookup(lookup)) {
                Reply::Lookup(answer) => answer,
                _ => Answer::Failed,
            },
    ensures
        ({
            let all = asked(
                transport_id,
                registry,
                handler::edit_started(edit, now),
                replies,
            );
            let channel = Query::Channel { channel: edit.channel };
            let id = Query::PipoId { message: edit.id };
            if edit.author is None || (edit.author->0).1 {
                all == Seq::<Query>::empty()
            } else if !(replies(channel) matches Reply::Channel(ChannelKind::Guild(_))) || (
            !registry.channels().contains_key(edit.channel) && !registry.threads().contains_key(
                edit.channel,
            )) {
                all == seq![channel]
            } else if replies(id) !is PipoId || edit.content is None {
                all == seq![channel, id]
            } else {
                all == seq![channel, id] + looked_up(
                    content::parsed(edit.guild->0, now, edit.content->0@, 0, Seq::empty()),
                    answers,
                )
            }
        }),
{
    assert(relays::lookups(replies) =~= answers);
    if let Some((author, false)) = edit.author {
        let post = Post {
            id: edit.id,
            channel: edit.channel,
            guild: edit.guild,
            author,
            content: edit.content,
            attachments: edit.attachments,
            reply: None,
            is_edit: true,
            now,
        };
        lemma_asked_post(transport_id, registry, post, replies);
        let begun = seq![
            Query::Channel { channel: edit.channel },
            Query::PipoId { message: edit.id },
        ] + looked_up(
            content::parsed(edit.guild->0, now, edit.content->0@, 0, Seq::empty()),
            answers,
        );
        assert(begun + Seq::<Query>::empty() =~= begun);
    }
}

/// A reaction asks for the bridge's own user, for its channel and for the id of its message, in
/// this order, and for nothing more once it turns out that it is not relayed.
pub proof fn law_reactions_ask_for_what_they_need(
    transport_id: usize,
    registry: Registry,
    event: ReactionEvent,
    remove: bool,
    replies: spec_fn(Query) -> Reply,
)
    ensures
        ({
            let all = asked(
                transport_id,
                registry,
                handler::reaction_started(event, remove),
                replies,
            );
            let channel = Query::Channel { channel: event.channel };
            let own = replies(Query::CurrentUser);
            if !(own matches Reply::CurrentUser(user) && event.user != Some(user)) {
                all == seq![Query::CurrentUser]
            } else if !(replies(channel) matches Reply::Channel(ChannelKind::Guild(_))) || (
            !registry.channels().contains_key(event.channel) && !registry.threads().contains_key(
                event.channel,
            )) {
                all == seq![Query::CurrentUser, channel]
            } else {
                all == seq![
                    Query::CurrentUser,
                    channel,
                    Query::PipoId { message: event.message },
                ]
            }
        }),
{
    reveal_with_fuel(asked, 4);
    let none = Seq::<Query>::empty();
    let own = Query::CurrentUser;
    let channel = Query::Channel { channel: event.channel };
    let id = Query::PipoId { message: event.message };
    assert(seq![own] + none =~= seq![own]);
    assert(seq![own] + (seq![channel] + none) =~= seq![own, channel]);
    assert(seq![own] + (seq![channel] + (seq![id] + none)) =~= seq![own, channel, id]);
}

/// Deleted messages ask for their channel, and then for the id of each, in their order.
pub proof fn law_deletions_ask_for_what_they_need(
    transport_id: usize,
    registry: Registry,
    channel: u64,
    messages: Seq<u64>,
    replies: spec_fn(Query) -> Reply,
)
    requires
        messages.len() <= usize::MAX,
    ensures
        ({
            let all = asked(
                transport_id,
                registry,
                handler::delete_started(channel, messages),
                replies,
            );
            let first = Query::Channel { channel };
            if (replies(first) matches Reply::Channel(ChannelKind::Guild(_))) && (
            registry.channels().contains_key(channel) || registry.threads().contains_key(channel)) {
                &&& all.len() == messages.len() + 1
                &&& all[0] == first
                &&& forall|i: int|
                    0 <= i < messages.len() ==> #[trigger] all[i + 1] == (Query::PipoId {
                        message: messages[i],
                    })
            } else {
                all == seq![first]
            }
        }),
{
    reveal_with_fuel(asked, 2);
    let first = Query::Channel { channel };
    assert(seq![first] + Seq::<Query>::empty() =~= seq![first]);
    if let Some((bus, _)) = registry.route(channel) {
        let begun = StepView {
            unread: None,
            send: None,
            next: changes::delete_from(channel, messages, bus, 0),
        };
        lemma_asked_deletions(transport_id, registry, channel, messages, bus, 0, begun, replies);
    }
}

proof fn lemma_asked_deletions(
    transport_id: usize,
    registry: Registry,
    channel: u64,
    messages: Seq<u64>,
    bus: String,
    at: int,
    step: StepView,
    replies: spec_fn(Query) -> Reply,
)
    requires
        0 <= at <= messages.len() <= usize::MAX,
        step.next == changes::delete_from(channel, messages, bus, at),
    ensures
        ({
            let all = asked(transport_id, registry, step, replies);
            &&& all.len() == messages.len() - at
            &&& forall|i: int|
                0 <= i < all.len() ==> #[trigger] all[i] == (Query::PipoId {
                    message: messages[at + i],
                })
        }),
    decreases messages.len() - at,
{
    if at < messages.len() {
        let (query, task) = step.next->0;
        let next = relays::resumed(transport_id, registry, task, replies(query));
        lemma_asked_deletions(
            transport_id,
            registry,
            channel,
            messages,
            bus,
            at + 1,
            next,
            replies,
        );
        let rest = asked(transport_id, registry, next, replies);
        let all = asked(transport_id, registry, step, replies);
        assert(all == seq![query] + rest);
        assert forall|i: int| 0 <= i < all.len() implies #[trigger] all[i] == (Query::PipoId {
            message: messages[at + i],
        }) by {
            if i > 0 {
                assert(all[i] == rest[i - 1]);
            }
        }
    }
}

/// Each kind of event goes on by its own rule. Pins are changed by a change of pins alone, and what
/// is followed by guilds and threads alone.
pub proof fn law_events_go_on_by_their_own_rule(
    transport_id: usize,
    task: TaskView,
    reply: Reply,
    pins: Set<u64>,
    before: Registry,
    step: StepView,
    new_pins: Set<u64>,
    now: Registry,
)
    requires
        handler::handled(transport_id, task, reply, pins, before, step, new_pins, now),
    ensures
        task !is Pins ==> new_pins == pins,
        task !is Guild && task !is Thread ==> now.channels() == before.channels() && now.threads()
            == before.threads(),
        match task {
            TaskView::Post(post) => step == posts::post_resumed(transport_id, before, post, reply),
            TaskView::Delete(deletion) => step == changes::delete_resumed(
                transport_id,
                before,
                deletion,
                reply,
            ),
            TaskView::Reaction(reaction) => step == changes::reaction_resumed(
                transport_id,
                before,
                reaction,
                reply,
            ),
            TaskView::Pins(change) => changes::pins_step(
                transport_id,
                change,
                reply,
                pins,
                step,
                new_pins,
            ),
            TaskView::Guild(guild) => changes::guild_step(guild, reply, before, step, now),
            TaskView::Thread(thread) => step.send is None && step.next is None && step.unread
                is None,
        },
{
}

} // verus!
