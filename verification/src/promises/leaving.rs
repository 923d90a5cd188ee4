//! What comes over a bus, and what it asks of Discord.
//!
//! Each law follows a message from the bus through everything that may come back.

use crate::discord;
use crate::jobs;
use crate::jobs::{JobView, TextMessage};
use crate::message::Message;
use crate::outbound;
use crate::outbound::{
    BridgeError, CallView, Failure, GuildEmoji, ProgressView, ReactionTypeView, Response,
};
use crate::outside;
use crate::registry::Registry;
use vstd::prelude::*;
use vstd::utf8;

verus! {

/// Whether a job is over with the next response: well, or with the failure's text.
pub open spec fn concludes(job: JobView) -> bool {
    forall|registry: Registry, emojis: Map<Seq<char>, GuildEmoji>, response: Response| #[trigger]
        jobs::job_resumed(registry, emojis, job, response) == match response {
            Response::Failed(failure) => ProgressView::Done(
                Err(BridgeError::Outside(failure.message)),
            ),
            _ => ProgressView::Done(Ok(())),
        }
}

/// Whether a job remembers the message that was sent under an id of the bridge, and is over then.
pub open spec fn remembers(job: JobView, pipo_id: i64) -> bool {
    forall|registry: Registry, emojis: Map<Seq<char>, GuildEmoji>, response: Response|
        match response {
            Response::Sent(message) => {
                &&& #[trigger] jobs::job_resumed(
                    registry,
                    emojis,
                    job,
                    response,
                ) matches ProgressView::Ask(call, next)
                &&& call == (CallView::SetDiscordId { pipo_id, message })
                &&& concludes(next)
            },
            Response::Failed(failure) => jobs::job_resumed(registry, emojis, job, response)
                == ProgressView::Done(Err(BridgeError::Outside(failure.message))),
            _ => true,
        }
}

proof fn lemma_last()
    ensures
        concludes(JobView::Last),
{
}

proof fn lemma_posted(pipo_id: i64)
    ensures
        remembers(JobView::Posted { pipo_id }, pipo_id),
{
    lemma_last();
}

proof fn lemma_heading(username: Seq<char>, transport: Seq<char>)
    ensures
        jobs::heading(username, transport) == "**"@ + username + "** ["@ + transport + "]\n"@,
{
    reveal_strlit("**");
    reveal_strlit(" [");
    reveal_strlit("** [");
    reveal_strlit("]");
    reveal_strlit("\n");
    reveal_strlit("]\n");
    assert(jobs::heading(username, transport) =~= "**"@ + username + "** ["@ + transport + "]\n"@);
}

/// The transport's own messages, those of bots and lists of names ask for nothing.
pub proof fn law_some_messages_ask_for_nothing(
    transport_id: usize,
    registry: Registry,
    emojis: Map<Seq<char>, GuildEmoji>,
    channel: u64,
    message: Message,
)
    requires
        match message {
            Message::Action { sender, .. } => sender == transport_id,
            Message::Delete { sender, .. } => sender == transport_id,
            Message::Pin { sender, .. } => sender == transport_id,
            Message::Reaction { sender, .. } => sender == transport_id,
            Message::Text { sender, .. } => sender == transport_id,
            Message::Bot { .. } => true,
            Message::Names { .. } => true,
        },
    ensures
        discord::dispatched(transport_id, registry, emojis, channel, message)
            == ProgressView::Done(Ok(())),
{
}

/// An action of another transport is said in its channel: the user in bold, the network in
/// brackets, and on the next line what is done, in italics. The message is remembered under the
/// action's id. An edit looks for the message of that id, and changes it to the same text. An
/// action without a text is an error.
pub proof fn law_actions_are_said(
    transport_id: usize,
    registry: Registry,
    emojis: Map<Seq<char>, GuildEmoji>,
    channel: u64,
    action: Message,
    response: Response,
)
    requires
        action matches Message::Action { sender, .. } && sender != transport_id,
    ensures
        action matches Message::Action { pipo_id, transport, username, message, is_edit, .. } && {
            let progress = discord::dispatched(transport_id, registry, emojis, channel, action);
            match message {
                None => progress == ProgressView::Done(Err(BridgeError::EmptyMessage)),
                Some(body) => {
                    let content = "**"@ + username@ + "** ["@ + transport@ + "]\n"@ + "_"@ + body@
                        + "_"@;
                    &&& progress matches ProgressView::Ask(call, job)
                    &&& if is_edit {
                        &&& call == (CallView::DiscordId { pipo_id })
                        &&& {
                            let next = jobs::job_resumed(registry, emojis, job, response);
                            match response {
                                Response::DiscordId(Some(id)) => {
                                    &&& next matches ProgressView::Ask(edit, end)
                                    &&& edit == (CallView::EditMessage {
                                        channel,
                                        message: id,
                                        content,
                                    })
                                    &&& concludes(end)
                                },
                                Response::DiscordId(None) => next == ProgressView::Done(
                                    Err(BridgeError::UnknownId(pipo_id)),
                                ),
                                Response::Failed(failure) => next == ProgressView::Done(
                                    Err(BridgeError::Outside(failure.message)),
                                ),
                                _ => true,
                            }
                        }
                    } else {
                        &&& call == (CallView::Say { channel, content })
                        &&& remembers(job, pipo_id)
                    }
                },
            }
        },
{
    if let Message::Action { pipo_id, transport, username, .. } = action {
        lemma_heading(username@, transport@);
        lemma_posted(pipo_id);
        lemma_last();
    }
}

/// A deletion of another transport's looks for the message of its id, and deletes it: through the
/// channel's webhook where there is one that can be had, and by the bridge itself otherwise. Where
/// there is no such message, that is an error.
pub proof fn law_messages_are_deleted(
    transport_id: usize,
    registry: Registry,
    emojis: Map<Seq<char>, GuildEmoji>,
    channel: u64,
    deletion: Message,
    found: Response,
    hooked: Response,
)
    requires
        deletion matches Message::Delete { sender, .. } && sender != transport_id,
        hooked is Found || hooked is Failed,
    ensures
        deletion matches Message::Delete { pipo_id, .. } && {
            &&& discord::dispatched(
                transport_id,
                registry,
                emojis,
                channel,
                deletion,
            ) matches ProgressView::Ask(call, job)
            &&& call == (CallView::DiscordId { pipo_id })
            &&& {
                let next = jobs::job_resumed(registry, emojis, job, found);
                match found {
                    Response::DiscordId(Some(message)) => {
                        &&& next matches ProgressView::Ask(second, after)
                        &&& if registry.channels().contains_key(channel)
                            && registry.channels()[channel].webhook is Some {
                            let webhook = registry.channels()[channel].webhook->0;
                            &&& second == (CallView::Webhook { webhook })
                            &&& jobs::job_resumed(
                                registry,
                                emojis,
                                after,
                                hooked,
                            ) matches ProgressView::Ask(third, end)
                            &&& third == if hooked is Found {
                                CallView::WebhookDelete { webhook, message }
                            } else {
                                CallView::DeleteMessage { channel, message }
                            }
                            &&& concludes(end)
                        } else {
                            &&& second == (CallView::DeleteMessage { channel, message })
                            &&& concludes(after)
                        }
                    },
                    Response::DiscordId(None) => next == ProgressView::Done(
                        Err(BridgeError::NoMessage),
                    ),
                    Response::Failed(failure) => next == ProgressView::Done(
                        Err(BridgeError::Outside(failure.message)),
                    ),
                    _ => true,
                }
            }
        },
{
    lemma_last();
}

/// A pin of another transport's looks for the message of its id, and pins it, or unpins it. Where
/// there is no such message, that is an error.
pub proof fn law_messages_are_pinned(
    transport_id: usize,
    registry: Registry,
    emojis: Map<Seq<char>, GuildEmoji>,
    channel: u64,
    pin: Message,
    found: Response,
)
    requires
        pin matches Message::Pin { sender, .. } && sender != transport_id,
    ensures
        pin matches Message::Pin { pipo_id, remove, .. } && {
            &&& discord::dispatched(
                transport_id,
                registry,
                emojis,
                channel,
                pin,
            ) matches ProgressView::Ask(call, job)
            &&& call == (CallView::DiscordId { pipo_id })
            &&& {
                let next = jobs::job_resumed(registry, emojis, job, found);
                match found {
                    Response::DiscordId(Some(message)) => {
                        &&& next matches ProgressView::Ask(second, end)
                        &&& remove ==> second == (CallView::Unpin { channel, message })
                        &&& !remove ==> second == (CallView::Pin { channel, message })
                        &&& concludes(end)
                    },
                    Response::DiscordId(None) => next == ProgressView::Done(
                        Err(BridgeError::NoMessage),
                    ),
                    Response::Failed(failure) => next == ProgressView::Done(
                        Err(BridgeError::Outside(failure.message)),
                    ),
                    _ => true,
                }
            }
        },
{
    lemma_last();
}

/// Whether a job reacts to the message of an id with an emoji, or takes the reaction back.
pub open spec fn reacts(
    progress: ProgressView,
    channel: u64,
    pipo_id: i64,
    emoji: ReactionTypeView,
    remove: bool,
) -> bool {
    &&& progress matches ProgressView::Ask(call, job)
    &&& call == (CallView::DiscordId { pipo_id })
    &&& forall|registry: Registry, emojis: Map<Seq<char>, GuildEmoji>, found: Response|
        match found {
            Response::DiscordId(Some(message)) => {
                &&& #[trigger] jobs::job_resumed(
                    registry,
                    emojis,
                    job,
                    found,
                ) matches ProgressView::Ask(second, end)
                &&& remove ==> second == (CallView::DeleteReaction { channel, message, emoji })
                &&& !remove ==> second == (CallView::CreateReaction { channel, message, emoji })
                &&& concludes(end)
            },
            Response::DiscordId(None) => jobs::job_resumed(registry, emojis, job, found)
                == ProgressView::Done(Err(BridgeError::NoMessage)),
            Response::Failed(failure) => jobs::job_resumed(registry, emojis, job, found)
                == ProgressView::Done(Err(BridgeError::Outside(failure.message))),
            _ => true,
        }
}

proof fn lemma_reacts(channel: u64, pipo_id: i64, emoji: ReactionTypeView, remove: bool)
    ensures
        reacts(jobs::reacting(channel, pipo_id, emoji, remove), channel, pipo_id, emoji, remove),
{
    lemma_last();
}

/// A reaction of another transport's is put on the message of its id, or taken back. An emoji of
/// Unicode's is taken as it is. Any other is one of the guild's own: one that is known is taken at
/// once, and for one that is not the guild's emojis are listed. Of those, the last that bears the
/// name is taken, and where none does, that is an error.
pub proof fn law_reactions_are_put_on_messages(
    transport_id: usize,
    registry: Registry,
    emojis: Map<Seq<char>, GuildEmoji>,
    channel: u64,
    reaction: Message,
    list: Vec<GuildEmoji>,
    last: int,
    failure: Failure,
)
    requires
        reaction matches Message::Reaction { sender, emoji, .. } && sender != transport_id && -1
            <= last < list@.len() && (last >= 0 ==> list@[last].name@ == emoji@) && forall|k: int|
            last < k < list@.len() ==> (#[trigger] list@[k]).name@ != emoji@,
    ensures
        reaction matches Message::Reaction { pipo_id, emoji, remove, .. } && {
            let progress = discord::dispatched(
                transport_id,
                registry,
                emojis,
                channel,
                reaction,
            );
            match outside::emoji_named(emoji@) {
                Some(unicode) => reacts(
                    progress,
                    channel,
                    pipo_id,
                    ReactionTypeView::Unicode(unicode),
                    remove,
                ),
                None => if emojis.contains_key(emoji@) {
                    let known = emojis[emoji@];
                    reacts(
                        progress,
                        channel,
                        pipo_id,
                        ReactionTypeView::Custom {
                            animated: known.animated,
                            id: known.id,
                            name: known.name@,
                        },
                        remove,
                    )
                } else {
                    &&& progress matches ProgressView::Ask(call, job)
                    &&& call == CallView::GuildEmojis
                    &&& {
                        let now = jobs::emojis_after(emojis, job, Response::Emojis(list));
                        let next = jobs::job_resumed(registry, now, job, Response::Emojis(list));
                        if last >= 0 {
                            reacts(
                                next,
                                channel,
                                pipo_id,
                                ReactionTypeView::Custom {
                                    animated: list@[last].animated,
                                    id: list@[last].id,
                                    name: list@[last].name@,
                                },
                                remove,
                            )
                        } else {
                            next == ProgressView::Done(Err(BridgeError::UnknownEmoji))
                        }
                    }
                    &&& jobs::emojis_after(emojis, job, Response::Failed(failure)) == emojis
                    &&& jobs::job_resumed(registry, emojis, job, Response::Failed(failure))
                        == ProgressView::Done(Err(BridgeError::Outside(failure.message)))
                },
            }
        },
{
    if let Message::Reaction { pipo_id, emoji, remove, .. } = reaction {
        match outside::emoji_named(emoji@) {
            Some(unicode) => {
                lemma_reacts(channel, pipo_id, ReactionTypeView::Unicode(unicode), remove);
            },
            None => {
                if emojis.contains_key(emoji@) {
                    lemma_reacts(
                        channel,
                        pipo_id,
                        jobs::reaction_with(emojis[emoji@]),
                        remove,
                    );
                } else {
                    crate::promises::keeping::law_listed_emojis_are_known(
                        emojis,
                        channel,
                        pipo_id,
                        emoji@,
                        remove,
                        list,
                        emoji@,
                        last,
                    );
                    if last >= 0 {
                        lemma_reacts(
                            channel,
                            pipo_id,
                            jobs::reaction_with(list@[last]),
                            remove,
                        );
                    }
                }
            },
        }
    }
}

/// A reaction with an emoji that was found is one with that emoji. Where none was found it is one
/// with the emoji of the guild's own that is known under the name, and where none is known the
/// guild's emojis are asked for.
pub proof fn law_found_emojis_are_reacted_with(
    emojis: Map<Seq<char>, GuildEmoji>,
    channel: u64,
    pipo_id: i64,
    emoji: Seq<char>,
    found: Option<Seq<char>>,
    remove: bool,
)
    ensures
        ({
            let progress = discord::reaction_with_found(
                emojis,
                channel,
                pipo_id,
                emoji,
                found,
                remove,
            );
            match found {
                Some(unicode) => reacts(
                    progress,
                    channel,
                    pipo_id,
                    ReactionTypeView::Unicode(unicode),
                    remove,
                ),
                None => if emojis.contains_key(emoji) {
                    reacts(
                        progress,
                        channel,
                        pipo_id,
                        ReactionTypeView::Custom {
                            animated: emojis[emoji].animated,
                            id: emojis[emoji].id,
                            name: emojis[emoji].name@,
                        },
                        remove,
                    )
                } else {
                    progress matches ProgressView::Ask(call, _) && call == CallView::GuildEmojis
                },
            }
        }),
{
    match found {
        Some(unicode) => {
            lemma_reacts(channel, pipo_id, ReactionTypeView::Unicode(unicode), remove);
        },
        None => {
            if emojis.contains_key(emoji) {
                lemma_reacts(channel, pipo_id, jobs::reaction_with(emojis[emoji]), remove);
            }
        },
    }
}

/// A text of another transport's without a thread on Slack begins with its message and a line
/// feed, or, where it has attachments and no message, with a line that says so. One with neither
/// is an error. The attachments come next, from the first on.
pub proof fn law_texts_begin_with_their_message(
    transport_id: usize,
    registry: Registry,
    emojis: Map<Seq<char>, GuildEmoji>,
    channel: u64,
    text: Message,
)
    requires
        text matches Message::Text { sender, thread, .. } && sender != transport_id && (
        thread is None || (thread->0).0 is None),
    ensures
        text matches Message::Text {
            pipo_id,
            transport,
            username,
            avatar_url,
            message,
            attachments,
            is_edit,
            ..
        } && {
            let progress = discord::dispatched(transport_id, registry, emojis, channel, text);
            if message is None && attachments is None {
                progress == ProgressView::Done(Err(BridgeError::NoContents))
            } else {
                progress == jobs::attached_from(
                    registry,
                    TextMessage {
                        channel,
                        pipo_id,
                        transport,
                        username,
                        avatar_url,
                        message,
                        attachments,
                        is_edit,
                    },
                    if message is Some {
                        message->0@ + seq!['\n']
                    } else {
                        "Attachment:\n"@
                    },
                    0,
                )
            }
        },
{
    reveal_strlit("\n");
    reveal_strlit("Attachment:");
    reveal_strlit("Attachment:\n");
    assert("\n"@ =~= seq!['\n']);
    assert("Attachment:"@ + "\n"@ =~= "Attachment:\n"@);
}

/// The name that a thread is opened under: the message it is opened for, or the beginning of it
/// where it is longer than the two hundred bytes that a name may have. A message of less than two
/// bytes has an exclamation mark put behind it, and where there is no message the name says that
/// the thread is new.
pub open spec fn names(name: Seq<char>, message: Option<String>) -> bool {
    match message {
        None => name == "New Thread"@,
        Some(s) => {
            let size = utf8::encode_utf8(s@).len();
            &&& size < 2 ==> name == s@.push('!')
            &&& 2 <= size <= 200 ==> name == s@
            &&& size > 200 && utf8::is_char_boundary(utf8::encode_utf8(s@), 200) ==> {
                &&& name.is_prefix_of(s@)
                &&& utf8::encode_utf8(name).len() == 200
            }
        },
    }
}

proof fn lemma_names(message: Option<String>)
    ensures
        names(jobs::thread_name(message), message),
{
    reveal_strlit("!");
    if let Some(s) = message {
        let bytes = utf8::encode_utf8(s@);
        assert(s@ + "!"@ =~= s@.push('!'));
        if bytes.len() > 200 && utf8::is_char_boundary(bytes, 200) {
            utf8::encode_utf8_valid_utf8(s@);
            utf8::valid_utf8_split(bytes, 200);
            utf8::decode_utf8_encode_utf8(bytes.subrange(0, 200));
            utf8::decode_utf8_split(bytes, 200);
            utf8::encode_utf8_decode_utf8(s@);
        }
    }
}

/// The same text in another channel, from its beginning.
pub open spec fn text_within(registry: Registry, text: TextMessage, channel: u64) -> ProgressView {
    jobs::attached_from(
        registry,
        TextMessage { channel, ..text },
        if text.message is Some {
            text.message->0@ + seq!['\n']
        } else {
            "Attachment:\n"@
        },
        0,
    )
}

/// A text of another transport's in a thread on Slack looks for the message on Discord that the
/// thread hangs on. Without one it stays in its channel. The thread on that message has the
/// message's id. It is opened where it is not known, to be put away after a day: the text goes
/// into the thread that was opened, or, where Discord says that there is one already, into that
/// one. Where it cannot be opened for another reason, that is an error.
pub proof fn law_threads_on_slack_become_threads(
    transport_id: usize,
    registry: Registry,
    emojis: Map<Seq<char>, GuildEmoji>,
    channel: u64,
    text: Message,
    found: Response,
    opened: Response,
)
    requires
        text matches Message::Text { sender, thread, message, attachments, .. } && sender
            != transport_id && thread is Some && (thread->0).0 is Some && (message is Some
            || attachments is Some),
    ensures
        text matches Message::Text {
            pipo_id,
            transport,
            username,
            avatar_url,
            thread,
            message,
            attachments,
            is_edit,
            ..
        } && {
            let whole = TextMessage {
                channel,
                pipo_id,
                transport,
                username,
                avatar_url,
                message,
                attachments,
                is_edit,
            };
            &&& discord::dispatched(
                transport_id,
                registry,
                emojis,
                channel,
                text,
            ) matches ProgressView::Ask(call, job)
            &&& call == (CallView::DiscordIdOfSlack { slack_id: (thread->0).0->0@ })
            &&& {
                let next = jobs::job_resumed(registry, emojis, job, found);
                match found {
                    Response::Failed(failure) => next == ProgressView::Done(
                        Err(BridgeError::Outside(failure.message)),
                    ),
                    Response::DiscordId(None) => next == text_within(registry, whole, channel),
                    Response::DiscordId(Some(id)) => if registry.threads().contains_key(id) {
                        next == text_within(registry, whole, id)
                    } else {
                        &&& next matches ProgressView::Ask(
                            CallView::CreateThread {
                                channel: within,
                                message: on,
                                name,
                                archive_minutes,
                            },
                            waiting,
                        )
                        &&& within == channel && on == id && archive_minutes == 1440
                        &&& names(name, message)
                        &&& {
                            let last = jobs::job_resumed(registry, emojis, waiting, opened);
                            match opened {
                                Response::Thread(new) => last == text_within(registry, whole, new),
                                Response::Failed(failure) => if failure.code == Some(160004i64) {
                                    last == text_within(registry, whole, id)
                                } else {
                                    last == ProgressView::Done(Err(BridgeError::NoThread))
                                },
                                _ => true,
                            }
                        }
                    },
                    _ => true,
                }
            }
        },
{
    reveal_strlit("\n");
    reveal_strlit("Attachment:");
    reveal_strlit("Attachment:\n");
    assert("\n"@ =~= seq!['\n']);
    assert("Attachment:"@ + "\n"@ =~= "Attachment:\n"@);
    if let Message::Text { message, .. } = text {
        lemma_names(message);
    }
}

/// An attachment that stands for no message of the bridge's is passed over. For any other the
/// message of its id is looked for, and then asked for. Where it can be had, the text so far
/// becomes a reply to it, which is remembered under the attachment's id. Where it cannot, what is
/// shown of the attachment is quoted behind the text, and the next attachment comes.
pub proof fn law_attached_messages_are_replied_to(
    registry: Registry,
    emojis: Map<Seq<char>, GuildEmoji>,
    text: TextMessage,
    content: Seq<char>,
    at: int,
    found: Response,
    fetched: Response,
)
    requires
        text.attachments matches Some(list) && 0 <= at < list@.len(),
        found is DiscordId || found is Failed,
        fetched is Found || fetched is Failed,
    ensures
        ({
            let progress = jobs::attached_from(registry, text, content, at);
            let attachment = text.attachments->0@[at];
            let longer = match attachment.fallback {
                Some(shown) => content + "> "@ + outside::quote_safe(shown@) + seq!['\n'],
                None => content,
            };
            let further = jobs::attached_from(registry, text, longer, at + 1);
            match attachment.pipo_id {
                None => progress == jobs::attached_from(registry, text, content, at + 1),
                Some(id) => {
                    &&& progress matches ProgressView::Ask(call, job)
                    &&& call == (CallView::DiscordId { pipo_id: id })
                    &&& {
                        let next = jobs::job_resumed(registry, emojis, job, found);
                        match found {
                            Response::DiscordId(Some(message)) => {
                                &&& next matches ProgressView::Ask(fetch, waiting)
                                &&& fetch == (CallView::FetchMessage {
                                    channel: text.channel,
                                    message,
                                })
                                &&& {
                                    let last = jobs::job_resumed(
                                        registry,
                                        emojis,
                                        waiting,
                                        fetched,
                                    );
                                    if fetched is Found {
                                        &&& last matches ProgressView::Ask(reply, posted)
                                        &&& reply == (CallView::Reply {
                                            channel: text.channel,
                                            message,
                                            content,
                                        })
                                        &&& remembers(posted, id)
                                    } else {
                                        last == further
                                    }
                                }
                            },
                            _ => next == further,
                        }
                    }
                },
            }
        }),
{
    reveal_strlit("\n");
    assert("\n"@ =~= seq!['\n']);
    assert(text.attachments->0@.len() == text.attachments->0.len());
    if let Some(id) = text.attachments->0@[at].pipo_id {
        lemma_posted(id);
    }
}

/// Whether a text is said in its channel under the user's name and network, and remembered.
pub open spec fn is_said(progress: ProgressView, text: TextMessage, content: Seq<char>) -> bool {
    &&& progress matches ProgressView::Ask(call, job)
    &&& call == (CallView::Say {
        channel: text.channel,
        content: "**"@ + text.username@ + "** ["@ + text.transport@ + "]\n"@ + content + seq!['\n'],
    })
    &&& remembers(job, text.pipo_id)
}

/// Behind its last attachment a text that is no edit is posted and remembered under its id: through
/// the channel's webhook under the user's name, network and picture, or, where there is no webhook
/// or it fails, by the bridge itself with the user and the network in front.
pub proof fn law_texts_are_posted(
    registry: Registry,
    emojis: Map<Seq<char>, GuildEmoji>,
    text: TextMessage,
    content: Seq<char>,
    at: int,
    hooked: Response,
    executed: Response,
)
    requires
        !text.is_edit,
        text.attachments matches Some(list) ==> at >= list@.len(),
        hooked is Found || hooked is Failed,
        executed is Sent || executed is Failed,
    ensures
        ({
            let progress = jobs::attached_from(registry, text, content, at);
            if registry.channels().contains_key(text.channel)
                && registry.channels()[text.channel].webhook is Some {
                let webhook = registry.channels()[text.channel].webhook->0;
                &&& progress matches ProgressView::Ask(call, job)
                &&& call == (CallView::Webhook { webhook })
                &&& {
                    let next = jobs::job_resumed(registry, emojis, job, hooked);
                    if hooked is Found {
                        &&& next matches ProgressView::Ask(execute, waiting)
                        &&& execute == (CallView::WebhookExecute {
                            webhook,
                            content,
                            username: text.username@ + " ("@ + text.transport@ + ")"@,
                            avatar_url: match text.avatar_url {
                                Some(url) => Some(url@),
                                None => None,
                            },
                        })
                        &&& {
                            let last = jobs::job_resumed(registry, emojis, waiting, executed);
                            match executed {
                                Response::Sent(message) => {
                                    &&& last matches ProgressView::Ask(set, end)
                                    &&& set == (CallView::SetDiscordId {
                                        pipo_id: text.pipo_id,
                                        message,
                                    })
                                    &&& concludes(end)
                                },
                                _ => is_said(last, text, content),
                            }
                        }
                    } else {
                        is_said(next, text, content)
                    }
                }
            } else {
                is_said(progress, text, content)
            }
        }),
{
    reveal_strlit("\n");
    assert("\n"@ =~= seq!['\n']);
    lemma_heading(text.username@, text.transport@);
    lemma_posted(text.pipo_id);
    lemma_last();
}

/// Whether a message is changed to a text under the user's name and network.
pub open spec fn is_changed(
    progress: ProgressView,
    text: TextMessage,
    content: Seq<char>,
    message: u64,
) -> bool {
    &&& progress matches ProgressView::Ask(call, job)
    &&& call == (CallView::EditMessage {
        channel: text.channel,
        message,
        content: "**"@ + text.username@ + "** ["@ + text.transport@ + "]\n"@ + content + seq!['\n'],
    })
    &&& concludes(job)
}

/// Behind its last attachment an edit looks for the message of its id, and changes it: through the
/// channel's webhook, after which the message is remembered, or, where there is no webhook or it
/// fails, by the bridge itself with the user and the network in front. Where there is no such
/// message, that is an error.
pub proof fn law_texts_are_edited(
    registry: Registry,
    emojis: Map<Seq<char>, GuildEmoji>,
    text: TextMessage,
    content: Seq<char>,
    at: int,
    found: Response,
    hooked: Response,
    edited: Response,
)
    requires
        text.is_edit,
        text.attachments matches Some(list) ==> at >= list@.len(),
        found is DiscordId || found is Failed,
        hooked is Found || hooked is Failed,
        edited is Sent || edited is Failed,
    ensures
        ({
            &&& jobs::attached_from(registry, text, content, at) matches ProgressView::Ask(
                call,
                job,
            )
            &&& call == (CallView::DiscordId { pipo_id: text.pipo_id })
            &&& {
                let next = jobs::job_resumed(registry, emojis, job, found);
                match found {
                    Response::DiscordId(Some(message)) => if registry.channels().contains_key(
                        text.channel,
                    ) && registry.channels()[text.channel].webhook is Some {
                        let webhook = registry.channels()[text.channel].webhook->0;
                        &&& next matches ProgressView::Ask(hook, waiting)
                        &&& hook == (CallView::Webhook { webhook })
                        &&& {
                            let then = jobs::job_resumed(registry, emojis, waiting, hooked);
                            if hooked is Found {
                                &&& then matches ProgressView::Ask(edit, changing)
                                &&& edit == (CallView::WebhookEdit { webhook, message, content })
                                &&& {
                                    let last = jobs::job_resumed(
                                        registry,
                                        emojis,
                                        changing,
                                        edited,
                                    );
                                    match edited {
                                        Response::Sent(now) => {
                                            &&& last matches ProgressView::Ask(set, end)
                                            &&& set == (CallView::SetDiscordId {
                                                pipo_id: text.pipo_id,
                                                message: now,
                                            })
                                            &&& concludes(end)
                                        },
                                        _ => is_changed(last, text, content, message),
                                    }
                                }
                            } else {
                                is_changed(then, text, content, message)
                            }
                        }
                    } else {
                        is_changed(next, text, content, message)
                    },
                    Response::DiscordId(None) => next == ProgressView::Done(
                        Err(BridgeError::UnknownId(text.pipo_id)),
                    ),
                    Response::Failed(failure) => next == ProgressView::Done(
                        Err(BridgeError::Outside(failure.message)),
                    ),
                    _ => true,
                }
            }
        }),
{
    reveal_strlit("\n");
    assert("\n"@ =~= seq!['\n']);
    lemma_heading(text.username@, text.transport@);
    lemma_last();
}

/// What is said of each error.
pub proof fn law_bridge_errors_say_what_is_wrong(message: String, id: i64)
    ensures
        outbound::error_text(BridgeError::Outside(message)) == message@,
        outbound::error_text(BridgeError::EmptyMessage) == "Message is empty"@,
        outbound::error_text(BridgeError::NoContents) == "Message has no contents"@,
        outbound::error_text(BridgeError::NoMessage) == "No message for associated id"@,
        outbound::error_text(BridgeError::UnknownEmoji) == "Couldn't find emoji"@,
        outbound::error_text(BridgeError::NoThread) == "I don't know"@,
        outbound::error_text(BridgeError::Closed) == "ups"@,
        id >= 0 ==> exists|t: Seq<char>| #[trigger]
            crate::promises::reading::is_numeral(t, id as int) && outbound::error_text(
                BridgeError::UnknownId(id),
            ) == "Could find discordid for id: "@ + t,
        id < 0 ==> exists|t: Seq<char>| #[trigger]
            crate::promises::reading::is_numeral(t, -id) && outbound::error_text(
                BridgeError::UnknownId(id),
            ) == "Could find discordid for id: "@ + (seq!['-'] + t),
{
    crate::promises::reading::law_numbers_are_printed_in_decimal(id as int);
}

/// A thread can be named after a message where the name does not end within a character: after
/// none, after one of at most two hundred bytes, and after one with a character that begins at the
/// next byte.
pub proof fn law_threads_can_be_named_by_whole_characters(message: Option<String>)
    ensures
        jobs::can_name(message) == match message {
            None => true,
            Some(s) => utf8::encode_utf8(s@).len() <= 200 || utf8::is_char_boundary(
                utf8::encode_utf8(s@),
                200,
            ),
        },
{
}

} // verus!
