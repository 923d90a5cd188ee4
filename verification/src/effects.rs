//! What relaying a message to Discord comes to as a whole: the outside work in its order, and how
//! it ends.

use crate::discord;
use crate::jobs;
use crate::jobs::{JobView, TextMessage, TextStageView};
use crate::message::Message;
use crate::outbound::{
    BridgeError, CallView, Failure, GuildEmoji, ProgressView, ReactionTypeView, Response,
};
use crate::outside;
use crate::registry::Registry;
use crate::text;
use vstd::prelude::*;

verus! {

/// Outside work in its order, and how the relaying ends.
#[verifier::ext_equal]
pub struct Effect {
    pub calls: Seq<CallView>,
    pub outcome: Result<(), BridgeError>,
}

/// Whether a response is one that the outside work can bring.
pub open spec fn answers(call: CallView, response: Response) -> bool {
    response is Failed || match call {
        CallView::DiscordId { .. } => response is DiscordId,
        CallView::DiscordIdOfSlack { .. } => response is DiscordId,
        CallView::CreateThread { .. } => response is Thread,
        CallView::GuildEmojis => response is Emojis,
        CallView::Webhook { .. } => response is Found,
        CallView::FetchMessage { .. } => response is Found,
        CallView::Say { .. } => response is Sent,
        CallView::Reply { .. } => response is Sent,
        CallView::WebhookExecute { .. } => response is Sent,
        CallView::WebhookEdit { .. } => response is Sent,
        _ => response is Done,
    }
}

/// An outside world in which each piece of work has one response.
pub open spec fn is_world(world: spec_fn(CallView) -> Response) -> bool {
    forall|call: CallView| #[trigger] answers(call, world(call))
}

/// Relaying that ends without outside work.
pub open spec fn ended(outcome: Result<(), BridgeError>) -> Effect {
    Effect { calls: Seq::empty(), outcome }
}

/// One more piece of work in front of the rest.
pub open spec fn first(call: CallView, rest: Effect) -> Effect {
    Effect { calls: seq![call] + rest.calls, outcome: rest.outcome }
}

/// The relaying goes on as a progress says, in an outside world.
pub open spec fn ran(
    registry: Registry,
    emojis: Map<Seq<char>, GuildEmoji>,
    progress: ProgressView,
    world: spec_fn(CallView) -> Response,
) -> Effect
    decreases
            match progress {
                ProgressView::Ask(_, job) => job.calls_left(),
                ProgressView::Done(_) => 0,
            },
{
    match progress {
        ProgressView::Done(outcome) => ended(outcome),
        ProgressView::Ask(call, job) => if job.well_formed() {
            proof {
                lemma_job_proceeds(
                    registry,
                    jobs::emojis_after(emojis, job, world(call)),
                    job,
                    world(call),
                );
            }
            let known = jobs::emojis_after(emojis, job, world(call));
            first(
                call,
                ran(registry, known, jobs::job_resumed(registry, known, job, world(call)), world),
            )
        } else {
            ended(Ok(()))
        },
    }
}

/// A job goes on well formed, and nearer to its end.
pub proof fn lemma_job_proceeds(
    registry: Registry,
    emojis: Map<Seq<char>, GuildEmoji>,
    job: JobView,
    response: Response,
)
    requires
        job.well_formed(),
    ensures
        job.calls_left() > 0,
        jobs::proceeds(jobs::job_resumed(registry, emojis, job, response), job.calls_left()),
{
    if let JobView::Text { text, stage } = job {
        if let Some(list) = text.attachments {
            assert(list@.len() == list.len());
            if let TextStageView::AttachedId { content, at } = stage {
                jobs::lemma_attached_proceeds(
                    registry,
                    text,
                    jobs::with_fallback(content, list@[at as int]),
                    at + 1,
                );
            }
            if let TextStageView::AttachedMessage { content, at, .. } = stage {
                jobs::lemma_attached_proceeds(
                    registry,
                    text,
                    jobs::with_fallback(content, list@[at as int]),
                    at + 1,
                );
            }
        }
        lemma_text_in_proceeds(registry, text, text.channel);
        if let Response::DiscordId(Some(id)) = response {
            lemma_text_in_proceeds(registry, text, id);
        }
        if let Response::Thread(thread) = response {
            lemma_text_in_proceeds(registry, text, thread);
        }
        if let TextStageView::Thread { message } = stage {
            lemma_text_in_proceeds(registry, text, message);
        }
    }
}

proof fn lemma_text_in_proceeds(registry: Registry, text: TextMessage, channel: u64)
    ensures
        jobs::proceeds(
            jobs::text_in(registry, text, channel),
            match text.attachments {
                Some(list) => (2 * list@.len() + 5) as int,
                None => 5,
            },
        ),
{
    let moved = TextMessage { channel, ..text };
    if let Some(list) = text.attachments {
        assert(list@.len() == list.len());
    }
    jobs::lemma_attached_proceeds(registry, moved, jobs::text_content(moved), 0);
}

/// The last piece of work decides how the relaying ends.
pub open spec fn last(call: CallView, world: spec_fn(CallView) -> Response) -> Effect {
    Effect {
        calls: seq![call],
        outcome: match world(call) {
            Response::Failed(failure) => Err(BridgeError::Outside(failure.message)),
            _ => Ok(()),
        },
    }
}

/// A message is posted, and remembered under an id of the bridge.
pub open spec fn posted(
    call: CallView,
    pipo_id: i64,
    world: spec_fn(CallView) -> Response,
) -> Effect {
    match world(call) {
        Response::Sent(message) => first(
            call,
            last(CallView::SetDiscordId { pipo_id, message }, world),
        ),
        _ => last(call, world),
    }
}

/// An action becomes one message in bold and italics, which is posted and remembered, or takes
/// the place of the message that it changes.
pub open spec fn action_effect(
    channel: u64,
    pipo_id: i64,
    transport: Seq<char>,
    username: Seq<char>,
    message: Option<Seq<char>>,
    is_edit: bool,
    world: spec_fn(CallView) -> Response,
) -> Effect {
    match message {
        None => ended(Err(BridgeError::EmptyMessage)),
        Some(message) => {
            let content = jobs::action_content(username, transport, message);
            let find = CallView::DiscordId { pipo_id };
            if is_edit {
                match world(find) {
                    Response::DiscordId(Some(message)) => first(
                        find,
                        last(CallView::EditMessage { channel, message, content }, world),
                    ),
                    Response::DiscordId(None) => first(
                        find,
                        ended(Err(BridgeError::UnknownId(pipo_id))),
                    ),
                    _ => last(find, world),
                }
            } else {
                posted(CallView::Say { channel, content }, pipo_id, world)
            }
        },
    }
}

/// A message is deleted through the channel's webhook where it has one, and by the bridge itself
/// otherwise.
pub open spec fn delete_effect(
    registry: Registry,
    channel: u64,
    pipo_id: i64,
    world: spec_fn(CallView) -> Response,
) -> Effect {
    let find = CallView::DiscordId { pipo_id };
    match world(find) {
        Response::DiscordId(Some(message)) => {
            let plain = last(CallView::DeleteMessage { channel, message }, world);
            match registry.webhook(channel) {
                Some(webhook) => {
                    let hook = CallView::Webhook { webhook };
                    let hooked = CallView::WebhookDelete { webhook, message };
                    if world(hook) is Found {
                        first(find, first(hook, last(hooked, world)))
                    } else {
                        first(find, first(hook, plain))
                    }
                },
                None => first(find, plain),
            }
        },
        Response::DiscordId(None) => first(find, ended(Err(BridgeError::NoMessage))),
        _ => last(find, world),
    }
}

/// A message is pinned or unpinned.
pub open spec fn pin_effect(
    channel: u64,
    pipo_id: i64,
    remove: bool,
    world: spec_fn(CallView) -> Response,
) -> Effect {
    let find = CallView::DiscordId { pipo_id };
    match world(find) {
        Response::DiscordId(Some(message)) => first(
            find,
            last(
                if remove {
                    CallView::Unpin { channel, message }
                } else {
                    CallView::Pin { channel, message }
                },
                world,
            ),
        ),
        Response::DiscordId(None) => first(find, ended(Err(BridgeError::NoMessage))),
        _ => last(find, world),
    }
}

/// A reaction with an emoji that has been found.
pub open spec fn reacted(
    channel: u64,
    pipo_id: i64,
    emoji: ReactionTypeView,
    remove: bool,
    world: spec_fn(CallView) -> Response,
) -> Effect {
    let find = CallView::DiscordId { pipo_id };
    match world(find) {
        Response::DiscordId(Some(message)) => first(
            find,
            last(
                if remove {
                    CallView::DeleteReaction { channel, message, emoji }
                } else {
                    CallView::CreateReaction { channel, message, emoji }
                },
                world,
            ),
        ),
        Response::DiscordId(None) => first(find, ended(Err(BridgeError::NoMessage))),
        _ => last(find, world),
    }
}

/// A reaction is added or taken back with Unicode's emoji, else with one of the guild's that is
/// known, else with one that Discord knows of.
pub open spec fn reaction_effect(
    emojis: Map<Seq<char>, GuildEmoji>,
    channel: u64,
    pipo_id: i64,
    emoji: Seq<char>,
    remove: bool,
    world: spec_fn(CallView) -> Response,
) -> Effect {
    match outside::emoji_named(emoji) {
        Some(found) => reacted(channel, pipo_id, ReactionTypeView::Unicode(found), remove, world),
        None => if emojis.contains_key(emoji) {
            reacted(channel, pipo_id, jobs::reaction_with(emojis[emoji]), remove, world)
        } else {
            let list = CallView::GuildEmojis;
            match world(list) {
                Response::Emojis(now) => {
                    let known = jobs::emojis_by_name(now@);
                    first(
                        list,
                        if known.contains_key(emoji) {
                            reacted(
                                channel,
                                pipo_id,
                                jobs::reaction_with(known[emoji]),
                                remove,
                                world,
                            )
                        } else {
                            ended(Err(BridgeError::UnknownEmoji))
                        },
                    )
                },
                _ => last(list, world),
            }
        },
    }
}

/// A complete content is posted through the channel's webhook under the user's name and picture,
/// or else by the bridge itself under a heading. Either way the message is remembered.
pub open spec fn post_effect(
    registry: Registry,
    text: TextMessage,
    content: Seq<char>,
    world: spec_fn(CallView) -> Response,
) -> Effect {
    let plain = posted(
        CallView::Say { channel: text.channel, content: jobs::headed(text, content) },
        text.pipo_id,
        world,
    );
    match registry.webhook(text.channel) {
        None => plain,
        Some(webhook) => {
            let hook = CallView::Webhook { webhook };
            let execute = CallView::WebhookExecute {
                webhook,
                content,
                username: jobs::hook_name(text),
                avatar_url: text::opt_text(text.avatar_url),
            };
            first(
                hook,
                if world(hook) is Found {
                    if world(execute) is Sent {
                        posted(execute, text.pipo_id, world)
                    } else {
                        first(execute, plain)
                    }
                } else {
                    plain
                },
            )
        },
    }
}

/// A complete content takes the place of the message that it changes, through the channel's
/// webhook or else by the bridge itself under a heading.
pub open spec fn edit_effect(
    registry: Registry,
    text: TextMessage,
    content: Seq<char>,
    world: spec_fn(CallView) -> Response,
) -> Effect {
    let find = CallView::DiscordId { pipo_id: text.pipo_id };
    match world(find) {
        Response::DiscordId(Some(message)) => {
            let plain = last(
                CallView::EditMessage {
                    channel: text.channel,
                    message,
                    content: jobs::headed(text, content),
                },
                world,
            );
            first(
                find,
                match registry.webhook(text.channel) {
                    None => plain,
                    Some(webhook) => {
                        let hook = CallView::Webhook { webhook };
                        let edit = CallView::WebhookEdit { webhook, message, content };
                        first(
                            hook,
                            if world(hook) is Found {
                                if world(edit) is Sent {
                                    posted(edit, text.pipo_id, world)
                                } else {
                                    first(edit, plain)
                                }
                            } else {
                                plain
                            },
                        )
                    },
                },
            )
        },
        Response::DiscordId(None) => first(
            find,
            ended(Err(BridgeError::UnknownId(text.pipo_id))),
        ),
        _ => last(find, world),
    }
}

/// The attachments are dealt with from one on. The first that stands for a message which can be
/// had ends it: the content so far becomes a reply to that message. What is shown of the others
/// is added to the content, which is posted, or changed, when there are no more.
pub open spec fn attached_effect(
    registry: Registry,
    text: TextMessage,
    content: Seq<char>,
    at: int,
    world: spec_fn(CallView) -> Response,
) -> Effect
    decreases
            match text.attachments {
                Some(list) => list@.len() - at,
                None => 0,
            },
{
    match text.attachments {
        Some(list) if 0 <= at < list@.len() => match list@[at].pipo_id {
            None => attached_effect(registry, text, content, at + 1, world),
            Some(pipo_id) => {
                let find = CallView::DiscordId { pipo_id };
                let rest = attached_effect(
                    registry,
                    text,
                    jobs::with_fallback(content, list@[at]),
                    at + 1,
                    world,
                );
                first(
                    find,
                    match world(find) {
                        Response::DiscordId(Some(message)) => {
                            let fetch = CallView::FetchMessage { channel: text.channel, message };
                            first(
                                fetch,
                                if world(fetch) is Found {
                                    posted(
                                        CallView::Reply { channel: text.channel, message, content },
                                        pipo_id,
                                        world,
                                    )
                                } else {
                                    rest
                                },
                            )
                        },
                        _ => rest,
                    },
                )
            },
        },
        _ => if text.is_edit {
            edit_effect(registry, text, content, world)
        } else {
            post_effect(registry, text, content, world)
        },
    }
}

/// A text goes to a channel or a thread.
pub open spec fn text_effect_in(
    registry: Registry,
    text: TextMessage,
    channel: u64,
    world: spec_fn(CallView) -> Response,
) -> Effect {
    let text = TextMessage { channel, ..text };
    attached_effect(registry, text, jobs::text_content(text), 0, world)
}

/// A text goes to its channel, or to the thread on the message that goes with a message on
/// Slack, which is opened where it is not known.
pub open spec fn text_effect(
    registry: Registry,
    text: TextMessage,
    thread: Option<(Option<String>, Option<u64>)>,
    world: spec_fn(CallView) -> Response,
) -> Effect {
    if text.message is None && text.attachments is None {
        ended(Err(BridgeError::NoContents))
    } else {
        match thread {
            Some((Some(slack_id), _)) => {
                let find = CallView::DiscordIdOfSlack { slack_id: slack_id@ };
                match world(find) {
                    Response::DiscordId(Some(id)) => first(
                        find,
                        if registry.threads().contains_key(id) {
                            text_effect_in(registry, text, id, world)
                        } else {
                            let open = CallView::CreateThread {
                                channel: text.channel,
                                message: id,
                                name: jobs::thread_name(text.message),
                                archive_minutes: jobs::THREAD_ARCHIVE_MINUTES,
                            };
                            first(
                                open,
                                match world(open) {
                                    Response::Thread(opened) => text_effect_in(
                                        registry,
                                        text,
                                        opened,
                                        world,
                                    ),
                                    Response::Failed(Failure { code: Some(code), .. }) if code
                                        == jobs::THREAD_EXISTS => text_effect_in(
                                        registry,
                                        text,
                                        id,
                                        world,
                                    ),
                                    _ => ended(Err(BridgeError::NoThread)),
                                },
                            )
                        },
                    ),
                    Response::DiscordId(None) => first(
                        find,
                        text_effect_in(registry, text, text.channel, world),
                    ),
                    _ => last(find, world),
                }
            },
            _ => text_effect_in(registry, text, text.channel, world),
        }
    }
}

/// What a message on a bus brings about in a channel.
pub open spec fn effect_of(
    transport_id: usize,
    registry: Registry,
    emojis: Map<Seq<char>, GuildEmoji>,
    channel: u64,
    message: Message,
    world: spec_fn(CallView) -> Response,
) -> Effect {
    if message@.sent_by() == transport_id {
        ended(Ok(()))
    } else {
        match message {
            Message::Action { pipo_id, transport, username, message, is_edit, .. } => action_effect(
                channel,
                pipo_id,
                transport@,
                username@,
                text::opt_text(message),
                is_edit,
                world,
            ),
            Message::Delete { pipo_id, .. } => delete_effect(registry, channel, pipo_id, world),
            Message::Pin { pipo_id, remove, .. } => pin_effect(channel, pipo_id, remove, world),
            Message::Reaction { pipo_id, emoji, remove, .. } => reaction_effect(
                emojis,
                channel,
                pipo_id,
                emoji@,
                remove,
                world,
            ),
            Message::Text {
                pipo_id,
                transport,
                username,
                avatar_url,
                thread,
                message,
                attachments,
                is_edit,
                ..
            } => text_effect(
                registry,
                TextMessage {
                    channel,
                    pipo_id,
                    transport,
                    username,
                    avatar_url,
                    message,
                    attachments,
                    is_edit,
                },
                thread,
                world,
            ),
            Message::Bot { .. } => ended(Ok(())),
            Message::Names { .. } => ended(Ok(())),
        }
    }
}

proof fn lemma_last(
    registry: Registry,
    emojis: Map<Seq<char>, GuildEmoji>,
    call: CallView,
    world: spec_fn(CallView) -> Response,
)
    ensures
        ran(registry, emojis, ProgressView::Ask(call, JobView::Last), world) == last(call, world),
{
    reveal_with_fuel(ran, 2);
    assert(seq![call] + Seq::<CallView>::empty() =~= seq![call]);
}

proof fn lemma_posted(
    registry: Registry,
    emojis: Map<Seq<char>, GuildEmoji>,
    call: CallView,
    pipo_id: i64,
    world: spec_fn(CallView) -> Response,
)
    requires
        world(call) is Sent || world(call) is Failed,
    ensures
        ran(registry, emojis, ProgressView::Ask(call, JobView::Posted { pipo_id }), world)
            == posted(call, pipo_id, world),
{
    if let Response::Sent(message) = world(call) {
        lemma_last(registry, emojis, CallView::SetDiscordId { pipo_id, message }, world);
    } else {
        reveal_with_fuel(ran, 2);
        assert(seq![call] + Seq::<CallView>::empty() =~= seq![call]);
    }
}

proof fn lemma_post(
    registry: Registry,
    emojis: Map<Seq<char>, GuildEmoji>,
    text: TextMessage,
    content: Seq<char>,
    world: spec_fn(CallView) -> Response,
)
    requires
        is_world(world),
        !text.is_edit,
    ensures
        ran(registry, emojis, jobs::delivered(registry, text, content), world) == post_effect(
            registry,
            text,
            content,
            world,
        ),
{
    let say = CallView::Say { channel: text.channel, content: jobs::headed(text, content) };
    assert(answers(say, world(say)));
    lemma_posted(registry, emojis, say, text.pipo_id, world);
    if let Some(webhook) = registry.webhook(text.channel) {
        let hook = CallView::Webhook { webhook };
        let execute = CallView::WebhookExecute {
            webhook,
            content,
            username: jobs::hook_name(text),
            avatar_url: text::opt_text(text.avatar_url),
        };
        assert(answers(hook, world(hook)));
        assert(answers(execute, world(execute)));
        if world(hook) is Found {
            if let Response::Sent(message) = world(execute) {
                let set = CallView::SetDiscordId { pipo_id: text.pipo_id, message };
                lemma_last(registry, emojis, set, world);
            }
            let job = JobView::Text { text, stage: TextStageView::PostByHook { content } };
            assert(ran(registry, emojis, ProgressView::Ask(execute, job), world) == if world(
                execute,
            ) is Sent {
                posted(execute, text.pipo_id, world)
            } else {
                first(execute, posted(say, text.pipo_id, world))
            });
        }
    }
}

proof fn lemma_edit(
    registry: Registry,
    emojis: Map<Seq<char>, GuildEmoji>,
    text: TextMessage,
    content: Seq<char>,
    world: spec_fn(CallView) -> Response,
)
    requires
        is_world(world),
        text.is_edit,
    ensures
        ran(registry, emojis, jobs::delivered(registry, text, content), world) == edit_effect(
            registry,
            text,
            content,
            world,
        ),
{
    let find = CallView::DiscordId { pipo_id: text.pipo_id };
    assert(answers(find, world(find)));
    assert(seq![find] + Seq::<CallView>::empty() =~= seq![find]);
    if let Response::DiscordId(Some(message)) = world(find) {
        let plain = CallView::EditMessage {
            channel: text.channel,
            message,
            content: jobs::headed(text, content),
        };
        lemma_last(registry, emojis, plain, world);
        if let Some(webhook) = registry.webhook(text.channel) {
            let hook = CallView::Webhook { webhook };
            let edit = CallView::WebhookEdit { webhook, message, content };
            assert(answers(hook, world(hook)));
            assert(answers(edit, world(edit)));
            let asked = JobView::Text {
                text,
                stage: TextStageView::EditHook { content, message, webhook },
            };
            if world(hook) is Found {
                if let Response::Sent(edited) = world(edit) {
                    let set = CallView::SetDiscordId { pipo_id: text.pipo_id, message: edited };
                    lemma_last(registry, emojis, set, world);
                }
                let job = JobView::Text {
                    text,
                    stage: TextStageView::EditByHook { content, message },
                };
                assert(ran(registry, emojis, ProgressView::Ask(edit, job), world) == if world(
                    edit,
                ) is Sent {
                    posted(edit, text.pipo_id, world)
                } else {
                    first(edit, last(plain, world))
                });
            }
            assert(ran(registry, emojis, ProgressView::Ask(hook, asked), world) == first(
                hook,
                if world(hook) is Found {
                    if world(edit) is Sent {
                        posted(edit, text.pipo_id, world)
                    } else {
                        first(edit, last(plain, world))
                    }
                } else {
                    last(plain, world)
                },
            ));
        }
    } else {
        reveal_with_fuel(ran, 2);
    }
}

proof fn lemma_attached(
    registry: Registry,
    emojis: Map<Seq<char>, GuildEmoji>,
    text: TextMessage,
    content: Seq<char>,
    at: int,
    world: spec_fn(CallView) -> Response,
)
    requires
        is_world(world),
        0 <= at,
    ensures
        ran(registry, emojis, jobs::attached_from(registry, text, content, at), world)
            == attached_effect(registry, text, content, at, world),
    decreases
            match text.attachments {
                Some(list) => list@.len() - at,
                None => 0,
            },
{
    match text.attachments {
        Some(list) if at < list@.len() => {
            assert(list@.len() == list.len());
            match list@[at].pipo_id {
                None => {
                    lemma_attached(registry, emojis, text, content, at + 1, world);
                },
                Some(pipo_id) => {
                    let find = CallView::DiscordId { pipo_id };
                    assert(answers(find, world(find)));
                    let longer = jobs::with_fallback(content, list@[at]);
                    lemma_attached(registry, emojis, text, longer, at + 1, world);
                    if let Response::DiscordId(Some(message)) = world(find) {
                        let fetch = CallView::FetchMessage { channel: text.channel, message };
                        let reply = CallView::Reply { channel: text.channel, message, content };
                        assert(answers(fetch, world(fetch)));
                        assert(answers(reply, world(reply)));
                        lemma_posted(registry, emojis, reply, pipo_id, world);
                        let job = JobView::Text {
                            text,
                            stage: TextStageView::AttachedMessage {
                                content,
                                at: at as usize,
                                message,
                            },
                        };
                        assert(ran(registry, emojis, ProgressView::Ask(fetch, job), world)
                            == first(
                            fetch,
                            if world(fetch) is Found {
                                posted(reply, pipo_id, world)
                            } else {
                                attached_effect(registry, text, longer, at + 1, world)
                            },
                        ));
                    }
                },
            }
        },
        _ => {
            if text.is_edit {
                lemma_edit(registry, emojis, text, content, world);
            } else {
                lemma_post(registry, emojis, text, content, world);
            }
        },
    }
}

proof fn lemma_text_in(
    registry: Registry,
    emojis: Map<Seq<char>, GuildEmoji>,
    text: TextMessage,
    channel: u64,
    world: spec_fn(CallView) -> Response,
)
    requires
        is_world(world),
    ensures
        ran(registry, emojis, jobs::text_in(registry, text, channel), world) == text_effect_in(
            registry,
            text,
            channel,
            world,
        ),
{
    let moved = TextMessage { channel, ..text };
    lemma_attached(registry, emojis, moved, jobs::text_content(moved), 0, world);
}

/// A text comes to what `text_effect` says, whatever the outside world brings.
pub proof fn law_texts_take_effect(
    registry: Registry,
    emojis: Map<Seq<char>, GuildEmoji>,
    text: TextMessage,
    thread: Option<(Option<String>, Option<u64>)>,
    world: spec_fn(CallView) -> Response,
)
    requires
        is_world(world),
    ensures
        ran(registry, emojis, jobs::text_started(registry, text, thread), world) == text_effect(
            registry,
            text,
            thread,
            world,
        ),
{
    lemma_text_in(registry, emojis, text, text.channel, world);
    if let Some((Some(slack_id), _)) = thread {
        let find = CallView::DiscordIdOfSlack { slack_id: slack_id@ };
        assert(answers(find, world(find)));
        assert(seq![find] + Seq::<CallView>::empty() =~= seq![find]);
        if let Response::DiscordId(Some(id)) = world(find) {
            lemma_text_in(registry, emojis, text, id, world);
            let open = CallView::CreateThread {
                channel: text.channel,
                message: id,
                name: jobs::thread_name(text.message),
                archive_minutes: jobs::THREAD_ARCHIVE_MINUTES,
            };
            assert(answers(open, world(open)));
            if let Response::Thread(opened) = world(open) {
                lemma_text_in(registry, emojis, text, opened, world);
            }
            let job = JobView::Text { text, stage: TextStageView::Thread { message: id } };
            reveal_with_fuel(ran, 2);
            assert(ran(registry, emojis, ProgressView::Ask(open, job), world) == first(
                open,
                match world(open) {
                    Response::Thread(opened) => text_effect_in(registry, text, opened, world),
                    Response::Failed(Failure { code: Some(code), .. }) if code
                        == jobs::THREAD_EXISTS => text_effect_in(registry, text, id, world),
                    _ => ended(Err(BridgeError::NoThread)),
                },
            ));
        } else if world(find) is Failed {
            reveal_with_fuel(ran, 2);
        }
    }
}

proof fn lemma_reacted(
    registry: Registry,
    emojis: Map<Seq<char>, GuildEmoji>,
    channel: u64,
    pipo_id: i64,
    emoji: ReactionTypeView,
    remove: bool,
    world: spec_fn(CallView) -> Response,
)
    requires
        is_world(world),
    ensures
        ran(registry, emojis, jobs::reacting(channel, pipo_id, emoji, remove), world) == reacted(
            channel,
            pipo_id,
            emoji,
            remove,
            world,
        ),
{
    let find = CallView::DiscordId { pipo_id };
    assert(answers(find, world(find)));
    assert(seq![find] + Seq::<CallView>::empty() =~= seq![find]);
    if let Response::DiscordId(Some(message)) = world(find) {
        let call = if remove {
            CallView::DeleteReaction { channel, message, emoji }
        } else {
            CallView::CreateReaction { channel, message, emoji }
        };
        lemma_last(registry, emojis, call, world);
    } else {
        reveal_with_fuel(ran, 2);
    }
}

proof fn lemma_reaction(
    registry: Registry,
    emojis: Map<Seq<char>, GuildEmoji>,
    channel: u64,
    pipo_id: i64,
    emoji: Seq<char>,
    remove: bool,
    world: spec_fn(CallView) -> Response,
)
    requires
        is_world(world),
    ensures
        ran(
            registry,
            emojis,
            discord::reaction_started(emojis, channel, pipo_id, emoji, remove),
            world,
        ) == reaction_effect(emojis, channel, pipo_id, emoji, remove, world),
{
    match outside::emoji_named(emoji) {
        Some(found) => {
            let unicode = ReactionTypeView::Unicode(found);
            lemma_reacted(registry, emojis, channel, pipo_id, unicode, remove, world);
        },
        None => {
            if emojis.contains_key(emoji) {
                let custom = jobs::reaction_with(emojis[emoji]);
                lemma_reacted(registry, emojis, channel, pipo_id, custom, remove, world);
            } else {
                let list = CallView::GuildEmojis;
                assert(answers(list, world(list)));
                assert(seq![list] + Seq::<CallView>::empty() =~= seq![list]);
                if let Response::Emojis(now) = world(list) {
                    let known = jobs::emojis_by_name(now@);
                    if known.contains_key(emoji) {
                        let custom = jobs::reaction_with(known[emoji]);
                        lemma_reacted(registry, known, channel, pipo_id, custom, remove, world);
                    }
                }
                reveal_with_fuel(ran, 2);
            }
        },
    }
}

proof fn lemma_action(
    registry: Registry,
    emojis: Map<Seq<char>, GuildEmoji>,
    channel: u64,
    pipo_id: i64,
    transport: Seq<char>,
    username: Seq<char>,
    message: Option<Seq<char>>,
    is_edit: bool,
    world: spec_fn(CallView) -> Response,
)
    requires
        is_world(world),
    ensures
        ran(
            registry,
            emojis,
            discord::action_started(channel, pipo_id, transport, username, message, is_edit),
            world,
        ) == action_effect(channel, pipo_id, transport, username, message, is_edit, world),
{
    if let Some(message) = message {
        let content = jobs::action_content(username, transport, message);
        let find = CallView::DiscordId { pipo_id };
        let say = CallView::Say { channel, content };
        assert(answers(find, world(find)));
        assert(answers(say, world(say)));
        assert(seq![find] + Seq::<CallView>::empty() =~= seq![find]);
        if !is_edit {
            lemma_posted(registry, emojis, say, pipo_id, world);
        } else if let Response::DiscordId(Some(message)) = world(find) {
            let edit = CallView::EditMessage { channel, message, content };
            lemma_last(registry, emojis, edit, world);
        } else {
            reveal_with_fuel(ran, 2);
        }
    }
}

proof fn lemma_delete(
    registry: Registry,
    emojis: Map<Seq<char>, GuildEmoji>,
    channel: u64,
    pipo_id: i64,
    world: spec_fn(CallView) -> Response,
)
    requires
        is_world(world),
    ensures
        ran(registry, emojis, discord::delete_started(channel, pipo_id), world) == delete_effect(
            registry,
            channel,
            pipo_id,
            world,
        ),
{
    let find = CallView::DiscordId { pipo_id };
    assert(answers(find, world(find)));
    assert(seq![find] + Seq::<CallView>::empty() =~= seq![find]);
    if let Response::DiscordId(Some(message)) = world(find) {
        let plain = CallView::DeleteMessage { channel, message };
        lemma_last(registry, emojis, plain, world);
        if let Some(webhook) = registry.webhook(channel) {
            let hook = CallView::Webhook { webhook };
            let hooked = CallView::WebhookDelete { webhook, message };
            assert(answers(hook, world(hook)));
            lemma_last(registry, emojis, hooked, world);
            let job = JobView::DeleteHook { channel, message, webhook };
            assert(ran(registry, emojis, ProgressView::Ask(hook, job), world) == first(
                hook,
                if world(hook) is Found {
                    last(hooked, world)
                } else {
                    last(plain, world)
                },
            ));
        }
    } else {
        reveal_with_fuel(ran, 2);
    }
}

proof fn lemma_pin(
    registry: Registry,
    emojis: Map<Seq<char>, GuildEmoji>,
    channel: u64,
    pipo_id: i64,
    remove: bool,
    world: spec_fn(CallView) -> Response,
)
    requires
        is_world(world),
    ensures
        ran(registry, emojis, discord::pin_started(channel, pipo_id, remove), world) == pin_effect(
            channel,
            pipo_id,
            remove,
            world,
        ),
{
    let find = CallView::DiscordId { pipo_id };
    assert(answers(find, world(find)));
    assert(seq![find] + Seq::<CallView>::empty() =~= seq![find]);
    if let Response::DiscordId(Some(message)) = world(find) {
        let call = if remove {
            CallView::Unpin { channel, message }
        } else {
            CallView::Pin { channel, message }
        };
        lemma_last(registry, emojis, call, world);
    } else {
        reveal_with_fuel(ran, 2);
    }
}

/// A message on a bus comes to what `effect_of` says, whatever the outside world brings.
pub proof fn law_messages_take_effect(
    transport_id: usize,
    registry: Registry,
    emojis: Map<Seq<char>, GuildEmoji>,
    channel: u64,
    message: Message,
    world: spec_fn(CallView) -> Response,
)
    requires
        is_world(world),
    ensures
        ran(
            registry,
            emojis,
            discord::dispatched(transport_id, registry, emojis, channel, message),
            world,
        ) == effect_of(transport_id, registry, emojis, channel, message, world),
{
    match message {
        Message::Action { pipo_id, transport, username, message, is_edit, .. } => {
            lemma_action(
                registry,
                emojis,
                channel,
                pipo_id,
                transport@,
                username@,
                text::opt_text(message),
                is_edit,
                world,
            );
        },
        Message::Delete { pipo_id, .. } => {
            lemma_delete(registry, emojis, channel, pipo_id, world);
        },
        Message::Pin { pipo_id, remove, .. } => {
            lemma_pin(registry, emojis, channel, pipo_id, remove, world);
        },
        Message::Reaction { pipo_id, emoji, remove, .. } => {
            lemma_reaction(registry, emojis, channel, pipo_id, emoji@, remove, world);
        },
        Message::Text {
            pipo_id,
            transport,
            username,
            avatar_url,
            thread,
            message,
            attachments,
            is_edit,
            ..
        } => {
            let text = TextMessage {
                channel,
                pipo_id,
                transport,
                username,
                avatar_url,
                message,
                attachments,
                is_edit,
            };
            law_texts_take_effect(registry, emojis, text, thread, world);
        },
        _ => {},
    }
}

} // verus!
