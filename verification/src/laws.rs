//! What holds of both directions taken together, and of every step of a relaying.

use crate::discord;
use crate::effects;
use crate::handler;
use crate::inbound::{Reply, StepView, TaskView};
use crate::jobs;
use crate::jobs::{JobView, TextMessage, TextStageView};
use crate::message::Message;
use crate::outbound::{BridgeError, CallView, GuildEmoji, ProgressView, Response};
use crate::outside;
use crate::registry::Registry;
use vstd::prelude::*;
use vstd::utf8;

verus! {

/// What the handler puts on a bus is not put on Discord again by the same transport, whatever
/// channel the bus is joined to.
pub proof fn law_no_echo(
    transport_id: usize,
    task: TaskView,
    reply: Reply,
    pins: Set<u64>,
    before: Registry,
    step: StepView,
    new_pins: Set<u64>,
    now: Registry,
    bus: String,
    message: Message,
    registry: Registry,
    emojis: Map<Seq<char>, GuildEmoji>,
    channel: u64,
)
    requires
        handler::handled(transport_id, task, reply, pins, before, step, new_pins, now),
        step.send == Some((bus, message@)),
    ensures
        discord::dispatched(transport_id, registry, emojis, channel, message) == ProgressView::Done(
            Ok(()),
        ),
{
}

/// A task that waits stays well formed while other events are handled: it depends on which
/// channels are followed and on nothing else that they change.
pub proof fn law_tasks_outlive_other_events(
    task: TaskView,
    transport_id: usize,
    other: TaskView,
    reply: Reply,
    pins: Set<u64>,
    before: Registry,
    step: StepView,
    new_pins: Set<u64>,
    now: Registry,
)
    requires
        task.well_formed(before),
        other.well_formed(before),
        handler::handled(transport_id, other, reply, pins, before, step, new_pins, now),
    ensures
        task.well_formed(now),
{
    if let TaskView::Guild(guild) = other {
        handler::lemma_guild_goes_on(guild, reply, before, step, now);
        assert(now.channels().dom() == before.channels().dom());
        assert forall|channel: u64| before.channels().contains_key(channel)
            implies #[trigger] now.channels().contains_key(channel) by {
            assert(now.channels().dom().contains(channel));
        }
    }
}

/// Whether the thread that a job may have to open can be named.
pub open spec fn can_open(job: JobView) -> bool {
    job matches JobView::Text { text, stage: TextStageView::SlackId } ==> jobs::can_name(
        text.message,
    )
}

/// Whether a job takes every response to a call, whatever is followed by then.
pub open spec fn takes_answers(call: CallView, job: JobView) -> bool {
    can_open(job) ==> forall|registry: Registry, response: Response|
        effects::answers(call, response) ==> #[trigger] job.accepts(registry, response)
}

/// What is handed out together takes its answers.
pub open spec fn is_answerable(progress: ProgressView) -> bool {
    progress matches ProgressView::Ask(call, job) ==> takes_answers(call, job)
}

proof fn lemma_attached_answerable(
    registry: Registry,
    text: TextMessage,
    content: Seq<char>,
    at: int,
)
    ensures
        is_answerable(jobs::attached_from(registry, text, content, at)),
    decreases
            match text.attachments {
                Some(list) => list@.len() - at,
                None => 0,
            },
{
    match text.attachments {
        Some(list) if 0 <= at < list@.len() && list@[at].pipo_id is None => {
            lemma_attached_answerable(registry, text, content, at + 1);
        },
        _ => {},
    }
}

proof fn lemma_text_answerable(registry: Registry, text: TextMessage, channel: u64)
    ensures
        is_answerable(jobs::text_in(registry, text, channel)),
{
    let moved = TextMessage { channel, ..text };
    lemma_attached_answerable(registry, moved, jobs::text_content(moved), 0);
}

/// A message that came over a bus asks for nothing whose response it could not go on with.
pub proof fn law_dispatched_takes_answers(
    transport_id: usize,
    registry: Registry,
    emojis: Map<Seq<char>, GuildEmoji>,
    channel: u64,
    message: Message,
)
    ensures
        is_answerable(
            discord::dispatched(transport_id, registry, emojis, channel, message),
        ),
{
    if let Message::Text {
        pipo_id,
        transport,
        username,
        avatar_url,
        message,
        attachments,
        is_edit,
        ..
    } = message {
        let text = TextMessage {
            channel,
            pipo_id,
            transport,
            username,
            avatar_url,
            message,
            attachments,
            is_edit,
        };
        lemma_text_answerable(registry, text, channel);
    }
}

/// A relaying that goes on asks for nothing whose response it could not go on with.
pub proof fn law_resumed_takes_answers(
    registry: Registry,
    emojis: Map<Seq<char>, GuildEmoji>,
    job: JobView,
    response: Response,
)
    requires
        job.well_formed(),
    ensures
        is_answerable(jobs::job_resumed(registry, emojis, job, response)),
{
    if let JobView::Text { text, stage } = job {
        lemma_text_answerable(registry, text, text.channel);
        match stage {
            TextStageView::SlackId => {
                if let Response::DiscordId(Some(id)) = response {
                    lemma_text_answerable(registry, text, id);
                }
            },
            TextStageView::Thread { message } => {
                lemma_text_answerable(registry, text, message);
                if let Response::Thread(thread) = response {
                    lemma_text_answerable(registry, text, thread);
                }
            },
            TextStageView::AttachedId { content, at } => {
                let longer = jobs::with_fallback(content, text.attachments->0@[at as int]);
                lemma_attached_answerable(registry, text, longer, at + 1);
            },
            TextStageView::AttachedMessage { content, at, .. } => {
                let longer = jobs::with_fallback(content, text.attachments->0@[at as int]);
                lemma_attached_answerable(registry, text, longer, at + 1);
            },
            _ => {},
        }
    }
}

/// An emoji of the guild's own that Discord was asked for once is known from then on: the same
/// emoji is reacted with, and Discord is not asked again.
pub proof fn law_emojis_are_asked_for_once(
    registry: Registry,
    known: Map<Seq<char>, GuildEmoji>,
    channel: u64,
    pipo_id: i64,
    emoji: Seq<char>,
    remove: bool,
    list: Vec<GuildEmoji>,
    later_channel: u64,
    later_id: i64,
    later_remove: bool,
)
    requires
        discord::reaction_started(known, channel, pipo_id, emoji, remove) is Ask,
        discord::reaction_started(known, channel, pipo_id, emoji, remove)->Ask_1
            is ReactionEmojis,
    ensures
        ({
            let job = discord::reaction_started(known, channel, pipo_id, emoji, remove)->Ask_1;
            let now = jobs::emojis_after(known, job, Response::Emojis(list));
            let found = jobs::job_resumed(registry, now, job, Response::Emojis(list));
            let later = discord::reaction_started(
                now,
                later_channel,
                later_id,
                emoji,
                later_remove,
            );
            match found {
                ProgressView::Ask(_, JobView::ReactionId { emoji: reaction, .. }) => later
                    == jobs::reacting(later_channel, later_id, reaction, later_remove),
                ProgressView::Ask(_, _) => false,
                ProgressView::Done(outcome) => outcome == Err::<(), BridgeError>(
                    BridgeError::UnknownEmoji,
                ) && !now.contains_key(emoji),
            }
        }),
{
}

/// Of Unicode's emojis none is ever asked for.
pub proof fn law_unicode_needs_no_list(
    emojis: Map<Seq<char>, GuildEmoji>,
    channel: u64,
    pipo_id: i64,
    emoji: Seq<char>,
    remove: bool,
)
    requires
        outside::emoji_named(emoji) is Some,
    ensures
        discord::reaction_started(emojis, channel, pipo_id, emoji, remove) matches ProgressView::Ask(
            call,
            _,
        ) && call == (CallView::DiscordId { pipo_id }),
{
}

/// The name of a thread is never empty, and never longer than it may be. The name of one that is
/// opened for a long message is the beginning of that message.
pub proof fn law_thread_names_fit(message: Option<String>)
    requires
        jobs::can_name(message),
    ensures
        0 < utf8::encode_utf8(jobs::thread_name(message)).len() <= jobs::THREAD_NAME_BYTES,
        message matches Some(s) ==> utf8::encode_utf8(s@).len() >= 2 ==> jobs::thread_name(
            message,
        ).is_prefix_of(s@),
{
    match message {
        None => {
            reveal_strlit("New Thread");
            reveal_with_fuel(utf8::encode_utf8, 11);
        },
        Some(s) => {
            let bytes = utf8::encode_utf8(s@);
            if bytes.len() < 2 {
                reveal_strlit("!");
                lemma_encode_push(s@, '!');
                assert(s@ + "!"@ =~= s@.push('!'));
            } else if bytes.len() > jobs::THREAD_NAME_BYTES {
                let cut = jobs::THREAD_NAME_BYTES as int;
                utf8::encode_utf8_valid_utf8(s@);
                utf8::valid_utf8_split(bytes, cut);
                utf8::decode_utf8_encode_utf8(bytes.subrange(0, cut));
                utf8::decode_utf8_split(bytes, cut);
                utf8::encode_utf8_decode_utf8(s@);
            }
        },
    }
}

proof fn lemma_encode_push(s: Seq<char>, c: char)
    requires
        c as u32 <= 0x7f,
    ensures
        utf8::encode_utf8(s.push(c)).len() == utf8::encode_utf8(s).len() + 1,
    decreases s.len(),
{
    reveal_with_fuel(utf8::encode_utf8, 2);
    if s.len() > 0 {
        assert(s.push(c).drop_first() =~= s.drop_first().push(c));
        lemma_encode_push(s.drop_first(), c);
    }
}

} // verus!
