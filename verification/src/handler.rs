//! The handler of Discord's events: what happens there is put on the buses.

use crate::changes;
use crate::changes::{
    DeleteStage, DeleteTask, DeleteTaskView, GuildTask, PinsTask, ReactionStage, ReactionTask,
    ThreadTask,
};
use crate::content;
use crate::content::ParseStep;
use crate::inbound;
use crate::inbound::{
    GuildStatus, MessageEdit, MessageKind, NewGuild, NewMessage, NewThread, Query, ReactionEvent,
    Reply, Step, StepView, Task, TaskView,
};
use crate::outside::{MAX_TIMESTAMP, MIN_TIMESTAMP};
use crate::posts;
use crate::posts::{Post, PostStage, PostStageView, PostTask, PostTaskView};
use crate::registry;
use crate::registry::{HandlerChannel, Registry};
use std::collections::HashSet;
use vstd::prelude::*;

verus! {

/// The handler: the number under which its messages go, and the messages that it knows to be
/// pinned.
pub struct RealHandler {
    pub transport_id: usize,
    pub pins: HashSet<u64>,
}

impl TaskView {
    /// The task holds together, and fits the channels that are followed.
    pub open spec fn well_formed(self, registry: Registry) -> bool {
        match self {
            TaskView::Post(t) => t.well_formed(),
            TaskView::Delete(t) => t.well_formed(),
            TaskView::Reaction(_) => true,
            TaskView::Pins(t) => t.well_formed(),
            TaskView::Guild(t) => t.well_formed(registry),
            TaskView::Thread(t) => t.well_formed(registry),
        }
    }

    /// Whether the task can go on with a reply.
    pub open spec fn accepts(self, reply: Reply) -> bool {
        match self {
            TaskView::Post(t) => t.accepts(reply),
            TaskView::Reaction(t) => t.takes(reply),
            _ => true,
        }
    }

    /// How far the task has come: the stage, and the replies that it may still wait for.
    pub open spec fn left(self) -> (nat, nat) {
        match self {
            TaskView::Post(t) => (0, t.replies_left()),
            TaskView::Delete(t) => (0, t.replies_left()),
            TaskView::Reaction(t) => (0, t.replies_left()),
            TaskView::Pins(t) => t.left(),
            TaskView::Guild(t) => t.left(),
            TaskView::Thread(_) => (0, 1),
        }
    }
}

/// One measure is below another: in a later stage, or in the same with less to wait for.
pub open spec fn below(a: (nat, nat), b: (nat, nat)) -> bool {
    a.0 < b.0 || (a.0 == b.0 && a.1 < b.1)
}

/// What a step leaves to be done is well formed, and less than before.
pub open spec fn goes_on(step: StepView, registry: Registry, left: (nat, nat)) -> bool {
    step.next matches Some((_, task)) ==> task.well_formed(registry) && below(task.left(), left)
}

/// A new message. Bots are not relayed, and neither is what is no message of a user's.
pub open spec fn message_started(msg: NewMessage, now: i64) -> StepView {
    if msg.bot || msg.kind is Other {
        inbound::stopped()
    } else {
        inbound::asking(
            Query::Channel { channel: msg.channel },
            TaskView::Post(
                PostTaskView {
                    post: Post {
                        id: msg.id,
                        channel: msg.channel,
                        guild: msg.guild,
                        author: msg.author,
                        content: Some(msg.content),
                        attachments: Some(msg.attachments),
                        reply: msg.reply,
                        is_edit: false,
                        now,
                    },
                    stage: PostStageView::Channel,
                },
            ),
        )
    }
}

/// A changed message. Bots are not relayed, and neither is a change without an author.
pub open spec fn edit_started(edit: MessageEdit, now: i64) -> StepView {
    match edit.author {
        Some((author, bot)) if !bot => inbound::asking(
            Query::Channel { channel: edit.channel },
            TaskView::Post(
                PostTaskView {
                    post: Post {
                        id: edit.id,
                        channel: edit.channel,
                        guild: edit.guild,
                        author,
                        content: edit.content,
                        attachments: edit.attachments,
                        reply: None,
                        is_edit: true,
                        now,
                    },
                    stage: PostStageView::Channel,
                },
            ),
        ),
        _ => inbound::stopped(),
    }
}

/// Messages deleted in a channel.
pub open spec fn delete_started(channel: u64, messages: Seq<u64>) -> StepView {
    inbound::asking(
        Query::Channel { channel },
        TaskView::Delete(DeleteTaskView { channel, messages, stage: DeleteStage::Channel }),
    )
}

/// A reaction added or removed.
pub open spec fn reaction_started(event: ReactionEvent, remove: bool) -> StepView {
    inbound::asking(
        Query::CurrentUser,
        TaskView::Reaction(ReactionTask { event, remove, stage: ReactionStage::CurrentUser }),
    )
}

/// The pins of a channel that is followed have changed.
pub open spec fn pins_started(registry: Registry, channel: u64) -> StepView {
    match registry.route(channel) {
        Some((bus, _)) => inbound::asking(
            Query::Pins { channel },
            TaskView::Pins(PinsTask::Listing { bus }),
        ),
        None => inbound::stopped(),
    }
}

/// A guild has come within sight.
pub open spec fn guild_started(guild: NewGuild) -> StepView {
    inbound::asking(
        Query::Webhooks { guild: guild.id },
        TaskView::Guild(GuildTask::Webhooks { threads: guild.threads }),
    )
}

/// A thread has been opened. One of a channel that is not followed is passed over.
pub open spec fn thread_started(registry: Registry, thread: NewThread) -> StepView {
    match thread.parent {
        Some(parent) if registry.channels().contains_key(parent) => inbound::asking(
            Query::CreateWebhook { channel: thread.id, name: thread.name },
            TaskView::Thread(ThreadTask { id: thread.id, parent }),
        ),
        _ => inbound::stopped(),
    }
}

/// The threads known after a list of guilds has been announced.
pub open spec fn threads_of_guilds(
    threads: Map<u64, u64>,
    channels: Map<u64, HandlerChannel>,
    guilds: Seq<GuildStatus>,
) -> Map<u64, u64>
    decreases guilds.len(),
{
    if guilds.len() == 0 {
        threads
    } else {
        let before = threads_of_guilds(threads, channels, guilds.drop_last());
        match guilds.last() {
            GuildStatus::Online(list) => registry::threads_with(before, channels, list@),
            GuildStatus::Other => before,
        }
    }
}

/// One step in the handling of an event.
pub open spec fn handled(
    transport_id: usize,
    task: TaskView,
    reply: Reply,
    pins: Set<u64>,
    before: Registry,
    step: StepView,
    new_pins: Set<u64>,
    now: Registry,
) -> bool {
    match task {
        TaskView::Post(t) => {
            &&& step == posts::post_resumed(transport_id, before, t, reply)
            &&& new_pins == pins
            &&& now == before
        },
        TaskView::Delete(t) => {
            &&& step == changes::delete_resumed(transport_id, before, t, reply)
            &&& new_pins == pins
            &&& now == before
        },
        TaskView::Reaction(t) => {
            &&& step == changes::reaction_resumed(transport_id, before, t, reply)
            &&& new_pins == pins
            &&& now == before
        },
        TaskView::Pins(t) => {
            &&& changes::pins_step(transport_id, t, reply, pins, step, new_pins)
            &&& now == before
        },
        TaskView::Guild(t) => {
            &&& changes::guild_step(t, reply, before, step, now)
            &&& new_pins == pins
        },
        TaskView::Thread(t) => {
            &&& step == inbound::stopped()
            &&& new_pins == pins
            &&& now.channels() == before.channels()
            &&& now.threads() == before.threads().insert(t.id, t.parent)
        },
    }
}

impl Task {
    /// Whether the task can go on with a reply.
    pub fn accepts(&self, reply: &Reply) -> (accepted: bool)
        ensures
            accepted == self@.accepts(*reply),
    {
        match self {
            Task::Post(t) => t.accepts(reply),
            Task::Reaction(t) => t.accepts(reply),
            _ => true,
        }
    }
}

impl RealHandler {
    /// A handler that knows of no pins.
    pub fn new(transport_id: usize) -> (handler: RealHandler)
        ensures
            handler.transport_id == transport_id,
            handler.pins@ == Set::<u64>::empty(),
    {
        RealHandler { transport_id, pins: HashSet::new() }
    }

    /// Starts to turn the content of a message in a guild into plain text. `now` is what the clock
    /// reads, in seconds since 1970.
    pub fn parse_content(&self, guild_id: u64, content: &str, now: i64) -> (step: ParseStep)
        requires
            MIN_TIMESTAMP <= now <= MAX_TIMESTAMP,
            content::times_fit(content@, 0),
        ensures
            step@ == content::parsed(guild_id, now, content@, 0, Seq::empty()),
            step@.well_formed(),
    {
        content::start(guild_id, now, content)
    }

    /// A new message, where the clock reads `now`.
    pub fn message(&self, msg: NewMessage, now: i64) -> (step: Step)
        ensures
            step@ == message_started(msg, now),
            step@.next matches Some((_, task)) ==> forall|registry: Registry|
                task.well_formed(registry),
    {
        let other = match msg.kind {
            MessageKind::Other => true,
            _ => false,
        };
        if msg.bot || other {
            return Step::stop();
        }
        let channel = msg.channel;
        let post = Post {
            id: msg.id,
            channel,
            guild: msg.guild,
            author: msg.author,
            content: Some(msg.content),
            attachments: Some(msg.attachments),
            reply: msg.reply,
            is_edit: false,
            now,
        };
        Step::ask(
            Query::Channel { channel },
            Task::Post(PostTask { post, stage: PostStage::Channel }),
        )
    }

    /// A changed message, where the clock reads `now`.
    pub fn message_update(&self, edit: MessageEdit, now: i64) -> (step: Step)
        ensures
            step@ == edit_started(edit, now),
            step@.next matches Some((_, task)) ==> forall|registry: Registry|
                task.well_formed(registry),
    {
        let author = match edit.author {
            Some((author, false)) => author,
            _ => {
                return Step::stop();
            },
        };
        let channel = edit.channel;
        let post = Post {
            id: edit.id,
            channel,
            guild: edit.guild,
            author,
            content: edit.content,
            attachments: edit.attachments,
            reply: None,
            is_edit: true,
            now,
        };
        Step::ask(
            Query::Channel { channel },
            Task::Post(PostTask { post, stage: PostStage::Channel }),
        )
    }

    pub fn message_delete(&self, channel: u64, message: u64) -> (step: Step)
        ensures
            step@ == delete_started(channel, seq![message]),
            step@.next matches Some((_, task)) ==> forall|registry: Registry|
                task.well_formed(registry),
    {
        let mut messages: Vec<u64> = Vec::new();
        messages.push(message);
        assert(messages@ =~= seq![message]);
        self.message_delete_bulk(channel, messages)
    }

    pub fn message_delete_bulk(&self, channel: u64, messages: Vec<u64>) -> (step: Step)
        ensures
            step@ == delete_started(channel, messages@),
            step@.next matches Some((_, task)) ==> forall|registry: Registry|
                task.well_formed(registry),
    {
        Step::ask(
            Query::Channel { channel },
            Task::Delete(DeleteTask { channel, messages, stage: DeleteStage::Channel }),
        )
    }

    pub fn reaction_add(&self, event: ReactionEvent) -> (step: Step)
        ensures
            step@ == reaction_started(event, false),
    {
        Step::ask(
            Query::CurrentUser,
            Task::Reaction(
                ReactionTask { event, remove: false, stage: ReactionStage::CurrentUser },
            ),
        )
    }

    pub fn reaction_remove(&self, event: ReactionEvent) -> (step: Step)
        ensures
            step@ == reaction_started(event, true),
    {
        Step::ask(
            Query::CurrentUser,
            Task::Reaction(ReactionTask { event, remove: true, stage: ReactionStage::CurrentUser }),
        )
    }

    pub fn channel_pins_update(&self, registry: &Registry, channel: u64) -> (step: Step)
        requires
            registry.well_formed(),
        ensures
            step@ == pins_started(*registry, channel),
            step@.next matches Some((_, task)) ==> task.well_formed(*registry),
    {
        let mut thread: Option<(Option<String>, Option<u64>)> = None;
        match registry.get_sender_and_thread(channel, &mut thread) {
            Some(bus) => Step::ask(
                Query::Pins { channel },
                Task::Pins(PinsTask::Listing { bus }),
            ),
            None => Step::stop(),
        }
    }

    pub fn guild_create(&self, guild: NewGuild) -> (step: Step)
        ensures
            step@ == guild_started(guild),
            step@.next matches Some((_, task)) ==> forall|registry: Registry|
                task.well_formed(registry),
    {
        Step::ask(
            Query::Webhooks { guild: guild.id },
            Task::Guild(GuildTask::Webhooks { threads: guild.threads }),
        )
    }

    pub fn thread_create(&self, registry: &Registry, thread: NewThread) -> (step: Step)
        ensures
            step@ == thread_started(*registry, thread),
            step@.next matches Some((_, task)) ==> task.well_formed(*registry),
    {
        match thread.parent {
            Some(parent) => if registry.follows(parent) {
                Step::ask(
                    Query::CreateWebhook { channel: thread.id, name: thread.name },
                    Task::Thread(ThreadTask { id: thread.id, parent }),
                )
            } else {
                Step::stop()
            },
            None => Step::stop(),
        }
    }

    /// The connection is ready: the threads of the guilds that are online are followed.
    pub fn ready(&self, registry: &mut Registry, guilds: &Vec<GuildStatus>)
        requires
            old(registry).well_formed(),
        ensures
            final(registry).channels() == old(registry).channels(),
            final(registry).threads() == threads_of_guilds(
                old(registry).threads(),
                old(registry).channels(),
                guilds@,
            ),
            final(registry).well_formed(),
    {
        let mut i: usize = 0;
        assert(guilds@.take(0) =~= Seq::<GuildStatus>::empty());
        while i < guilds.len()
            invariant
                i <= guilds@.len(),
                registry.well_formed(),
                registry.channels() == old(registry).channels(),
                registry.threads() == threads_of_guilds(
                    old(registry).threads(),
                    old(registry).channels(),
                    guilds@.take(i as int),
                ),
            decreases guilds@.len() - i,
        {
            assert(guilds@.take(i + 1).drop_last() =~= guilds@.take(i as int));
            if let GuildStatus::Online(list) = &guilds[i] {
                registry.follow_threads(list);
            }
            i = i + 1;
        }
        assert(guilds@.take(i as int) =~= guilds@);
    }

    /// Goes on with the handling of an event when a reply has come.
    pub fn resume(&mut self, registry: &mut Registry, task: Task, reply: Reply) -> (step: Step)
        requires
            old(registry).well_formed(),
            task@.well_formed(*old(registry)),
            task@.accepts(reply),
        ensures
            handled(
                old(self).transport_id,
                task@,
                reply,
                old(self).pins@,
                *old(registry),
                step@,
                final(self).pins@,
                *final(registry),
            ),
            final(self).transport_id == old(self).transport_id,
            final(registry).well_formed(),
            final(registry).channels().dom() == old(registry).channels().dom(),
            goes_on(step@, *final(registry), task@.left()),
    {
        match task {
            Task::Post(t) => {
                proof {
                    lemma_post_goes_on(self.transport_id, *registry, t@, reply);
                }
                t.resume(self.transport_id, registry, reply)
            },
            Task::Delete(t) => {
                assert(t.messages@.len() == t.messages.len());
                t.resume(self.transport_id, registry, reply)
            },
            Task::Reaction(t) => t.resume(self.transport_id, registry, reply),
            Task::Pins(t) => {
                assert(t matches PinsTask::Telling { todo, .. } ==> todo@.len() == todo.len());
                t.resume(self.transport_id, &mut self.pins, reply)
            },
            Task::Guild(t) => {
                let ghost before = *registry;
                let step = t.resume(registry, reply);
                proof {
                    lemma_guild_goes_on(t, reply, before, step@, *registry);
                }
                step
            },
            Task::Thread(t) => t.resume(registry, reply),
        }
    }
}

/// A post goes on well formed, and nearer to its end.
proof fn lemma_post_goes_on(
    transport_id: usize,
    registry: Registry,
    task: PostTaskView,
    reply: Reply,
)
    requires
        task.well_formed(),
        task.accepts(reply),
    ensures
        goes_on(
            posts::post_resumed(transport_id, registry, task, reply),
            registry,
            (0, task.replies_left()),
        ),
{
    match (task.stage, reply) {
        (PostStageView::Id { .. }, Reply::PipoId(_)) => {
            if let Some(content) = task.post.content {
                content::lemma_parsed_well_formed(
                    task.post.guild->0,
                    task.post.now,
                    content@,
                    0,
                    Seq::empty(),
                );
            }
        },
        (PostStageView::Content { parser, .. }, reply) => {
            content::lemma_resumed_well_formed(parser, posts::answer_of(reply));
            content::lemma_resumed_progress(parser, posts::answer_of(reply));
        },
        _ => {},
    }
}

/// The handling of a guild goes on nearer to its end, and leaves the same channels followed.
pub proof fn lemma_guild_goes_on(
    task: GuildTask,
    reply: Reply,
    before: Registry,
    step: StepView,
    now: Registry,
)
    requires
        task.well_formed(before),
        changes::guild_step(task, reply, before, step, now),
    ensures
        step.next matches Some((_, next)) ==> next is Guild && below(next.left(), task.left()),
        now.channels().dom() == before.channels().dom(),
{
    match task {
        GuildTask::Webhooks { .. } => {
            if let Reply::Webhooks(webhooks) = reply {
                assert(webhooks@.len() == webhooks.len());
                changes::lemma_next_named(now.channels(), webhooks@, 0);
            }
        },
        GuildTask::Naming { webhooks, at, .. } => {
            assert(webhooks@.len() == webhooks.len());
            changes::lemma_next_named(now.channels(), webhooks@, at + 1);
            assert(now.channels().dom() =~= before.channels().dom());
        },
        GuildTask::Checking { channels, .. } => {
            assert(channels@.len() == channels.len());
        },
    }
}

} // verus!
