//! What an event on Discord comes to as a whole: the messages that it puts on the buses.

use crate::changes;
use crate::changes::{DeleteStage, DeleteTaskView, GuildTask, PinsTask};
use crate::content;
use crate::content::{Answer, Lookup, ParseStepView};
use crate::handler;
use crate::inbound;
use crate::inbound::{
    ChannelKind, MessageEdit, NewMessage, Query, ReactionEvent, Reply, StepView, TaskView,
    TRANSPORT_NAME,
};
use crate::message::MessageView;
use crate::posts;
use crate::posts::{Origin, Post, PostStageView, PostTaskView};
use crate::registry;
use crate::registry::{HandlerChannel, Registry, ThreadInfo};
use vstd::prelude::*;

verus! {

/// One step of a post, a deletion or a reaction. None of these changes what is followed.
pub open spec fn resumed(
    transport_id: usize,
    registry: Registry,
    task: TaskView,
    reply: Reply,
) -> StepView {
    match task {
        TaskView::Post(t) => posts::post_resumed(transport_id, registry, t, reply),
        TaskView::Delete(t) => changes::delete_resumed(transport_id, registry, t, reply),
        TaskView::Reaction(t) => changes::reaction_resumed(transport_id, registry, t, reply),
        _ => inbound::stopped(),
    }
}

/// What a step sends, as a list.
pub open spec fn sent_by(step: StepView) -> Seq<(String, MessageView)> {
    match step.send {
        Some(out) => seq![out],
        None => Seq::empty(),
    }
}

/// The messages that handling an event sends from a step on, where each query has one reply.
pub open spec fn told(
    transport_id: usize,
    registry: Registry,
    step: StepView,
    replies: spec_fn(Query) -> Reply,
) -> Seq<(String, MessageView)>
    decreases
            match step.next {
                Some((_, task)) => task.left().1 + 1,
                None => 0,
            },
{
    match step.next {
        Some((query, task)) if task matches TaskView::Delete(t) ==> t.well_formed() => {
            proof {
                lemma_goes_on(transport_id, registry, task, replies(query));
            }
            sent_by(step) + told(
                transport_id,
                registry,
                resumed(transport_id, registry, task, replies(query)),
                replies,
            )
        },
        _ => sent_by(step),
    }
}

/// A post, a deletion or a reaction goes on nearer to its end.
pub proof fn lemma_goes_on(transport_id: usize, registry: Registry, task: TaskView, reply: Reply)
    requires
        task matches TaskView::Delete(t) ==> t.well_formed(),
    ensures
        resumed(transport_id, registry, task, reply).next matches Some((_, next)) ==> next.left().1
            < task.left().1,
{
    if let TaskView::Post(t) = task {
        match (t.stage, reply) {
            (PostStageView::Id { .. }, Reply::PipoId(_)) => {
                if let Some(content) = t.post.content {
                    content::lemma_parsed_progress(
                        t.post.guild->0,
                        t.post.now,
                        content@,
                        0,
                        Seq::empty(),
                    );
                }
            },
            (PostStageView::Content { parser, .. }, reply) => {
                content::lemma_resumed_progress(parser, posts::answer_of(reply));
            },
            _ => {},
        }
    }
}

/// The answers to the lookups of a content.
pub open spec fn lookups(replies: spec_fn(Query) -> Reply) -> spec_fn(Lookup) -> Answer {
    |lookup: Lookup| posts::answer_of(replies(Query::Lookup(lookup)))
}

/// The content that a post is relayed with: its plain text, or itself where it cannot be read,
/// and the addresses of its attachments.
pub open spec fn relayed_content(
    post: Post,
    content: Seq<char>,
    replies: spec_fn(Query) -> Reply,
) -> Seq<char> {
    posts::with_attachments(
        match content::rendered(post.guild->0, post.now, content, 0, lookups(replies)) {
            Ok(t) => t,
            Err(_) => content,
        },
        post.attachments,
    )
}

/// The message that a post becomes, and its bus. There is none where the post is not in a
/// channel of a guild that is followed, has no id or no content, or replies to a message without
/// an id.
pub open spec fn relayed(
    transport_id: usize,
    registry: Registry,
    post: Post,
    replies: spec_fn(Query) -> Reply,
) -> Option<(String, MessageView)> {
    let identify = if post.is_edit {
        Query::PipoId { message: post.id }
    } else {
        Query::InsertMessage { message: post.id }
    };
    match (
        replies(Query::Channel { channel: post.channel }),
        registry.route(post.channel),
        replies(identify),
        post.content,
    ) {
        (
            Reply::Channel(ChannelKind::Guild(_)),
            Some((bus, thread)),
            Reply::PipoId(pipo_id),
            Some(raw),
        ) => {
            let origin = Origin { bus, thread, pipo_id };
            let content = relayed_content(post, raw@, replies);
            relayed_as(transport_id, post, origin, content, replies)
        },
        _ => None,
    }
}

/// A list of at most one message.
pub open spec fn only(out: Option<(String, MessageView)>) -> Seq<(String, MessageView)> {
    match out {
        Some(out) => seq![out],
        None => Seq::empty(),
    }
}

/// What a post becomes once its content has been read, and its bus. There is nothing where it
/// replies to a message without an id.
pub open spec fn relayed_as(
    transport_id: usize,
    post: Post,
    origin: Origin,
    content: Seq<char>,
    replies: spec_fn(Query) -> Reply,
) -> Option<(String, MessageView)> {
    match post.reply {
        None => Some((origin.bus, posts::spoken(transport_id, post, origin, content, None))),
        Some(reply) => match replies(Query::PipoId { message: reply.id }) {
            Reply::PipoId(reply_id) => {
                let found = replies(Query::Message { channel: post.channel, message: reply.id });
                let quotes = seq![posts::quoted(reply, reply_id, found)];
                Some(
                    (origin.bus, posts::spoken(transport_id, post, origin, content, Some(quotes))),
                )
            },
            _ => None,
        },
    }
}

proof fn lemma_read(
    transport_id: usize,
    registry: Registry,
    post: Post,
    origin: Origin,
    content: Seq<char>,
    replies: spec_fn(Query) -> Reply,
)
    ensures
        told(
            transport_id,
            registry,
            posts::content_read(transport_id, post, origin, content),
            replies,
        ) == only(relayed_as(transport_id, post, origin, content, replies)),
{
    reveal_with_fuel(told, 4);
    let none = Seq::<(String, MessageView)>::empty();
    assert(none + none =~= none);
    let out = relayed_as(transport_id, post, origin, content, replies);
    assert(none + only(out) =~= only(out));
}

proof fn lemma_reading(
    transport_id: usize,
    registry: Registry,
    post: Post,
    origin: Origin,
    step: ParseStepView,
    replies: spec_fn(Query) -> Reply,
)
    ensures
        told(
            transport_id,
            registry,
            posts::content_reading(transport_id, post, origin, step),
            replies,
        ) == only(
            relayed_as(
                transport_id,
                post,
                origin,
                posts::with_attachments(
                    match content::driven(step, lookups(replies)) {
                        Ok(t) => t,
                        Err(_) => post.content->0@,
                    },
                    post.attachments,
                ),
                replies,
            ),
        ),
    decreases step.lookups_left(),
{
    match step {
        ParseStepView::Finished(read) => {
            lemma_read(
                transport_id,
                registry,
                post,
                origin,
                posts::with_attachments(
                    match read {
                        Ok(t) => t,
                        Err(_) => post.content->0@,
                    },
                    post.attachments,
                ),
                replies,
            );
        },
        ParseStepView::Asking(lookup, parser) => {
            let answer = lookups(replies)(lookup);
            content::lemma_resumed_progress(parser, answer);
            lemma_reading(
                transport_id,
                registry,
                post,
                origin,
                content::resumed(parser, answer),
                replies,
            );
            let rest = told(
                transport_id,
                registry,
                posts::content_reading(
                    transport_id,
                    post,
                    origin,
                    content::resumed(parser, answer),
                ),
                replies,
            );
            assert(Seq::<(String, MessageView)>::empty() + rest =~= rest);
        },
    }
}

proof fn lemma_post(
    transport_id: usize,
    registry: Registry,
    post: Post,
    replies: spec_fn(Query) -> Reply,
)
    ensures
        told(
            transport_id,
            registry,
            inbound::asking(
                Query::Channel { channel: post.channel },
                TaskView::Post(PostTaskView { post, stage: PostStageView::Channel }),
            ),
            replies,
        ) == only(relayed(transport_id, registry, post, replies)),
{
    let none = Seq::<(String, MessageView)>::empty();
    assert(none + none =~= none);
    let out = only(relayed(transport_id, registry, post, replies));
    assert(none + out =~= out);
    reveal_with_fuel(told, 3);
    let identify = if post.is_edit {
        Query::PipoId { message: post.id }
    } else {
        Query::InsertMessage { message: post.id }
    };
    if let Reply::Channel(ChannelKind::Guild(_)) = replies(
        Query::Channel { channel: post.channel },
    ) {
        if let Some((bus, thread)) = registry.route(post.channel) {
            if let Reply::PipoId(pipo_id) = replies(identify) {
                if let Some(raw) = post.content {
                    let origin = Origin { bus, thread, pipo_id };
                    let step = content::parsed(post.guild->0, post.now, raw@, 0, Seq::empty());
                    lemma_reading(transport_id, registry, post, origin, step, replies);
                    content::law_parse_renders(post.guild->0, post.now, raw@, lookups(replies));
                    let content = relayed_content(post, raw@, replies);
                    assert(relayed(transport_id, registry, post, replies) == relayed_as(
                        transport_id,
                        post,
                        origin,
                        content,
                        replies,
                    ));
                }
            }
        }
    }
}

/// A new message puts one message on its bus, or none: none of a bot's, and none that is no
/// message of a user's.
pub proof fn law_messages_are_relayed(
    transport_id: usize,
    registry: Registry,
    msg: NewMessage,
    now: i64,
    replies: spec_fn(Query) -> Reply,
)
    ensures
        told(transport_id, registry, handler::message_started(msg, now), replies) == if msg.bot
            || msg.kind is Other {
            Seq::empty()
        } else {
            only(
                relayed(
                    transport_id,
                    registry,
                    Post {
                        id: msg.id,
                        channel: msg.channel,
                        guild: msg.guild,
                        author: msg.author,
                        content: Some(msg.content),
                        attachments: Some(msg.attachments),
                        reply: msg.reply,
                        is_edit: false,
                        now,
                    },
                    replies,
                ),
            )
        },
{
    let post = Post {
        id: msg.id,
        channel: msg.channel,
        guild: msg.guild,
        author: msg.author,
        content: Some(msg.content),
        attachments: Some(msg.attachments),
        reply: msg.reply,
        is_edit: false,
        now,
    };
    lemma_post(transport_id, registry, post, replies);
}

/// A changed message puts one message on its bus, or none: none of a bot's, and none where the
/// author is not told.
pub proof fn law_edits_are_relayed(
    transport_id: usize,
    registry: Registry,
    edit: MessageEdit,
    now: i64,
    replies: spec_fn(Query) -> Reply,
)
    ensures
        told(transport_id, registry, handler::edit_started(edit, now), replies) == match edit.author {
            Some((author, false)) => only(
                relayed(
                    transport_id,
                    registry,
                    Post {
                        id: edit.id,
                        channel: edit.channel,
                        guild: edit.guild,
                        author,
                        content: edit.content,
                        attachments: edit.attachments,
                        reply: None,
                        is_edit: true,
                        now,
                    },
                    replies,
                ),
            ),
            _ => Seq::empty(),
        },
{
    if let Some((author, false)) = edit.author {
        let post = Post {
            id: edit.id,
            channel: edit.channel,
            guild: edit.guild,
            author,
            content: edit.content,
            attachments: edit.attachments,
            reply: None,
            is_edit: true,
            now,
        };
        lemma_post(transport_id, registry, post, replies);
    }
}

/// The deletions that are told of, in the order of the messages: one for each that has an id.
pub open spec fn deletions(
    transport_id: usize,
    bus: String,
    messages: Seq<u64>,
    replies: spec_fn(Query) -> Reply,
) -> Seq<(String, MessageView)>
    decreases messages.len(),
{
    if messages.len() == 0 {
        Seq::empty()
    } else {
        let rest = deletions(transport_id, bus, messages.drop_first(), replies);
        match replies(Query::PipoId { message: messages[0] }) {
            Reply::PipoId(pipo_id) => seq![
                (
                    bus,
                    MessageView::Delete {
                        sender: transport_id,
                        pipo_id,
                        transport: TRANSPORT_NAME@,
                    },
                ),
            ] + rest,
            _ => rest,
        }
    }
}

proof fn lemma_deletions(
    transport_id: usize,
    registry: Registry,
    channel: u64,
    messages: Seq<u64>,
    bus: String,
    at: int,
    replies: spec_fn(Query) -> Reply,
)
    requires
        0 <= at <= messages.len() <= usize::MAX,
    ensures
        told(
            transport_id,
            registry,
            (StepView { unread: None, send: None, next: changes::delete_from(channel, messages, bus, at) }),
            replies,
        ) == deletions(transport_id, bus, messages.skip(at), replies),
    decreases messages.len() - at,
{
    let none = Seq::<(String, MessageView)>::empty();
    if at < messages.len() {
        lemma_deletions(transport_id, registry, channel, messages, bus, at + 1, replies);
        assert(messages.skip(at).drop_first() =~= messages.skip(at + 1));
        let query = Query::PipoId { message: messages[at] };
        let next = changes::delete_from(channel, messages, bus, at + 1);
        let silent = StepView { unread: None, send: None, next };
        let rest = told(transport_id, registry, silent, replies);
        assert(none + rest =~= rest);
        let task = TaskView::Delete(
            DeleteTaskView {
                channel,
                messages,
                stage: DeleteStage::Id { bus, at: at as usize },
            },
        );
        let step = resumed(transport_id, registry, task, replies(query));
        assert(step.next == next);
        assert(told(transport_id, registry, step, replies) =~= sent_by(step) + rest) by {
            reveal_with_fuel(told, 2);
            if next is Some {
                let (q, t) = next->0;
                let later = told(
                    transport_id,
                    registry,
                    resumed(transport_id, registry, t, replies(q)),
                    replies,
                );
                assert(rest =~= none + later);
                assert(none + later =~= later);
            }
        }
        let own = told(transport_id, registry, step, replies);
        assert(none + own =~= own);
        if replies(query) !is PipoId {
            assert(none + rest =~= rest);
        }
    } else {
        assert(messages.skip(at) =~= Seq::<u64>::empty());
    }
}

/// Deleted messages put one deletion each on the bus of their channel, in their order. Those
/// without an id are passed over, and nothing is put anywhere for a channel that is not followed.
pub proof fn law_deletions_are_relayed(
    transport_id: usize,
    registry: Registry,
    channel: u64,
    messages: Seq<u64>,
    replies: spec_fn(Query) -> Reply,
)
    requires
        messages.len() <= usize::MAX,
    ensures
        told(transport_id, registry, handler::delete_started(channel, messages), replies) == match (
            replies(Query::Channel { channel }),
            registry.route(channel),
        ) {
            (Reply::Channel(ChannelKind::Guild(_)), Some((bus, _))) => deletions(
                transport_id,
                bus,
                messages,
                replies,
            ),
            _ => Seq::empty(),
        },
{
    let none = Seq::<(String, MessageView)>::empty();
    reveal_with_fuel(told, 2);
    assert(none + none =~= none);
    if let Some((bus, _)) = registry.route(channel) {
        lemma_deletions(transport_id, registry, channel, messages, bus, 0, replies);
        assert(messages.skip(0) =~= messages);
        let all = deletions(transport_id, bus, messages, replies);
        assert(none + all =~= all);
    }
}

/// The message that a reaction becomes, and its bus.
pub open spec fn reaction_relayed(
    transport_id: usize,
    registry: Registry,
    event: ReactionEvent,
    remove: bool,
    replies: spec_fn(Query) -> Reply,
) -> Option<(String, MessageView)> {
    match (
        replies(Query::CurrentUser),
        replies(Query::Channel { channel: event.channel }),
        registry.route(event.channel),
        replies(Query::PipoId { message: event.message }),
        changes::emoji_text(event.emoji),
    ) {
        (
            Reply::CurrentUser(own),
            Reply::Channel(ChannelKind::Guild(_)),
            Some((bus, thread)),
            Reply::PipoId(pipo_id),
            Some(emoji),
        ) if event.user != Some(own) => Some(
            (
                bus,
                MessageView::Reaction {
                    sender: transport_id,
                    pipo_id,
                    transport: TRANSPORT_NAME@,
                    emoji,
                    remove,
                    username: changes::reacting_name(event.member),
                    avatar_url: changes::reacting_picture(event.member),
                    thread: crate::message::thread_view(thread),
                },
            ),
        ),
        _ => None,
    }
}

/// A reaction puts one message on the bus of its channel, or none: none of the bridge's own, and
/// none to a message without an id. Adding it and removing it differ in nothing else.
pub proof fn law_reactions_are_relayed(
    transport_id: usize,
    registry: Registry,
    event: ReactionEvent,
    remove: bool,
    replies: spec_fn(Query) -> Reply,
)
    ensures
        told(transport_id, registry, handler::reaction_started(event, remove), replies) == only(
            reaction_relayed(transport_id, registry, event, remove, replies),
        ),
{
    reveal_with_fuel(told, 4);
    let none = Seq::<(String, MessageView)>::empty();
    let out = only(reaction_relayed(transport_id, registry, event, remove, replies));
    assert(none + out =~= out);
    assert(none + none =~= none);
}

/// Whatever handling an event puts on a bus goes under the transport's own number.
pub proof fn law_events_are_signed(
    transport_id: usize,
    task: TaskView,
    reply: Reply,
    pins: Set<u64>,
    before: Registry,
    step: StepView,
    new_pins: Set<u64>,
    now: Registry,
)
    requires
        handler::handled(transport_id, task, reply, pins, before, step, new_pins, now),
    ensures
        step.send matches Some((_, message)) ==> message.sent_by() == transport_id,
{
}

/// Where the pins that are reported are the ones that are known, nothing is told.
pub proof fn law_known_pins_tell_nothing(
    transport_id: usize,
    bus: String,
    ids: Vec<u64>,
    before: Set<u64>,
    step: StepView,
    now: Set<u64>,
)
    requires
        before == ids@.to_set(),
        changes::pins_step(
            transport_id,
            PinsTask::Listing { bus },
            Reply::Pins(ids),
            before,
            step,
            now,
        ),
    ensures
        step == inbound::stopped(),
        now == before,
{
    if let Some((_, TaskView::Pins(PinsTask::Telling { todo, .. }))) = step.next {
        let (m, removed) = todo@[0];
        assert(todo@.contains((m, removed)));
        assert(todo@.contains((m, true)) || todo@.contains((m, false)));
    }
}

/// The steps of one change of pins: each goes on where the one before it left off.
pub open spec fn is_pins_run(
    transport_id: usize,
    tasks: Seq<PinsTask>,
    replies: Seq<Reply>,
    steps: Seq<StepView>,
    pins: Seq<Set<u64>>,
) -> bool {
    &&& 0 < tasks.len() == replies.len() == steps.len()
    &&& pins.len() == tasks.len() + 1
    &&& forall|i: int|
        0 <= i < tasks.len() ==> #[trigger] changes::pins_step(
            transport_id,
            tasks[i],
            replies[i],
            pins[i],
            steps[i],
            pins[i + 1],
        )
    &&& forall|i: int|
        0 <= i < tasks.len() - 1 ==> ((#[trigger] steps[i]).next matches Some((_, next)) && next
            == TaskView::Pins(tasks[i + 1]))
    &&& steps.last().next is None
}

/// A pin that was removed or added is asked for in one step, and told of in the next where the
/// reply is an id.
pub open spec fn is_pin_told(
    transport_id: usize,
    bus: String,
    change: (u64, bool),
    asking: StepView,
    reply: Reply,
    telling: StepView,
) -> bool {
    &&& asking.next matches Some((query, _)) && query == (Query::PipoId { message: change.0 })
    &&& sent_by(telling) == match reply {
        Reply::PipoId(pipo_id) => seq![
            (bus, MessageView::Pin { sender: transport_id, pipo_id, remove: change.1 }),
        ],
        _ => Seq::empty(),
    }
}

/// A change of pins ends with the pins that were reported, and each pin that was removed or added
/// has been asked for once, and told of where it has an id.
pub proof fn law_pins_are_told(
    transport_id: usize,
    bus: String,
    ids: Vec<u64>,
    tasks: Seq<PinsTask>,
    replies: Seq<Reply>,
    steps: Seq<StepView>,
    pins: Seq<Set<u64>>,
)
    requires
        is_pins_run(transport_id, tasks, replies, steps, pins),
        tasks[0] == (PinsTask::Listing { bus }),
        replies[0] == Reply::Pins(ids),
    ensures
        pins.last() == ids@.to_set(),
        exists|todo: Seq<(u64, bool)>| #[trigger]
            changes::is_difference(todo, pins[0], ids@.to_set()) && todo.len() + 1 == steps.len()
                && forall|i: int|
                1 <= i < steps.len() ==> #[trigger] is_pin_told(
                    transport_id,
                    bus,
                    todo[i - 1],
                    steps[i - 1],
                    replies[i],
                    steps[i],
                ),
{
    assert(changes::pins_step(
        transport_id,
        tasks[0],
        replies[0],
        pins[0],
        steps[0],
        pins[1],
    ));
    if tasks.len() == 1 {
        let todo = Seq::<(u64, bool)>::empty();
        assert(changes::is_difference(todo, pins[0], ids@.to_set()));
    } else {
        assert(steps[0].next is Some);
        match tasks[1] {
            PinsTask::Telling { todo, pins: now, .. } => {
                assert forall|i: int| 1 <= i < tasks.len() implies (#[trigger] tasks[i]) == (
                PinsTask::Telling { bus, todo, at: (i - 1) as usize, pins: now }) && i
                    <= todo@.len() by {
                    lemma_telling(
                        transport_id,
                        bus,
                        todo,
                        now,
                        tasks,
                        replies,
                        steps,
                        pins,
                        i,
                    );
                }
                let n = tasks.len() - 1;
                assert(tasks[n] is Telling);
                assert(changes::pins_step(
                    transport_id,
                    tasks[n],
                    replies[n],
                    pins[n],
                    steps[n],
                    pins[n + 1],
                ));
                assert(changes::is_difference(todo@, pins[0], ids@.to_set()));
                assert forall|i: int| 1 <= i < steps.len() implies #[trigger] is_pin_told(
                    transport_id,
                    bus,
                    todo@[i - 1],
                    steps[i - 1],
                    replies[i],
                    steps[i],
                ) by {
                    assert(tasks[i] is Telling);
                    if i > 1 {
                        assert(tasks[i - 1] is Telling);
                        assert(changes::pins_step(
                            transport_id,
                            tasks[i - 1],
                            replies[i - 1],
                            pins[i - 1],
                            steps[i - 1],
                            pins[i - 1 + 1],
                        ));
                        assert(steps[i - 1].next is Some);
                    }
                    assert(changes::pins_step(
                        transport_id,
                        tasks[i],
                        replies[i],
                        pins[i],
                        steps[i],
                        pins[i + 1],
                    ));
                }
            },
            PinsTask::Listing { .. } => {},
        }
    }
}

proof fn lemma_telling(
    transport_id: usize,
    bus: String,
    todo: Vec<(u64, bool)>,
    now: std::collections::HashSet<u64>,
    tasks: Seq<PinsTask>,
    replies: Seq<Reply>,
    steps: Seq<StepView>,
    pins: Seq<Set<u64>>,
    i: int,
)
    requires
        is_pins_run(transport_id, tasks, replies, steps, pins),
        tasks.len() > 1,
        tasks[1] == (PinsTask::Telling { bus, todo, at: 0, pins: now }),
        todo@.len() > 0,
        1 <= i < tasks.len(),
    ensures
        tasks[i] == (PinsTask::Telling { bus, todo, at: (i - 1) as usize, pins: now }),
        i <= todo@.len(),
    decreases i,
{
    assert(todo@.len() == todo.len());
    if i > 1 {
        lemma_telling(transport_id, bus, todo, now, tasks, replies, steps, pins, i - 1);
        assert(changes::pins_step(
            transport_id,
            tasks[i - 1],
            replies[i - 1],
            pins[i - 1],
            steps[i - 1],
            pins[i],
        ));
        assert(steps[i - 1].next is Some);
    }
}

/// The steps in the handling of one guild: each goes on where the one before it left off.
pub open spec fn is_guild_run(
    tasks: Seq<GuildTask>,
    replies: Seq<Reply>,
    steps: Seq<StepView>,
    states: Seq<Registry>,
) -> bool {
    &&& 0 < tasks.len() == replies.len() == steps.len()
    &&& states.len() == tasks.len() + 1
    &&& forall|i: int|
        0 <= i < tasks.len() ==> #[trigger] changes::guild_step(
            tasks[i],
            replies[i],
            states[i],
            steps[i],
            states[i + 1],
        )
    &&& forall|i: int|
        0 <= i < tasks.len() - 1 ==> ((#[trigger] steps[i]).next matches Some((_, next)) && next
            == TaskView::Guild(tasks[i + 1]))
    &&& steps.last().next is None
}

/// The same channels are followed, on the same buses.
pub open spec fn same_buses(
    these: Map<u64, HandlerChannel>,
    those: Map<u64, HandlerChannel>,
) -> bool {
    &&& these.dom() == those.dom()
    &&& forall|c: u64| #[trigger] these.contains_key(c) ==> these[c].bus == those[c].bus
}

/// The threads that the handling of a guild will announce.
pub open spec fn announced_by(task: GuildTask) -> Vec<ThreadInfo> {
    match task {
        GuildTask::Webhooks { threads } => threads,
        GuildTask::Naming { threads, .. } => threads,
        GuildTask::Checking { threads, .. } => threads,
    }
}

proof fn lemma_same_threads(
    threads: Map<u64, u64>,
    these: Map<u64, HandlerChannel>,
    those: Map<u64, HandlerChannel>,
    list: Seq<ThreadInfo>,
)
    requires
        these.dom() == those.dom(),
    ensures
        registry::threads_with(threads, these, list) == registry::threads_with(
            threads,
            those,
            list,
        ),
    decreases list.len(),
{
    if list.len() > 0 {
        lemma_same_threads(threads, these, those, list.drop_last());
        if let Some(parent) = list.last().parent {
            assert(these.dom().contains(parent) == those.dom().contains(parent));
        }
    }
}

proof fn lemma_guild_runs(
    tasks: Seq<GuildTask>,
    replies: Seq<Reply>,
    steps: Seq<StepView>,
    states: Seq<Registry>,
    i: int,
)
    requires
        is_guild_run(tasks, replies, steps, states),
        tasks[0].well_formed(states[0]),
        0 <= i < tasks.len(),
    ensures
        tasks[i].well_formed(states[i]),
        announced_by(tasks[i]) == announced_by(tasks[0]),
        states[i].threads() == states[0].threads(),
        same_buses(states[i].channels(), states[0].channels()),
        i > 0 ==> !(tasks[i] is Webhooks),
    decreases i,
{
    if i > 0 {
        lemma_guild_runs(tasks, replies, steps, states, i - 1);
        assert(changes::guild_step(
            tasks[i - 1],
            replies[i - 1],
            states[i - 1],
            steps[i - 1],
            states[i - 1 + 1],
        ));
        assert(steps[i - 1].next is Some);
        handler::lemma_guild_goes_on(
            tasks[i - 1],
            replies[i - 1],
            states[i - 1],
            steps[i - 1],
            states[i],
        );
        lemma_guild_buses(tasks[i - 1], replies[i - 1], states[i - 1], steps[i - 1], states[i]);
    }
}

proof fn lemma_guild_buses(
    task: GuildTask,
    reply: Reply,
    before: Registry,
    step: StepView,
    now: Registry,
)
    requires
        task.well_formed(before),
        changes::guild_step(task, reply, before, step, now),
    ensures
        same_buses(now.channels(), before.channels()),
        step.next matches Some((_, TaskView::Guild(next))) ==> {
            &&& next.well_formed(now)
            &&& announced_by(next) == announced_by(task)
            &&& now.threads() == before.threads()
            &&& !(next is Webhooks)
        },
        step.next is None && (task is Webhooks ==> reply is Webhooks) ==> now.threads()
            == registry::threads_with(before.threads(), now.channels(), announced_by(task)@),
{
    handler::lemma_guild_goes_on(task, reply, before, step, now);
    match task {
        GuildTask::Webhooks { .. } => {
            if let Reply::Webhooks(webhooks) = reply {
                assert(webhooks@.len() == webhooks.len());
                changes::lemma_next_named(now.channels(), webhooks@, 0);
            }
        },
        GuildTask::Naming { webhooks, at, .. } => {
            assert(webhooks@.len() == webhooks.len());
            changes::lemma_next_named(now.channels(), webhooks@, at + 1);
        },
        GuildTask::Checking { channels, .. } => {
            assert(channels@.len() == channels.len());
        },
    }
}

/// Whether a reply finds the webhook of a channel that is looked at to be the bridge's own.
pub open spec fn finds_own(task: GuildTask, reply: Reply, channel: u64) -> bool {
    &&& task matches GuildTask::Naming { webhooks, at, .. }
    &&& webhooks@[at as int].channel == channel
    &&& reply matches Reply::Channel(ChannelKind::Guild(name))
    &&& changes::is_own(webhooks@[at as int], name@)
}

/// Whether one of the first replies has found a webhook of a channel to be the bridge's own.
pub open spec fn found_own(
    tasks: Seq<GuildTask>,
    replies: Seq<Reply>,
    channel: u64,
    count: int,
) -> bool {
    exists|i: int| 0 <= i < count && #[trigger] finds_own(tasks[i], replies[i], channel)
}

/// Whether a step asks for the channel of the webhook at a position, which the next task waits
/// for.
pub open spec fn looks_at(
    step: StepView,
    task: GuildTask,
    webhooks: Seq<inbound::WebhookInfo>,
    at: int,
) -> bool {
    &&& step.next matches Some((query, _)) && query == (Query::Channel {
        channel: webhooks[at].channel,
    })
    &&& task matches GuildTask::Naming { webhooks: list, at: looked_at, .. } && list@ == webhooks
        && looked_at == at
}

/// Whether each webhook before a position that has a name and belongs to a followed channel has
/// been looked at in one of the first steps.
pub open spec fn all_looked_at(
    tasks: Seq<GuildTask>,
    steps: Seq<StepView>,
    webhooks: Seq<inbound::WebhookInfo>,
    channels: Map<u64, HandlerChannel>,
    before: int,
    count: int,
) -> bool {
    forall|k: int|
        0 <= k < before && changes::is_named(channels, #[trigger] webhooks[k]) ==> exists|i: int|
            0 <= i < count - 1 && #[trigger] looks_at(steps[i], tasks[i + 1], webhooks, k)
}

proof fn lemma_webhooks_kept(
    tasks: Seq<GuildTask>,
    replies: Seq<Reply>,
    steps: Seq<StepView>,
    states: Seq<Registry>,
    channel: u64,
    i: int,
)
    requires
        is_guild_run(tasks, replies, steps, states),
        tasks[0].well_formed(states[0]),
        states[0].channels().contains_key(channel),
        0 <= i < states.len(),
    ensures
        states[i].channels().contains_key(channel),
        states[i].channels()[channel].webhook == if found_own(tasks, replies, channel, i) {
            None
        } else {
            states[0].channels()[channel].webhook
        },
    decreases i,
{
    if i > 0 {
        lemma_webhooks_kept(tasks, replies, steps, states, channel, i - 1);
        lemma_guild_runs(tasks, replies, steps, states, i - 1);
        assert(changes::guild_step(
            tasks[i - 1],
            replies[i - 1],
            states[i - 1],
            steps[i - 1],
            states[i - 1 + 1],
        ));
        let found = finds_own(tasks[i - 1], replies[i - 1], channel);
        assert(found_own(tasks, replies, channel, i) == (found || found_own(
            tasks,
            replies,
            channel,
            i - 1,
        ))) by {
            if found_own(tasks, replies, channel, i - 1) {
                let j = choose|j: int|
                    0 <= j < i - 1 && #[trigger] finds_own(tasks[j], replies[j], channel);
                assert(0 <= j < i && finds_own(tasks[j], replies[j], channel));
            }
        }
    }
}

proof fn lemma_looked_at(
    tasks: Seq<GuildTask>,
    replies: Seq<Reply>,
    steps: Seq<StepView>,
    states: Seq<Registry>,
    webhooks: Vec<inbound::WebhookInfo>,
    i: int,
)
    requires
        is_guild_run(tasks, replies, steps, states),
        tasks[0] is Webhooks,
        replies[0] == Reply::Webhooks(webhooks),
        0 < i < tasks.len(),
    ensures
        tasks[i] matches GuildTask::Naming { webhooks: list, at, .. } ==> list == webhooks && at
            < webhooks@.len() && all_looked_at(
            tasks,
            steps,
            webhooks@,
            states[0].channels(),
            at + 1,
            i + 1,
        ),
        tasks[i] is Checking ==> all_looked_at(
            tasks,
            steps,
            webhooks@,
            states[0].channels(),
            webhooks@.len() as int,
            i + 1,
        ),
    decreases i,
{
    assert(webhooks@.len() == webhooks.len());
    let channels = states[0].channels();
    lemma_guild_runs(tasks, replies, steps, states, i - 1);
    lemma_guild_runs(tasks, replies, steps, states, i);
    assert(changes::guild_step(
        tasks[i - 1],
        replies[i - 1],
        states[i - 1],
        steps[i - 1],
        states[i - 1 + 1],
    ));
    assert(steps[i - 1].next is Some);
    if i > 1 {
        lemma_looked_at(tasks, replies, steps, states, webhooks, i - 1);
    }
    if !(tasks[i - 1] is Checking) {
        let from = match tasks[i - 1] {
            GuildTask::Naming { at, .. } => at + 1,
            _ => 0,
        };
        assert(all_looked_at(tasks, steps, webhooks@, channels, from, i));
        lemma_same_names(states[i].channels(), channels, webhooks@, from);
        changes::lemma_next_named(channels, webhooks@, from);
        let n = changes::next_named(channels, webhooks@, from);
        let before = if n < webhooks@.len() {
            n + 1
        } else {
            n
        };
        assert forall|k: int|
            0 <= k < before && changes::is_named(channels, #[trigger] webhooks@[k]) implies exists|
            j: int,
        |
            0 <= j < i + 1 - 1 && #[trigger] looks_at(steps[j], tasks[j + 1], webhooks@, k) by {
            if k < from {
                let j = choose|j: int|
                    0 <= j < i - 1 && #[trigger] looks_at(steps[j], tasks[j + 1], webhooks@, k);
                assert(looks_at(steps[j], tasks[j + 1], webhooks@, k));
            } else {
                assert(k == n);
                assert(looks_at(steps[i - 1], tasks[i - 1 + 1], webhooks@, k));
            }
        }
    } else {
        assert forall|k: int|
            0 <= k < webhooks@.len() && changes::is_named(
                channels,
                #[trigger] webhooks@[k],
            ) implies exists|j: int|
            0 <= j < i + 1 - 1 && #[trigger] looks_at(steps[j], tasks[j + 1], webhooks@, k) by {
            let j = choose|j: int|
                0 <= j < i - 1 && #[trigger] looks_at(steps[j], tasks[j + 1], webhooks@, k);
            assert(looks_at(steps[j], tasks[j + 1], webhooks@, k));
        }
    }
}

/// Which webhooks are looked at depends on which channels are followed alone.
proof fn lemma_same_names(
    these: Map<u64, HandlerChannel>,
    those: Map<u64, HandlerChannel>,
    webhooks: Seq<inbound::WebhookInfo>,
    at: int,
)
    requires
        these.dom() == those.dom(),
        0 <= at <= webhooks.len(),
    ensures
        changes::next_named(these, webhooks, at) == changes::next_named(those, webhooks, at),
    decreases webhooks.len() - at,
{
    if at < webhooks.len() {
        let channel = webhooks[at].channel;
        assert(these.dom().contains(channel) == those.dom().contains(channel));
        lemma_same_names(these, those, webhooks, at + 1);
    }
}

/// The handling of a guild whose webhooks could be had ends with each of its threads known that
/// belongs to a followed channel, and leaves the same channels on the same buses. Each webhook of
/// a followed channel that has a name has been looked at. A channel has no webhook where one of
/// its own was found to be the bridge's, and keeps the one that it had otherwise.
pub proof fn law_guilds_are_followed(
    threads: Vec<ThreadInfo>,
    webhooks: Vec<inbound::WebhookInfo>,
    tasks: Seq<GuildTask>,
    replies: Seq<Reply>,
    steps: Seq<StepView>,
    states: Seq<Registry>,
)
    requires
        is_guild_run(tasks, replies, steps, states),
        tasks[0] == (GuildTask::Webhooks { threads }),
        replies[0] == Reply::Webhooks(webhooks),
    ensures
        states.last().threads() == registry::threads_with(
            states[0].threads(),
            states[0].channels(),
            threads@,
        ),
        same_buses(states.last().channels(), states[0].channels()),
        all_looked_at(
            tasks,
            steps,
            webhooks@,
            states[0].channels(),
            webhooks@.len() as int,
            tasks.len() as int,
        ),
        forall|channel: u64| #[trigger]
            states[0].channels().contains_key(channel) ==> states.last().channels()[channel].webhook
                == if found_own(tasks, replies, channel, tasks.len() as int) {
                None
            } else {
                states[0].channels()[channel].webhook
            },
{
    let n = tasks.len() - 1;
    let channels = states[0].channels();
    lemma_guild_runs(tasks, replies, steps, states, n);
    assert(changes::guild_step(tasks[n], replies[n], states[n], steps[n], states[n + 1]));
    lemma_guild_buses(tasks[n], replies[n], states[n], steps[n], states[n + 1]);
    let last = states[n + 1];
    assert(same_buses(last.channels(), channels)) by {
        assert forall|c: u64| #[trigger] last.channels().contains_key(c) implies last.channels()[c].bus
            == channels[c].bus by {
            assert(states[n].channels().dom().contains(c));
            assert(states[n].channels().contains_key(c));
        }
    }
    lemma_same_threads(states[0].threads(), last.channels(), channels, threads@);
    assert forall|channel: u64| #[trigger] channels.contains_key(
        channel,
    ) implies last.channels()[channel].webhook == if found_own(
        tasks,
        replies,
        channel,
        tasks.len() as int,
    ) {
        None
    } else {
        channels[channel].webhook
    } by {
        lemma_webhooks_kept(tasks, replies, steps, states, channel, n + 1);
    }
    assert(webhooks@.len() == webhooks.len());
    if n > 0 {
        lemma_looked_at(tasks, replies, steps, states, webhooks, n);
    }
    if !(tasks[n] is Checking) {
        let from = match tasks[n] {
            GuildTask::Naming { at, .. } => at + 1,
            _ => 0,
        };
        lemma_same_names(last.channels(), channels, webhooks@, from);
        changes::lemma_next_named(channels, webhooks@, from);
    }
}

} // verus!
