//! Deletions, reactions, pins, guilds and threads, as Discord reports them.

use crate::inbound;
use crate::inbound::{
    ChannelKind, Member, Outgoing, Query, ReactionEmoji, ReactionEvent, Reply, Step,
    StepView, Task, TaskView, WebhookInfo, TRANSPORT_NAME,
};
use crate::message::{Message, MessageView};
use crate::registry;
use crate::registry::{Registry, ThreadInfo};
use crate::text;
use std::collections::HashSet;
use vstd::prelude::*;

verus! {

/// Messages that were deleted in a channel, one or many.
pub struct DeleteTask {
    pub channel: u64,
    pub messages: Vec<u64>,
    pub stage: DeleteStage,
}

pub struct DeleteTaskView {
    pub channel: u64,
    pub messages: Seq<u64>,
    pub stage: DeleteStage,
}

/// What a deletion waits for.
pub enum DeleteStage {
    /// Its channel.
    Channel,
    /// The id of the message at the position given.
    Id { bus: String, at: usize },
}

impl View for DeleteTask {
    type V = DeleteTaskView;

    open spec fn view(&self) -> DeleteTaskView {
        DeleteTaskView { channel: self.channel, messages: self.messages@, stage: self.stage }
    }
}

/// The messages from `at` on are next.
pub open spec fn delete_from(
    channel: u64,
    messages: Seq<u64>,
    bus: String,
    at: int,
) -> Option<(Query, TaskView)> {
    if at < messages.len() {
        Some(
            (
                Query::PipoId { message: messages[at] },
                TaskView::Delete(
                    DeleteTaskView {
                        channel,
                        messages,
                        stage: DeleteStage::Id { bus, at: at as usize },
                    },
                ),
            ),
        )
    } else {
        None
    }
}

/// The next step of a deletion. A message that the bridge has no id for is passed over.
pub open spec fn delete_resumed(
    transport_id: usize,
    registry: Registry,
    task: DeleteTaskView,
    reply: Reply,
) -> StepView {
    match task.stage {
        DeleteStage::Channel => match (reply, registry.route(task.channel)) {
            (Reply::Channel(ChannelKind::Guild(_)), Some((bus, _))) => StepView {
                unread: None,
                send: None,
                next: delete_from(task.channel, task.messages, bus, 0),
            },
            _ => inbound::stopped(),
        },
        DeleteStage::Id { bus, at } => StepView {
            unread: None,
            send: match reply {
                Reply::PipoId(pipo_id) => Some(
                    (
                        bus,
                        MessageView::Delete {
                            sender: transport_id,
                            pipo_id,
                            transport: TRANSPORT_NAME@,
                        },
                    ),
                ),
                _ => None,
            },
            next: delete_from(task.channel, task.messages, bus, at + 1),
        },
    }
}

impl DeleteTaskView {
    /// The position is one of a message.
    pub open spec fn well_formed(self) -> bool {
        self.stage matches DeleteStage::Id { at, .. } ==> at < self.messages.len()
            && self.messages.len() <= usize::MAX
    }

    /// A bound on the replies that the deletion may still wait for.
    pub open spec fn replies_left(self) -> nat {
        match self.stage {
            DeleteStage::Channel => self.messages.len() + 1,
            DeleteStage::Id { at, .. } => (self.messages.len() - at) as nat,
        }
    }
}

impl DeleteTask {
    fn go_on(channel: u64, messages: Vec<u64>, bus: String, at: usize) -> (next: Option<
        (Query, Task),
    >)
        ensures
            match next {
                Some((query, task)) => delete_from(channel, messages@, bus, at as int) == Some(
                    (query, task@),
                ),
                None => delete_from(channel, messages@, bus, at as int) is None,
            },
    {
        if at < messages.len() {
            Some(
                (
                    Query::PipoId { message: messages[at] },
                    Task::Delete(
                        DeleteTask { channel, messages, stage: DeleteStage::Id { bus, at } },
                    ),
                ),
            )
        } else {
            None
        }
    }

    /// Goes on with a reply.
    pub fn resume(self, transport_id: usize, registry: &Registry, reply: Reply) -> (step: Step)
        requires
            registry.well_formed(),
            self@.well_formed(),
        ensures
            step@ == delete_resumed(transport_id, *registry, self@, reply),
    {
        let channel = self.channel;
        let messages = self.messages;
        match self.stage {
            DeleteStage::Channel => match reply {
                Reply::Channel(ChannelKind::Guild(_)) => {
                    let mut thread: Option<(Option<String>, Option<u64>)> = None;
                    match registry.get_sender_and_thread(channel, &mut thread) {
                        Some(bus) => Step {
                            unread: None,
                            send: None,
                            next: DeleteTask::go_on(channel, messages, bus, 0),
                        },
                        None => Step::stop(),
                    }
                },
                _ => Step::stop(),
            },
            DeleteStage::Id { bus, at } => {
                let send = match reply {
                    Reply::PipoId(pipo_id) => Some(
                        Outgoing {
                            bus: bus.clone(),
                            message: Message::Delete {
                                sender: transport_id,
                                pipo_id,
                                transport: TRANSPORT_NAME.to_string(),
                            },
                        },
                    ),
                    _ => None,
                };
                Step {
                    unread: None,
                    send,
                    next: DeleteTask::go_on(channel, messages, bus, at + 1),
                }
            },
        }
    }
}

/// A reaction that was added or removed.
pub struct ReactionTask {
    pub event: ReactionEvent,
    pub remove: bool,
    pub stage: ReactionStage,
}

/// What a reaction waits for.
pub enum ReactionStage {
    /// The bridge's own user.
    CurrentUser,
    /// Its channel.
    Channel,
    /// The id of its message.
    Id { bus: String, thread: Option<(Option<String>, Option<u64>)> },
}

/// The text of an emoji, as far as it has one.
pub open spec fn emoji_text(emoji: ReactionEmoji) -> Option<Seq<char>> {
    match emoji {
        ReactionEmoji::Custom(name) => text::opt_text(name),
        ReactionEmoji::Unicode(emoji) => Some(emoji@),
        ReactionEmoji::Other => None,
    }
}

/// The name of whoever reacted: the nickname before the name.
pub open spec fn reacting_name(member: Option<Member>) -> Option<Seq<char>> {
    match member {
        Some(Member { nick: Some(nick), .. }) => Some(nick@),
        Some(Member { nick: None, user: Some(user) }) => Some(user.name@),
        _ => None,
    }
}

pub open spec fn reacting_picture(member: Option<Member>) -> Option<Seq<char>> {
    match member {
        Some(Member { user: Some(user), .. }) => text::opt_text(user.avatar_url),
        _ => None,
    }
}

/// The next step of a reaction. The bridge's own reactions are not relayed.
pub open spec fn reaction_resumed(
    transport_id: usize,
    registry: Registry,
    task: ReactionTask,
    reply: Reply,
) -> StepView {
    let event = task.event;
    match (task.stage, reply) {
        (ReactionStage::CurrentUser, Reply::CurrentUser(own)) => if event.user == Some(own) {
            inbound::stopped()
        } else {
            inbound::asking(
                Query::Channel { channel: event.channel },
                TaskView::Reaction(ReactionTask { stage: ReactionStage::Channel, ..task }),
            )
        },
        (ReactionStage::Channel, Reply::Channel(ChannelKind::Guild(_))) => match registry.route(
            event.channel,
        ) {
            Some((bus, thread)) => inbound::asking(
                Query::PipoId { message: event.message },
                TaskView::Reaction(
                    ReactionTask { stage: ReactionStage::Id { bus, thread }, ..task },
                ),
            ),
            None => inbound::stopped(),
        },
        (ReactionStage::Id { bus, thread }, Reply::PipoId(pipo_id)) => match emoji_text(
            event.emoji,
        ) {
            Some(emoji) => inbound::sending(
                bus,
                MessageView::Reaction {
                    sender: transport_id,
                    pipo_id,
                    transport: TRANSPORT_NAME@,
                    emoji,
                    remove: task.remove,
                    username: reacting_name(event.member),
                    avatar_url: reacting_picture(event.member),
                    thread: crate::message::thread_view(thread),
                },
            ),
            None => inbound::stopped(),
        },
        _ => inbound::stopped(),
    }
}

impl ReactionTask {
    /// Whether the reaction can go on with a reply: it has to know the bridge's own user.
    pub open spec fn takes(self, reply: Reply) -> bool {
        self.stage is CurrentUser ==> reply is CurrentUser
    }

    /// A bound on the replies that the reaction may still wait for.
    pub open spec fn replies_left(self) -> nat {
        match self.stage {
            ReactionStage::CurrentUser => 3,
            ReactionStage::Channel => 2,
            ReactionStage::Id { .. } => 1,
        }
    }

    /// Whether the reaction can go on with a reply.
    pub fn accepts(&self, reply: &Reply) -> (accepted: bool)
        ensures
            accepted == self.takes(*reply),
    {
        match (&self.stage, reply) {
            (ReactionStage::CurrentUser, Reply::CurrentUser(_)) => true,
            (ReactionStage::CurrentUser, _) => false,
            _ => true,
        }
    }

    /// Goes on with a reply.
    pub fn resume(self, transport_id: usize, registry: &Registry, reply: Reply) -> (step: Step)
        requires
            registry.well_formed(),
            self.takes(reply),
        ensures
            step@ == reaction_resumed(transport_id, *registry, self, reply),
    {
        let ReactionTask { event, remove, stage } = self;
        match (stage, reply) {
            (ReactionStage::CurrentUser, Reply::CurrentUser(own)) => {
                let is_own = match event.user {
                    Some(user) => user == own,
                    None => false,
                };
                if is_own {
                    Step::stop()
                } else {
                    Step::ask(
                        Query::Channel { channel: event.channel },
                        Task::Reaction(
                            ReactionTask { event, remove, stage: ReactionStage::Channel },
                        ),
                    )
                }
            },
            (ReactionStage::Channel, Reply::Channel(ChannelKind::Guild(_))) => {
                let mut thread: Option<(Option<String>, Option<u64>)> = None;
                match registry.get_sender_and_thread(event.channel, &mut thread) {
                    Some(bus) => Step::ask(
                        Query::PipoId { message: event.message },
                        Task::Reaction(
                            ReactionTask {
                                event,
                                remove,
                                stage: ReactionStage::Id { bus, thread },
                            },
                        ),
                    ),
                    None => Step::stop(),
                }
            },
            (ReactionStage::Id { bus, thread }, Reply::PipoId(pipo_id)) => {
                let emoji = match event.emoji {
                    ReactionEmoji::Custom(Some(name)) => name,
                    ReactionEmoji::Unicode(emoji) => emoji,
                    _ => {
                        return Step::stop();
                    },
                };
                let (username, avatar_url) = match event.member {
                    Some(Member { nick, user }) => match (nick, user) {
                        (Some(nick), Some(user)) => (Some(nick), user.avatar_url),
                        (None, Some(user)) => (Some(user.name), user.avatar_url),
                        (nick, None) => (nick, None),
                    },
                    None => (None, None),
                };
                Step::send(
                    bus,
                    Message::Reaction {
                        sender: transport_id,
                        pipo_id,
                        transport: TRANSPORT_NAME.to_string(),
                        emoji,
                        remove,
                        username,
                        avatar_url,
                        thread,
                    },
                )
            },
            _ => Step::stop(),
        }
    }
}

/// The pins of a channel that have changed.
pub enum PinsTask {
    /// Waits for the pinned messages.
    Listing { bus: String },
    /// Waits for the id of the message at the position given. Each message comes with whether its
    /// pin was removed. `pins` is what is pinned now.
    Telling { bus: String, todo: Vec<(u64, bool)>, at: usize, pins: HashSet<u64> },
}

/// The list holds each pin that was removed, then each that was added, once.
pub open spec fn is_difference(
    todo: Seq<(u64, bool)>,
    old_pins: Set<u64>,
    new_pins: Set<u64>,
) -> bool {
    &&& todo.no_duplicates()
    &&& forall|m: u64| #[trigger]
        todo.contains((m, true)) <==> old_pins.contains(m) && !new_pins.contains(m)
    &&& forall|m: u64| #[trigger]
        todo.contains((m, false)) <==> new_pins.contains(m) && !old_pins.contains(m)
    &&& forall|i: int, j: int|
        0 <= i < todo.len() && 0 <= j < todo.len() && (#[trigger] todo[i]).1 && !(
        #[trigger] todo[j]).1 ==> i < j
}

/// One step of a change of pins, from the pins that were known before it to those known after
/// it. The new pins are known only when each change has been told.
pub open spec fn pins_step(
    transport_id: usize,
    task: PinsTask,
    reply: Reply,
    before: Set<u64>,
    step: StepView,
    now: Set<u64>,
) -> bool {
    match task {
        PinsTask::Listing { bus } => match reply {
            Reply::Pins(ids) => {
                &&& step.unread is None
                &&& step.send is None
                &&& match step.next {
                    Some((query, next)) => {
                        &&& next matches TaskView::Pins(PinsTask::Telling { bus: b, todo, at, pins })
                        &&& b == bus
                        &&& at == 0
                        &&& todo@.len() > 0
                        &&& query == Query::PipoId { message: todo@[0].0 }
                        &&& is_difference(todo@, before, ids@.to_set())
                        &&& pins@ == ids@.to_set()
                        &&& now == before
                    },
                    None => before == ids@.to_set() && now == before,
                }
            },
            _ => step == inbound::stopped() && now == before,
        },
        PinsTask::Telling { bus, todo, at, pins } => {
            &&& step.unread is None
            &&& step.send == match reply {
                Reply::PipoId(pipo_id) => Some(
                    (
                        bus,
                        MessageView::Pin { sender: transport_id, pipo_id, remove: todo@[at as int].1 },
                    ),
                ),
                _ => None,
            }
            &&& if at + 1 < todo@.len() {
                &&& step.next == Some(
                    (
                        Query::PipoId { message: todo@[at + 1].0 },
                        TaskView::Pins(
                            PinsTask::Telling { bus, todo, at: (at + 1) as usize, pins },
                        ),
                    ),
                )
                &&& now == before
            } else {
                step.next is None && now == pins@
            }
        },
    }
}

/// The set of the numbers in a list.
fn set_of(ids: &Vec<u64>) -> (set: HashSet<u64>)
    ensures
        set@ == ids@.to_set(),
{
    let mut set: HashSet<u64> = HashSet::new();
    let mut i: usize = 0;
    while i < ids.len()
        invariant
            i <= ids@.len(),
            set@ == ids@.take(i as int).to_set(),
        decreases ids@.len() - i,
    {
        let ghost before = set@;
        set.insert(ids[i]);
        proof {
            let front = ids@.take(i as int);
            let longer = ids@.take(i + 1);
            assert(longer =~= front.push(ids@[i as int]));
            assert forall|m: u64| longer.to_set().contains(m) <==> before.insert(
                ids@[i as int],
            ).contains(m) by {
                if front.contains(m) {
                    let k = choose|k: int| 0 <= k < front.len() && front[k] == m;
                    assert(longer[k] == m);
                }
                if longer.contains(m) {
                    let k = choose|k: int| 0 <= k < longer.len() && longer[k] == m;
                    if k < i {
                        assert(front[k] == m);
                    }
                }
                assert(longer[i as int] == ids@[i as int]);
            }
            assert(set@ =~= longer.to_set());
        }
        i = i + 1;
    }
    assert(ids@.take(i as int) =~= ids@);
    set
}

/// The members of a set, each once.
fn members(set: &HashSet<u64>) -> (list: Vec<u64>)
    ensures
        list@.no_duplicates(),
        forall|m: u64| #[trigger] list@.contains(m) <==> set@.contains(m),
{
    let mut list: Vec<u64> = Vec::new();
    for m in it: set.iter()
        invariant
            it.seq().unref().to_set() == set@,
            it.seq().no_duplicates(),
            list@ == it.seq().unref().take(it.index()),
    {
        list.push(*m);
    }
    proof {
        let all = vstd::std_specs::hash::spec_hash_keys_iter(set);
        let seq = vstd::std_specs::iter::IteratorSpec::remaining(&all);
        assert(list@ =~= seq.unref());
        assert forall|i: int, j: int|
            0 <= i < list@.len() && 0 <= j < list@.len() && i != j implies list@[i] != list@[j] by {
            assert(seq[i] != seq[j]);
        }
        assert forall|m: u64| #[trigger] list@.contains(m) <==> set@.contains(m) by {
            assert(list@.to_set().contains(m) <==> list@.contains(m));
        }
    }
    list
}

/// The members of a list that are not in a set.
fn without(list: &Vec<u64>, but: &HashSet<u64>) -> (rest: Vec<u64>)
    requires
        list@.no_duplicates(),
    ensures
        rest@.no_duplicates(),
        forall|m: u64| #[trigger]
            rest@.contains(m) <==> list@.contains(m) && !but@.contains(m),
{
    let mut rest: Vec<u64> = Vec::new();
    let mut i: usize = 0;
    while i < list.len()
        invariant
            i <= list@.len(),
            list@.no_duplicates(),
            rest@.no_duplicates(),
            forall|m: u64| #[trigger]
                rest@.contains(m) <==> list@.take(i as int).contains(m) && !but@.contains(m),
        decreases list@.len() - i,
    {
        let m = list[i];
        proof {
            let front = list@.take(i as int);
            assert(list@.take(i + 1) =~= front.push(m));
            text::lemma_contains_push(front, m);
            text::lemma_contains_push(rest@, m);
            if front.contains(m) {
                let k = choose|k: int| 0 <= k < front.len() && front[k] == m;
                assert(list@[k] == list@[i as int]);
            }
            assert(!rest@.contains(m));
        }
        if !but.contains(&m) {
            rest.push(m);
        }
        i = i + 1;
    }
    assert(list@.take(i as int) =~= list@);
    rest
}

/// Appends a list, each member with a mark.
fn push_marked(todo: &mut Vec<(u64, bool)>, list: &Vec<u64>, mark: bool)
    ensures
        final(todo)@ == old(todo)@ + list@.map_values(|m: u64| (m, mark)),
{
    let mut i: usize = 0;
    while i < list.len()
        invariant
            i <= list@.len(),
            todo@ == old(todo)@ + list@.take(i as int).map_values(|m: u64| (m, mark)),
        decreases list@.len() - i,
    {
        todo.push((list[i], mark));
        assert(todo@ =~= old(todo)@ + list@.take(i + 1).map_values(|m: u64| (m, mark)));
        i = i + 1;
    }
    assert(list@.take(i as int) =~= list@);
}

/// The pins that were removed, then those that were added.
fn difference(old_pins: &HashSet<u64>, new_pins: &HashSet<u64>) -> (todo: Vec<(u64, bool)>)
    ensures
        is_difference(todo@, old_pins@, new_pins@),
{
    let removed = without(&members(old_pins), new_pins);
    let added = without(&members(new_pins), old_pins);
    let mut todo: Vec<(u64, bool)> = Vec::new();
    push_marked(&mut todo, &removed, true);
    push_marked(&mut todo, &added, false);
    proof {
        let n = removed@.len();
        assert forall|i: int| 0 <= i < todo@.len() implies #[trigger] todo@[i] == (if i < n {
            (removed@[i], true)
        } else {
            (added@[i - n], false)
        }) by {}
        assert forall|m: u64| #[trigger] todo@.contains((m, true)) <==> old_pins@.contains(m)
            && !new_pins@.contains(m) by {
            assert(removed@.contains(m) <==> old_pins@.contains(m) && !new_pins@.contains(m));
            if removed@.contains(m) {
                let k = choose|k: int| 0 <= k < n && removed@[k] == m;
                assert(todo@[k] == (m, true));
            }
            if todo@.contains((m, true)) {
                let k = choose|k: int| 0 <= k < todo@.len() && todo@[k] == (m, true);
                assert(removed@[k] == m);
            }
        }
        assert forall|m: u64| #[trigger] todo@.contains((m, false)) <==> new_pins@.contains(m)
            && !old_pins@.contains(m) by {
            assert(added@.contains(m) <==> new_pins@.contains(m) && !old_pins@.contains(m));
            if added@.contains(m) {
                let k = choose|k: int| 0 <= k < added@.len() && added@[k] == m;
                assert(todo@[n + k] == (m, false));
            }
            if todo@.contains((m, false)) {
                let k = choose|k: int| 0 <= k < todo@.len() && todo@[k] == (m, false);
                assert(added@[k - n] == m);
            }
        }
    }
    todo
}

impl PinsTask {
    /// The position is one of a pin.
    pub open spec fn well_formed(self) -> bool {
        self matches PinsTask::Telling { todo, at, .. } ==> at < todo@.len()
    }

    /// How far the change has come: the stage, and the replies that it may still wait for.
    pub open spec fn left(self) -> (nat, nat) {
        match self {
            PinsTask::Listing { .. } => (1, 0),
            PinsTask::Telling { todo, at, .. } => (0, (todo@.len() - at) as nat),
        }
    }

    /// Goes on with a reply. `pins` is what is known to be pinned.
    pub fn resume(self, transport_id: usize, pins: &mut HashSet<u64>, reply: Reply) -> (step: Step)
        requires
            self.well_formed(),
        ensures
            pins_step(transport_id, self, reply, old(pins)@, step@, final(pins)@),
    {
        match self {
            PinsTask::Listing { bus } => match reply {
                Reply::Pins(ids) => {
                    let new_pins = set_of(&ids);
                    let todo = difference(pins, &new_pins);
                    if todo.len() == 0 {
                        assert(pins@ =~= new_pins@) by {
                            assert forall|m: u64| pins@.contains(m) <==> new_pins@.contains(m) by {
                                assert(!todo@.contains((m, true)));
                                assert(!todo@.contains((m, false)));
                            }
                        }
                        *pins = new_pins;
                        return Step::stop();
                    }
                    let message = todo[0].0;
                    Step::ask(
                        Query::PipoId { message },
                        Task::Pins(PinsTask::Telling { bus, todo, at: 0, pins: new_pins }),
                    )
                },
                _ => Step::stop(),
            },
            PinsTask::Telling { bus, todo, at, pins: new_pins } => {
                let send = match reply {
                    Reply::PipoId(pipo_id) => Some(
                        Outgoing {
                            bus: bus.clone(),
                            message: Message::Pin {
                                sender: transport_id,
                                pipo_id,
                                remove: todo[at].1,
                            },
                        },
                    ),
                    _ => None,
                };
                let len = todo.len();
                if at + 1 < len {
                    let message = todo[at + 1].0;
                    Step {
                        unread: None,
                        send,
                        next: Some(
                            (
                                Query::PipoId { message },
                                Task::Pins(
                                    PinsTask::Telling { bus, todo, at: at + 1, pins: new_pins },
                                ),
                            ),
                        ),
                    }
                } else {
                    *pins = new_pins;
                    Step { unread: None, send, next: None }
                }
            },
        }
    }
}

/// A guild that has come within sight.
pub enum GuildTask {
    /// Waits for the guild's webhooks.
    Webhooks { threads: Vec<ThreadInfo> },
    /// Waits for the channel of the webhook at the position given.
    Naming { webhooks: Vec<WebhookInfo>, at: usize, threads: Vec<ThreadInfo> },
    /// Waits for the channel at the position given, one of those without a webhook.
    Checking { channels: Vec<u64>, at: usize, threads: Vec<ThreadInfo> },
}

/// Whether a webhook has a name and belongs to a followed channel.
pub open spec fn is_named(
    channels: Map<u64, registry::HandlerChannel>,
    webhook: WebhookInfo,
) -> bool {
    channels.contains_key(webhook.channel) && webhook.name is Some
}

/// The first webhook from `at` on that has a name and belongs to a followed channel.
pub open spec fn next_named(
    channels: Map<u64, registry::HandlerChannel>,
    webhooks: Seq<WebhookInfo>,
    at: int,
) -> int
    decreases webhooks.len() - at,
{
    if 0 <= at < webhooks.len() && !is_named(channels, webhooks[at]) {
        next_named(channels, webhooks, at + 1)
    } else {
        at
    }
}

/// The search moves forward, stays in the list, and passes over nothing that it is for.
pub proof fn lemma_next_named(
    channels: Map<u64, registry::HandlerChannel>,
    webhooks: Seq<WebhookInfo>,
    at: int,
)
    requires
        0 <= at <= webhooks.len(),
    ensures
        at <= next_named(channels, webhooks, at) <= webhooks.len(),
        next_named(channels, webhooks, at) < webhooks.len() ==> is_named(
            channels,
            webhooks[next_named(channels, webhooks, at)],
        ),
        forall|k: int|
            at <= k < next_named(channels, webhooks, at) ==> !is_named(
                channels,
                #[trigger] webhooks[k],
            ),
    decreases webhooks.len() - at,
{
    if at < webhooks.len() {
        lemma_next_named(channels, webhooks, at + 1);
    }
}

/// Whether a webhook carries the name under which the bridge makes its own.
pub open spec fn is_own(webhook: WebhookInfo, channel_name: Seq<char>) -> bool {
    webhook.name matches Some(name) && name@ == "PIPO "@ + channel_name
}

/// The channels after the channel of a webhook has been looked at: one of the bridge's own is
/// not posted through.
pub open spec fn webhook_checked(
    channels: Map<u64, registry::HandlerChannel>,
    webhook: WebhookInfo,
    reply: Reply,
) -> Map<u64, registry::HandlerChannel> {
    match reply {
        Reply::Channel(ChannelKind::Guild(name)) if is_own(webhook, name@) => channels.insert(
            webhook.channel,
            registry::HandlerChannel { webhook: None, ..channels[webhook.channel] },
        ),
        _ => channels,
    }
}

/// The channels from `at` on are next, and behind them the threads.
pub open spec fn checking_from(
    channels: Vec<u64>,
    at: int,
    threads: Vec<ThreadInfo>,
    before: Map<u64, u64>,
    step: StepView,
    now: Registry,
) -> bool {
    if at < channels@.len() {
        &&& step == inbound::asking(
            Query::Channel { channel: channels@[at] },
            TaskView::Guild(GuildTask::Checking { channels, at: at as usize, threads }),
        )
        &&& now.threads() == before
    } else {
        &&& step == inbound::stopped()
        &&& now.threads() == registry::threads_with(before, now.channels(), threads@)
    }
}

/// The webhooks from `at` on are next, and behind them the channels without one.
pub open spec fn naming_from(
    webhooks: Vec<WebhookInfo>,
    at: int,
    threads: Vec<ThreadInfo>,
    before: Map<u64, u64>,
    step: StepView,
    now: Registry,
) -> bool {
    let n = next_named(now.channels(), webhooks@, at);
    if n < webhooks@.len() {
        &&& step == inbound::asking(
            Query::Channel { channel: webhooks@[n].channel },
            TaskView::Guild(GuildTask::Naming { webhooks, at: n as usize, threads }),
        )
        &&& now.threads() == before
    } else {
        exists|channels: Vec<u64>|
            registry::is_unhooked(channels@, now.channels()) && #[trigger] checking_from(
                channels,
                0,
                threads,
                before,
                step,
                now,
            )
    }
}

/// One step in the handling of a guild.
pub open spec fn guild_step(
    task: GuildTask,
    reply: Reply,
    before: Registry,
    step: StepView,
    now: Registry,
) -> bool {
    match task {
        GuildTask::Webhooks { threads } => {
            &&& now.channels() == before.channels()
            &&& match reply {
                Reply::Webhooks(webhooks) => naming_from(webhooks, 0, threads, before.threads(), step, now),
                _ => step == inbound::stopped() && now.threads() == before.threads(),
            }
        },
        GuildTask::Naming { webhooks, at, threads } => {
            &&& now.channels() == webhook_checked(before.channels(), webhooks@[at as int], reply)
            &&& naming_from(webhooks, at + 1, threads, before.threads(), step, now)
        },
        GuildTask::Checking { channels, at, threads } => {
            &&& now.channels() == before.channels()
            &&& checking_from(channels, at + 1, threads, before.threads(), step, now)
        },
    }
}

impl GuildTask {
    /// The position is one in the list, and a webhook that is looked at belongs to a followed
    /// channel.
    pub open spec fn well_formed(self, registry: Registry) -> bool {
        match self {
            GuildTask::Webhooks { .. } => true,
            GuildTask::Naming { webhooks, at, .. } => at < webhooks@.len()
                && registry.channels().contains_key(webhooks@[at as int].channel),
            GuildTask::Checking { channels, at, .. } => at < channels@.len(),
        }
    }

    /// How far the handling has come: the stage, and the replies that it may still wait for.
    pub open spec fn left(self) -> (nat, nat) {
        match self {
            GuildTask::Webhooks { .. } => (2, 0),
            GuildTask::Naming { webhooks, at, .. } => (1, (webhooks@.len() - at) as nat),
            GuildTask::Checking { channels, at, .. } => (0, (channels@.len() - at) as nat),
        }
    }
}

fn name_from(
    registry: &mut Registry,
    webhooks: Vec<WebhookInfo>,
    at: usize,
    threads: Vec<ThreadInfo>,
) -> (step: Step)
    requires
        at <= webhooks@.len(),
        old(registry).well_formed(),
    ensures
        final(registry).channels() == old(registry).channels(),
        final(registry).well_formed(),
        naming_from(webhooks, at as int, threads, old(registry).threads(), step@, *final(registry)),
        step@.next matches Some((_, TaskView::Guild(task))) ==> task.well_formed(*final(registry)),
{
    let mut n: usize = at;
    while n < webhooks.len()
        invariant
            at <= n <= webhooks@.len(),
            next_named(registry.channels(), webhooks@, at as int) == next_named(
                registry.channels(),
                webhooks@,
                n as int,
            ),
            *registry == *old(registry),
            old(registry).well_formed(),
        decreases webhooks@.len() - n,
    {
        if registry.follows(webhooks[n].channel) && webhooks[n].name.is_some() {
            let channel = webhooks[n].channel;
            return Step::ask(
                Query::Channel { channel },
                Task::Guild(GuildTask::Naming { webhooks, at: n, threads }),
            );
        }
        n = n + 1;
    }
    let channels = registry.unhooked();
    check_from(registry, channels, 0, threads)
}

fn check_from(
    registry: &mut Registry,
    channels: Vec<u64>,
    at: usize,
    threads: Vec<ThreadInfo>,
) -> (step: Step)
    requires
        old(registry).well_formed(),
    ensures
        final(registry).channels() == old(registry).channels(),
        final(registry).well_formed(),
        checking_from(channels, at as int, threads, old(registry).threads(), step@, *final(registry)),
        step@.next matches Some((_, TaskView::Guild(task))) ==> task.well_formed(*final(registry)),
{
    if at < channels.len() {
        let channel = channels[at];
        Step::ask(
            Query::Channel { channel },
            Task::Guild(GuildTask::Checking { channels, at, threads }),
        )
    } else {
        registry.follow_threads(&threads);
        Step::stop()
    }
}

impl GuildTask {
    /// Goes on with a reply.
    pub fn resume(self, registry: &mut Registry, reply: Reply) -> (step: Step)
        requires
            old(registry).well_formed(),
            self.well_formed(*old(registry)),
        ensures
            guild_step(self, reply, *old(registry), step@, *final(registry)),
            final(registry).well_formed(),
            step@.next matches Some((_, TaskView::Guild(task))) ==> task.well_formed(
                *final(registry),
            ),
    {
        match self {
            GuildTask::Webhooks { threads } => match reply {
                Reply::Webhooks(webhooks) => name_from(registry, webhooks, 0, threads),
                _ => Step::stop(),
            },
            GuildTask::Naming { webhooks, at, threads } => {
                if let Reply::Channel(ChannelKind::Guild(channel_name)) = reply {
                    let mut own = "PIPO ".to_string();
                    own.append(channel_name.as_str());
                    let same = match &webhooks[at].name {
                        Some(name) => *name == own,
                        None => false,
                    };
                    if same {
                        registry.clear_webhook(webhooks[at].channel);
                    }
                }
                assert(webhooks@.len() == webhooks.len());
                name_from(registry, webhooks, at + 1, threads)
            },
            GuildTask::Checking { channels, at, threads } => {
                assert(channels@.len() == channels.len());
                check_from(registry, channels, at + 1, threads)
            },
        }
    }
}

/// A thread of a followed channel that has just been opened.
pub struct ThreadTask {
    pub id: u64,
    pub parent: u64,
}

impl ThreadTask {
    /// The thread belongs to a followed channel.
    pub open spec fn well_formed(self, registry: Registry) -> bool {
        registry.channels().contains_key(self.parent)
    }

    /// Goes on with a reply. The thread is followed whether or not it has got a webhook.
    pub fn resume(self, registry: &mut Registry, _reply: Reply) -> (step: Step)
        requires
            old(registry).well_formed(),
            self.well_formed(*old(registry)),
        ensures
            step@ == inbound::stopped(),
            final(registry).channels() == old(registry).channels(),
            final(registry).threads() == old(registry).threads().insert(self.id, self.parent),
            final(registry).well_formed(),
    {
        registry.follow_thread(self.id, self.parent);
        Step::stop()
    }
}

} // verus!
