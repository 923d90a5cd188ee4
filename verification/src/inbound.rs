//! What Discord reports, what handling it may ask for, and how a handler answers.

use crate::changes::{DeleteTask, DeleteTaskView, GuildTask, PinsTask, ReactionTask, ThreadTask};
use crate::content::{Answer, ContentError, Lookup};
use crate::message::{Message, MessageView};
use crate::posts::{PostTask, PostTaskView};
use crate::registry::ThreadInfo;
use vstd::prelude::*;

verus! {

/// The name under which this transport's messages go.
pub const TRANSPORT_NAME: &'static str = "Discord";

/// A user, with the address of the picture, if there is one.
#[derive(PartialEq, Eq, Debug)]
pub struct User {
    pub name: String,
    pub avatar_url: Option<String>,
}

/// A user as a member of a guild.
#[derive(PartialEq, Eq, Debug)]
pub struct Member {
    pub nick: Option<String>,
    pub user: Option<User>,
}

#[derive(PartialEq, Eq, Debug)]
pub enum MessageKind {
    Regular,
    InlineReply,
    /// Joins, pins, and whatever else Discord reports as a message.
    Other,
}

/// A message that another one replies to.
#[derive(PartialEq, Eq, Debug)]
pub struct Referenced {
    pub id: u64,
    pub author: User,
    pub member: Option<Member>,
}

/// A new message. Attachments are given by their addresses.
#[derive(PartialEq, Eq, Debug)]
pub struct NewMessage {
    pub id: u64,
    pub channel: u64,
    pub guild: Option<u64>,
    pub author: User,
    pub bot: bool,
    pub kind: MessageKind,
    pub content: String,
    pub attachments: Vec<String>,
    pub reply: Option<Referenced>,
}

/// A changed message. What Discord leaves out is missing.
#[derive(PartialEq, Eq, Debug)]
pub struct MessageEdit {
    pub id: u64,
    pub channel: u64,
    pub guild: Option<u64>,
    /// The author, and whether it is a bot.
    pub author: Option<(User, bool)>,
    pub content: Option<String>,
    pub attachments: Option<Vec<String>>,
}

#[derive(PartialEq, Eq, Debug)]
pub enum ReactionEmoji {
    /// An emoji of the guild's own, which may have lost its name.
    Custom(Option<String>),
    Unicode(String),
    Other,
}

#[derive(PartialEq, Eq, Debug)]
pub struct ReactionEvent {
    pub user: Option<u64>,
    pub channel: u64,
    pub message: u64,
    pub member: Option<Member>,
    pub emoji: ReactionEmoji,
}

#[derive(PartialEq, Eq, Debug)]
pub struct NewThread {
    pub id: u64,
    pub parent: Option<u64>,
    pub name: String,
}

#[derive(PartialEq, Eq, Debug)]
pub struct NewGuild {
    pub id: u64,
    pub threads: Vec<ThreadInfo>,
}

/// A guild as it is reported when the connection is ready.
#[derive(PartialEq, Eq, Debug)]
pub enum GuildStatus {
    Online(Vec<ThreadInfo>),
    Other,
}

#[derive(PartialEq, Eq, Debug)]
pub struct WebhookInfo {
    pub channel: u64,
    pub name: Option<String>,
}

/// A channel as far as handling an event depends on it.
#[derive(PartialEq, Eq, Debug)]
pub enum ChannelKind {
    /// A channel of a guild, and its name.
    Guild(String),
    Other,
}

/// Outside work that handling an event asks for.
#[derive(PartialEq, Eq, Debug)]
pub enum Query {
    /// The bridge's own user.
    CurrentUser,
    Channel { channel: u64 },
    /// The pinned messages of a channel.
    Pins { channel: u64 },
    /// The webhooks of a guild.
    Webhooks { guild: u64 },
    CreateWebhook { channel: u64, name: String },
    /// Give a message the next id of the bridge.
    InsertMessage { message: u64 },
    /// The id that the bridge has given a message.
    PipoId { message: u64 },
    Message { channel: u64, message: u64 },
    Lookup(Lookup),
}

/// What the outside work brought. A reply of another kind than the query counts as a failed one.
#[derive(PartialEq, Eq, Debug)]
pub enum Reply {
    Failed,
    CurrentUser(u64),
    Channel(ChannelKind),
    Pins(Vec<u64>),
    Webhooks(Vec<WebhookInfo>),
    WebhookCreated,
    PipoId(i64),
    /// When a message was written, in seconds since 1970, by whom, and what it says.
    Message { secs: i64, author: String, content: String },
    Lookup(Answer),
}

/// A message to put on a bus.
#[derive(PartialEq, Eq, Debug)]
pub struct Outgoing {
    pub bus: String,
    pub message: Message,
}

/// An event whose handling waits for a reply.
pub enum Task {
    Post(PostTask),
    Delete(DeleteTask),
    Reaction(ReactionTask),
    Pins(PinsTask),
    Guild(GuildTask),
    Thread(ThreadTask),
}

pub enum TaskView {
    Post(PostTaskView),
    Delete(DeleteTaskView),
    Reaction(ReactionTask),
    Pins(PinsTask),
    Guild(GuildTask),
    Thread(ThreadTask),
}

impl View for Task {
    type V = TaskView;

    open spec fn view(&self) -> TaskView {
        match *self {
            Task::Post(t) => TaskView::Post(t@),
            Task::Delete(t) => TaskView::Delete(t@),
            Task::Reaction(t) => TaskView::Reaction(t),
            Task::Pins(t) => TaskView::Pins(t),
            Task::Guild(t) => TaskView::Guild(t),
            Task::Thread(t) => TaskView::Thread(t),
        }
    }
}

/// One step in the handling of an event: first a message may be sent, then outside work may be
/// asked for. Where none is asked for, the event has been handled. `unread` says why a content
/// could not be read, in the step that finds it out.
pub struct Step {
    pub unread: Option<ContentError>,
    pub send: Option<Outgoing>,
    pub next: Option<(Query, Task)>,
}

pub struct StepView {
    pub unread: Option<ContentError>,
    pub send: Option<(String, MessageView)>,
    pub next: Option<(Query, TaskView)>,
}

impl View for Step {
    type V = StepView;

    open spec fn view(&self) -> StepView {
        StepView {
            unread: self.unread,
            send: match self.send {
                Some(out) => Some((out.bus, out.message@)),
                None => None,
            },
            next: match self.next {
                Some((query, task)) => Some((query, task@)),
                None => None,
            },
        }
    }
}

/// The event has been handled.
pub open spec fn stopped() -> StepView {
    StepView { unread: None, send: None, next: None }
}

/// The event waits for a reply.
pub open spec fn asking(query: Query, task: TaskView) -> StepView {
    StepView { unread: None, send: None, next: Some((query, task)) }
}

/// The event has been handled with one last message.
pub open spec fn sending(bus: String, message: MessageView) -> StepView {
    StepView { unread: None, send: Some((bus, message)), next: None }
}

impl Step {
    pub fn stop() -> (step: Step)
        ensures
            step@ == stopped(),
    {
        Step { unread: None, send: None, next: None }
    }

    pub fn ask(query: Query, task: Task) -> (step: Step)
        ensures
            step@ == asking(query, task@),
    {
        Step { unread: None, send: None, next: Some((query, task)) }
    }

    pub fn send(bus: String, message: Message) -> (step: Step)
        ensures
            step@ == sending(bus, message@),
    {
        Step { unread: None, send: Some(Outgoing { bus, message }), next: None }
    }
}

} // verus!
