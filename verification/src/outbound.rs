//! What relaying a message to Discord may ask for, and how the relaying goes on.

use crate::jobs::{Job, JobView};
use crate::text;
use crate::text::push_integer;
use vstd::prelude::*;

verus! {

/// An emoji of a guild's own.
#[derive(PartialEq, Eq, Debug)]
pub struct GuildEmoji {
    pub id: u64,
    pub name: String,
    pub animated: bool,
}

/// What to react with.
#[derive(PartialEq, Eq, Debug)]
pub enum ReactionType {
    Custom { animated: bool, id: u64, name: String },
    Unicode(String),
}

pub enum ReactionTypeView {
    Custom { animated: bool, id: u64, name: Seq<char> },
    Unicode(Seq<char>),
}

impl View for ReactionType {
    type V = ReactionTypeView;

    open spec fn view(&self) -> ReactionTypeView {
        match *self {
            ReactionType::Custom { animated, id, name } => ReactionTypeView::Custom {
                animated,
                id,
                name: name@,
            },
            ReactionType::Unicode(emoji) => ReactionTypeView::Unicode(emoji@),
        }
    }
}

/// Outside work that relaying a message asks for.
#[derive(PartialEq, Eq, Debug)]
pub enum Call {
    /// The Discord message that has an id of the bridge.
    DiscordId { pipo_id: i64 },
    /// The Discord message that goes with a message on Slack.
    DiscordIdOfSlack { slack_id: String },
    /// Remember the Discord message that has an id of the bridge.
    SetDiscordId { pipo_id: i64, message: u64 },
    /// Open a public thread on a message.
    CreateThread { channel: u64, message: u64, name: String, archive_minutes: u16 },
    /// The emojis of the bridge's guild.
    GuildEmojis,
    Webhook { webhook: u64 },
    Say { channel: u64, content: String },
    EditMessage { channel: u64, message: u64, content: String },
    DeleteMessage { channel: u64, message: u64 },
    FetchMessage { channel: u64, message: u64 },
    Reply { channel: u64, message: u64, content: String },
    Pin { channel: u64, message: u64 },
    Unpin { channel: u64, message: u64 },
    CreateReaction { channel: u64, message: u64, emoji: ReactionType },
    /// Take the bridge's own reaction back.
    DeleteReaction { channel: u64, message: u64, emoji: ReactionType },
    WebhookExecute {
        webhook: u64,
        content: String,
        username: String,
        avatar_url: Option<String>,
    },
    WebhookEdit { webhook: u64, message: u64, content: String },
    WebhookDelete { webhook: u64, message: u64 },
}

pub enum CallView {
    DiscordId { pipo_id: i64 },
    DiscordIdOfSlack { slack_id: Seq<char> },
    SetDiscordId { pipo_id: i64, message: u64 },
    CreateThread { channel: u64, message: u64, name: Seq<char>, archive_minutes: u16 },
    GuildEmojis,
    Webhook { webhook: u64 },
    Say { channel: u64, content: Seq<char> },
    EditMessage { channel: u64, message: u64, content: Seq<char> },
    DeleteMessage { channel: u64, message: u64 },
    FetchMessage { channel: u64, message: u64 },
    Reply { channel: u64, message: u64, content: Seq<char> },
    Pin { channel: u64, message: u64 },
    Unpin { channel: u64, message: u64 },
    CreateReaction { channel: u64, message: u64, emoji: ReactionTypeView },
    DeleteReaction { channel: u64, message: u64, emoji: ReactionTypeView },
    WebhookExecute {
        webhook: u64,
        content: Seq<char>,
        username: Seq<char>,
        avatar_url: Option<Seq<char>>,
    },
    WebhookEdit { webhook: u64, message: u64, content: Seq<char> },
    WebhookDelete { webhook: u64, message: u64 },
}

impl View for Call {
    type V = CallView;

    open spec fn view(&self) -> CallView {
        match *self {
            Call::DiscordId { pipo_id } => CallView::DiscordId { pipo_id },
            Call::DiscordIdOfSlack { slack_id } => CallView::DiscordIdOfSlack {
                slack_id: slack_id@,
            },
            Call::SetDiscordId { pipo_id, message } => CallView::SetDiscordId { pipo_id, message },
            Call::CreateThread { channel, message, name, archive_minutes } =>
            CallView::CreateThread { channel, message, name: name@, archive_minutes },
            Call::GuildEmojis => CallView::GuildEmojis,
            Call::Webhook { webhook } => CallView::Webhook { webhook },
            Call::Say { channel, content } => CallView::Say { channel, content: content@ },
            Call::EditMessage { channel, message, content } => CallView::EditMessage {
                channel,
                message,
                content: content@,
            },
            Call::DeleteMessage { channel, message } => CallView::DeleteMessage {
                channel,
                message,
            },
            Call::FetchMessage { channel, message } => CallView::FetchMessage { channel, message },
            Call::Reply { channel, message, content } => CallView::Reply {
                channel,
                message,
                content: content@,
            },
            Call::Pin { channel, message } => CallView::Pin { channel, message },
            Call::Unpin { channel, message } => CallView::Unpin { channel, message },
            Call::CreateReaction { channel, message, emoji } => CallView::CreateReaction {
                channel,
                message,
                emoji: emoji@,
            },
            Call::DeleteReaction { channel, message, emoji } => CallView::DeleteReaction {
                channel,
                message,
                emoji: emoji@,
            },
            Call::WebhookExecute { webhook, content, username, avatar_url } =>
            CallView::WebhookExecute {
                webhook,
                content: content@,
                username: username@,
                avatar_url: text::opt_text(avatar_url),
            },
            Call::WebhookEdit { webhook, message, content } => CallView::WebhookEdit {
                webhook,
                message,
                content: content@,
            },
            Call::WebhookDelete { webhook, message } => CallView::WebhookDelete {
                webhook,
                message,
            },
        }
    }
}

/// Why outside work failed: Discord's code for it, where Discord gave one, and a text.
#[derive(PartialEq, Eq, Debug)]
pub struct Failure {
    pub code: Option<i64>,
    pub message: String,
}

/// What the outside work brought.
#[derive(PartialEq, Eq, Debug)]
pub enum Response {
    Failed(Failure),
    /// The work is done, and brought nothing.
    Done,
    /// What was asked for exists.
    Found,
    /// The Discord message that was asked for, if one is known.
    DiscordId(Option<u64>),
    /// The thread that was opened.
    Thread(u64),
    Emojis(Vec<GuildEmoji>),
    /// The message that was posted or changed.
    Sent(u64),
}

/// Why a message was not relayed.
#[derive(PartialEq, Eq, Debug)]
pub enum BridgeError {
    /// Outside work failed, with this text.
    Outside(String),
    EmptyMessage,
    NoContents,
    /// No Discord message is known for an id of the bridge, so it cannot be changed.
    UnknownId(i64),
    NoMessage,
    UnknownEmoji,
    NoThread,
    /// The buses are closed.
    Closed,
}

/// An error in words.
pub open spec fn error_text(error: BridgeError) -> Seq<char> {
    match error {
        BridgeError::Outside(message) => message@,
        BridgeError::EmptyMessage => "Message is empty"@,
        BridgeError::NoContents => "Message has no contents"@,
        BridgeError::UnknownId(pipo_id) => "Could find discordid for id: "@ + text::integer_text(
            pipo_id as int,
        ),
        BridgeError::NoMessage => "No message for associated id"@,
        BridgeError::UnknownEmoji => "Couldn't find emoji"@,
        BridgeError::NoThread => "I don't know"@,
        BridgeError::Closed => "ups"@,
    }
}

impl BridgeError {
    /// The error in words.
    pub fn message(&self) -> (message: String)
        ensures
            message@ == error_text(*self),
    {
        match self {
            BridgeError::Outside(message) => message.clone(),
            BridgeError::EmptyMessage => "Message is empty".to_string(),
            BridgeError::NoContents => "Message has no contents".to_string(),
            BridgeError::UnknownId(pipo_id) => {
                let mut message = "Could find discordid for id: ".to_string();
                push_integer(&mut message, *pipo_id);
                message
            },
            BridgeError::NoMessage => "No message for associated id".to_string(),
            BridgeError::UnknownEmoji => "Couldn't find emoji".to_string(),
            BridgeError::NoThread => "I don't know".to_string(),
            BridgeError::Closed => "ups".to_string(),
        }
    }
}

/// How the relaying of a message goes on: it waits for outside work, or it is over.
pub enum Progress {
    Ask(Call, Job),
    Done(Result<(), BridgeError>),
}

pub enum ProgressView {
    Ask(CallView, JobView),
    Done(Result<(), BridgeError>),
}

impl View for Progress {
    type V = ProgressView;

    open spec fn view(&self) -> ProgressView {
        match *self {
            Progress::Ask(call, job) => ProgressView::Ask(call@, job@),
            Progress::Done(outcome) => ProgressView::Done(outcome),
        }
    }
}

} // verus!
