//! The relaying of a message to Discord, step by step.

use crate::message::Attachment;
use crate::outbound::{
    BridgeError, Call, CallView, Failure, GuildEmoji, Progress, ProgressView, ReactionType,
    ReactionTypeView, Response,
};
use crate::outside;
use crate::outside::{push_bold, push_line, push_quote_line_safe};
use crate::registry::Registry;
use crate::text;
use vstd::hash_map::StringHashMap;
use vstd::prelude::*;
use vstd::utf8;

verus! {

/// The longest name that a thread is given, in bytes.
pub const THREAD_NAME_BYTES: usize = 200;

/// After how many minutes without a message a thread is put away.
pub const THREAD_ARCHIVE_MINUTES: u16 = 1440;

/// Discord's code for a message that has a thread already.
pub const THREAD_EXISTS: i64 = 160004;

/// A text to relay into a channel.
#[derive(PartialEq, Eq, Debug)]
pub struct TextMessage {
    pub channel: u64,
    pub pipo_id: i64,
    pub transport: String,
    pub username: String,
    pub avatar_url: Option<String>,
    pub message: Option<String>,
    pub attachments: Option<Vec<Attachment>>,
    pub is_edit: bool,
}

/// What a text waits for. Its channel becomes its thread's once that is known.
#[derive(PartialEq, Eq, Debug)]
pub enum TextStage {
    /// The message that its thread hangs on.
    SlackId,
    /// Its thread, which was not known and is being opened on a message.
    Thread { message: u64 },
    /// The id of the message that one of its attachments stands for.
    AttachedId { content: String, at: usize },
    /// That message.
    AttachedMessage { content: String, at: usize, message: u64 },
    /// The message to change.
    EditId { content: String },
    /// The webhook to change it through.
    EditHook { content: String, message: u64, webhook: u64 },
    /// The change through the webhook.
    EditByHook { content: String, message: u64 },
    /// The webhook to post through.
    PostHook { content: String, webhook: u64 },
    /// The post through the webhook.
    PostByHook { content: String },
}

pub enum TextStageView {
    SlackId,
    Thread { message: u64 },
    AttachedId { content: Seq<char>, at: usize },
    AttachedMessage { content: Seq<char>, at: usize, message: u64 },
    EditId { content: Seq<char> },
    EditHook { content: Seq<char>, message: u64, webhook: u64 },
    EditByHook { content: Seq<char>, message: u64 },
    PostHook { content: Seq<char>, webhook: u64 },
    PostByHook { content: Seq<char> },
}

impl View for TextStage {
    type V = TextStageView;

    open spec fn view(&self) -> TextStageView {
        match *self {
            TextStage::SlackId => TextStageView::SlackId,
            TextStage::Thread { message } => TextStageView::Thread { message },
            TextStage::AttachedId { content, at } => TextStageView::AttachedId {
                content: content@,
                at,
            },
            TextStage::AttachedMessage { content, at, message } => TextStageView::AttachedMessage {
                content: content@,
                at,
                message,
            },
            TextStage::EditId { content } => TextStageView::EditId { content: content@ },
            TextStage::EditHook { content, message, webhook } => TextStageView::EditHook {
                content: content@,
                message,
                webhook,
            },
            TextStage::EditByHook { content, message } => TextStageView::EditByHook {
                content: content@,
                message,
            },
            TextStage::PostHook { content, webhook } => TextStageView::PostHook {
                content: content@,
                webhook,
            },
            TextStage::PostByHook { content } => TextStageView::PostByHook { content: content@ },
        }
    }
}

/// A message whose relaying waits for outside work.
#[derive(PartialEq, Eq, Debug)]
pub enum Job {
    /// The last piece of work.
    Last,
    /// A message is being posted that will have an id of the bridge.
    Posted { pipo_id: i64 },
    /// The message that an action is to replace.
    ActionId { channel: u64, pipo_id: i64, content: String },
    /// The message to delete.
    DeleteId { channel: u64 },
    /// The webhook to delete it through.
    DeleteHook { channel: u64, message: u64, webhook: u64 },
    /// The message to pin or to unpin.
    PinId { channel: u64, remove: bool },
    /// The guild's emojis, to find one among them.
    ReactionEmojis { channel: u64, pipo_id: i64, emoji: String, remove: bool },
    /// The message to react to.
    ReactionId { channel: u64, emoji: ReactionType, remove: bool },
    Text { text: TextMessage, stage: TextStage },
}

pub enum JobView {
    Last,
    Posted { pipo_id: i64 },
    ActionId { channel: u64, pipo_id: i64, content: Seq<char> },
    DeleteId { channel: u64 },
    DeleteHook { channel: u64, message: u64, webhook: u64 },
    PinId { channel: u64, remove: bool },
    ReactionEmojis { channel: u64, pipo_id: i64, emoji: Seq<char>, remove: bool },
    ReactionId { channel: u64, emoji: ReactionTypeView, remove: bool },
    Text { text: TextMessage, stage: TextStageView },
}

impl View for Job {
    type V = JobView;

    open spec fn view(&self) -> JobView {
        match *self {
            Job::Last => JobView::Last,
            Job::Posted { pipo_id } => JobView::Posted { pipo_id },
            Job::ActionId { channel, pipo_id, content } => JobView::ActionId {
                channel,
                pipo_id,
                content: content@,
            },
            Job::DeleteId { channel } => JobView::DeleteId { channel },
            Job::DeleteHook { channel, message, webhook } => JobView::DeleteHook {
                channel,
                message,
                webhook,
            },
            Job::PinId { channel, remove } => JobView::PinId { channel, remove },
            Job::ReactionEmojis { channel, pipo_id, emoji, remove } => JobView::ReactionEmojis {
                channel,
                pipo_id,
                emoji: emoji@,
                remove,
            },
            Job::ReactionId { channel, emoji, remove } => JobView::ReactionId {
                channel,
                emoji: emoji@,
                remove,
            },
            Job::Text { text, stage } => JobView::Text { text, stage: stage@ },
        }
    }
}

/// The line that says who speaks, where Discord cannot show it.
pub open spec fn heading(username: Seq<char>, transport: Seq<char>) -> Seq<char> {
    "**"@ + username + "**"@ + (" ["@ + transport + "]"@) + "\n"@
}

/// A content under its heading.
pub open spec fn headed(text: TextMessage, content: Seq<char>) -> Seq<char> {
    heading(text.username@, text.transport@) + content + "\n"@
}

/// The name under which a webhook speaks for a user.
pub open spec fn hook_name(text: TextMessage) -> Seq<char> {
    text.username@ + " ("@ + text.transport@ + ")"@
}

/// The action as it is shown on Discord.
pub open spec fn action_content(
    username: Seq<char>,
    transport: Seq<char>,
    message: Seq<char>,
) -> Seq<char> {
    heading(username, transport) + "_"@ + message + "_"@
}

/// The name of a thread that is opened for a message: the message itself, cut where it is too
/// long, and with an exclamation mark where it is too short.
pub open spec fn thread_name(message: Option<String>) -> Seq<char> {
    match message {
        None => "New Thread"@,
        Some(s) => {
            let bytes = utf8::encode_utf8(s@);
            if bytes.len() < 2 {
                s@ + "!"@
            } else if bytes.len() <= THREAD_NAME_BYTES {
                s@
            } else {
                utf8::decode_utf8(bytes.subrange(0, THREAD_NAME_BYTES as int))
            }
        },
    }
}

/// Whether a thread can be named after a message: the name must not end within a character.
pub open spec fn can_name(message: Option<String>) -> bool {
    match message {
        None => true,
        Some(s) => {
            let bytes = utf8::encode_utf8(s@);
            bytes.len() <= THREAD_NAME_BYTES || utf8::is_char_boundary(
                bytes,
                THREAD_NAME_BYTES as int,
            )
        },
    }
}

/// The emojis of a list by their names. Of two under one name the later counts.
pub open spec fn emojis_by_name(list: Seq<GuildEmoji>) -> Map<Seq<char>, GuildEmoji>
    decreases list.len(),
{
    if list.len() == 0 {
        Map::empty()
    } else {
        emojis_by_name(list.drop_last()).insert(list.last().name@, list.last())
    }
}

/// The emojis that are known after a response.
pub open spec fn emojis_after(
    known: Map<Seq<char>, GuildEmoji>,
    job: JobView,
    response: Response,
) -> Map<Seq<char>, GuildEmoji> {
    match (job, response) {
        (JobView::ReactionEmojis { .. }, Response::Emojis(list)) => emojis_by_name(list@),
        _ => known,
    }
}

pub open spec fn reaction_with(emoji: GuildEmoji) -> ReactionTypeView {
    ReactionTypeView::Custom { animated: emoji.animated, id: emoji.id, name: emoji.name@ }
}

/// The outside work failed, and nothing can be done about it.
pub open spec fn failed(failure: Failure) -> ProgressView {
    ProgressView::Done(Err(BridgeError::Outside(failure.message)))
}

/// A text without a webhook is posted with a heading.
pub open spec fn posted_plainly(text: TextMessage, content: Seq<char>) -> ProgressView {
    ProgressView::Ask(
        CallView::Say { channel: text.channel, content: headed(text, content) },
        JobView::Posted { pipo_id: text.pipo_id },
    )
}

/// A text without a webhook is changed to one with a heading.
pub open spec fn edited_plainly(
    text: TextMessage,
    content: Seq<char>,
    message: u64,
) -> ProgressView {
    ProgressView::Ask(
        CallView::EditMessage { channel: text.channel, message, content: headed(text, content) },
        JobView::Last,
    )
}

/// The content is complete.
pub open spec fn delivered(
    registry: Registry,
    text: TextMessage,
    content: Seq<char>,
) -> ProgressView {
    if text.is_edit {
        ProgressView::Ask(
            CallView::DiscordId { pipo_id: text.pipo_id },
            JobView::Text { text, stage: TextStageView::EditId { content } },
        )
    } else {
        match registry.webhook(text.channel) {
            Some(webhook) => ProgressView::Ask(
                CallView::Webhook { webhook },
                JobView::Text { text, stage: TextStageView::PostHook { content, webhook } },
            ),
            None => posted_plainly(text, content),
        }
    }
}

/// The content with what is shown of an attachment that cannot be replied to.
pub open spec fn with_fallback(content: Seq<char>, attachment: Attachment) -> Seq<char> {
    match attachment.fallback {
        Some(fallback) => content + "> "@ + outside::quote_safe(fallback@) + "\n"@,
        None => content,
    }
}

/// The attachments from one on are dealt with in turn. Only those that stand for a message of
/// the bridge count.
pub open spec fn attached_from(
    registry: Registry,
    text: TextMessage,
    content: Seq<char>,
    at: int,
) -> ProgressView
    decreases
            match text.attachments {
                Some(list) => list@.len() - at,
                None => 0,
            },
{
    match text.attachments {
        Some(list) if 0 <= at < list@.len() => match list@[at].pipo_id {
            Some(pipo_id) => ProgressView::Ask(
                CallView::DiscordId { pipo_id },
                JobView::Text { text, stage: TextStageView::AttachedId { content, at: at as usize } },
            ),
            None => attached_from(registry, text, content, at + 1),
        },
        _ => delivered(registry, text, content),
    }
}

/// What a text says itself.
pub open spec fn text_content(text: TextMessage) -> Seq<char> {
    match text.message {
        Some(message) => message@ + "\n"@,
        None => if text.attachments is Some {
            "Attachment:"@ + "\n"@
        } else {
            Seq::empty()
        },
    }
}

/// The channel that a text goes to is known.
pub open spec fn text_in(registry: Registry, text: TextMessage, channel: u64) -> ProgressView {
    let text = TextMessage { channel, ..text };
    attached_from(registry, text, text_content(text), 0)
}

/// A text is to be relayed, into the thread of a message on Slack where one is given.
pub open spec fn text_started(
    registry: Registry,
    text: TextMessage,
    thread: Option<(Option<String>, Option<u64>)>,
) -> ProgressView {
    if text.message is None && text.attachments is None {
        ProgressView::Done(Err(BridgeError::NoContents))
    } else {
        match thread {
            Some((Some(slack_id), _)) => ProgressView::Ask(
                CallView::DiscordIdOfSlack { slack_id: slack_id@ },
                JobView::Text { text, stage: TextStageView::SlackId },
            ),
            _ => text_in(registry, text, text.channel),
        }
    }
}

/// The next step of a text.
pub open spec fn text_resumed(
    registry: Registry,
    text: TextMessage,
    stage: TextStageView,
    response: Response,
) -> ProgressView {
    match (stage, response) {
        (TextStageView::SlackId, Response::Failed(failure)) => failed(failure),
        (TextStageView::SlackId, Response::DiscordId(Some(id))) => if registry.threads().contains_key(
            id,
        ) {
            text_in(registry, text, id)
        } else {
            ProgressView::Ask(
                CallView::CreateThread {
                    channel: text.channel,
                    message: id,
                    name: thread_name(text.message),
                    archive_minutes: THREAD_ARCHIVE_MINUTES,
                },
                JobView::Text { text, stage: TextStageView::Thread { message: id } },
            )
        },
        (TextStageView::SlackId, _) => text_in(registry, text, text.channel),
        (TextStageView::Thread { .. }, Response::Thread(thread)) => text_in(registry, text, thread),
        (TextStageView::Thread { message }, Response::Failed(failure)) => if failure.code == Some(
            THREAD_EXISTS,
        ) {
            text_in(registry, text, message)
        } else {
            ProgressView::Done(Err(BridgeError::NoThread))
        },
        (
            TextStageView::AttachedId { content, at },
            Response::DiscordId(Some(message)),
        ) => ProgressView::Ask(
            CallView::FetchMessage { channel: text.channel, message },
            JobView::Text { text, stage: TextStageView::AttachedMessage { content, at, message } },
        ),
        (TextStageView::AttachedId { content, at }, _) => attached_from(
            registry,
            text,
            with_fallback(content, text.attachments->0@[at as int]),
            at + 1,
        ),
        (
            TextStageView::AttachedMessage { content, at, message },
            Response::Found,
        ) => ProgressView::Ask(
            CallView::Reply { channel: text.channel, message, content },
            JobView::Posted { pipo_id: text.attachments->0@[at as int].pipo_id->0 },
        ),
        (TextStageView::AttachedMessage { content, at, .. }, _) => attached_from(
            registry,
            text,
            with_fallback(content, text.attachments->0@[at as int]),
            at + 1,
        ),
        (TextStageView::EditId { .. }, Response::Failed(failure)) => failed(failure),
        (
            TextStageView::EditId { content },
            Response::DiscordId(Some(message)),
        ) => match registry.webhook(text.channel) {
            Some(webhook) => ProgressView::Ask(
                CallView::Webhook { webhook },
                JobView::Text {
                    text,
                    stage: TextStageView::EditHook { content, message, webhook },
                },
            ),
            None => edited_plainly(text, content, message),
        },
        (TextStageView::EditId { .. }, _) => ProgressView::Done(
            Err(BridgeError::UnknownId(text.pipo_id)),
        ),
        (
            TextStageView::EditHook { content, message, webhook },
            Response::Found,
        ) => ProgressView::Ask(
            CallView::WebhookEdit { webhook, message, content },
            JobView::Text { text, stage: TextStageView::EditByHook { content, message } },
        ),
        (TextStageView::EditHook { content, message, .. }, _) => edited_plainly(
            text,
            content,
            message,
        ),
        (TextStageView::EditByHook { .. }, Response::Sent(message)) => ProgressView::Ask(
            CallView::SetDiscordId { pipo_id: text.pipo_id, message },
            JobView::Last,
        ),
        (TextStageView::EditByHook { content, message }, _) => edited_plainly(
            text,
            content,
            message,
        ),
        (TextStageView::PostHook { content, webhook }, Response::Found) => ProgressView::Ask(
            CallView::WebhookExecute {
                webhook,
                content,
                username: hook_name(text),
                avatar_url: text::opt_text(text.avatar_url),
            },
            JobView::Text { text, stage: TextStageView::PostByHook { content } },
        ),
        (TextStageView::PostHook { content, .. }, _) => posted_plainly(text, content),
        (TextStageView::PostByHook { .. }, Response::Sent(message)) => ProgressView::Ask(
            CallView::SetDiscordId { pipo_id: text.pipo_id, message },
            JobView::Last,
        ),
        (TextStageView::PostByHook { content }, _) => posted_plainly(text, content),
        (TextStageView::Thread { .. }, _) => ProgressView::Done(Err(BridgeError::NoThread)),
    }
}

/// The emoji to react with is known.
pub open spec fn reacting(
    channel: u64,
    pipo_id: i64,
    emoji: ReactionTypeView,
    remove: bool,
) -> ProgressView {
    ProgressView::Ask(
        CallView::DiscordId { pipo_id },
        JobView::ReactionId { channel, emoji, remove },
    )
}

/// The next step of a job, where `emojis` are the emojis that are known.
pub open spec fn job_resumed(
    registry: Registry,
    emojis: Map<Seq<char>, GuildEmoji>,
    job: JobView,
    response: Response,
) -> ProgressView {
    match (job, response) {
        (JobView::Text { text, stage }, response) => text_resumed(registry, text, stage, response),
        (JobView::DeleteHook { webhook, message, .. }, Response::Found) => ProgressView::Ask(
            CallView::WebhookDelete { webhook, message },
            JobView::Last,
        ),
        (JobView::DeleteHook { channel, message, .. }, _) => ProgressView::Ask(
            CallView::DeleteMessage { channel, message },
            JobView::Last,
        ),
        (_, Response::Failed(failure)) => failed(failure),
        (JobView::Last, _) => ProgressView::Done(Ok(())),
        (JobView::Posted { pipo_id }, Response::Sent(message)) => ProgressView::Ask(
            CallView::SetDiscordId { pipo_id, message },
            JobView::Last,
        ),
        (
            JobView::ActionId { channel, content, .. },
            Response::DiscordId(Some(message)),
        ) => ProgressView::Ask(
            CallView::EditMessage { channel, message, content },
            JobView::Last,
        ),
        (JobView::ActionId { pipo_id, .. }, _) => ProgressView::Done(
            Err(BridgeError::UnknownId(pipo_id)),
        ),
        (
            JobView::DeleteId { channel },
            Response::DiscordId(Some(message)),
        ) => match registry.webhook(channel) {
            Some(webhook) => ProgressView::Ask(
                CallView::Webhook { webhook },
                JobView::DeleteHook { channel, message, webhook },
            ),
            None => ProgressView::Ask(
                CallView::DeleteMessage { channel, message },
                JobView::Last,
            ),
        },
        (JobView::PinId { channel, remove }, Response::DiscordId(Some(message))) => ProgressView::Ask(
            if remove {
                CallView::Unpin { channel, message }
            } else {
                CallView::Pin { channel, message }
            },
            JobView::Last,
        ),
        (
            JobView::ReactionEmojis { channel, pipo_id, emoji, remove },
            Response::Emojis(_),
        ) => if emojis.contains_key(emoji) {
            reacting(channel, pipo_id, reaction_with(emojis[emoji]), remove)
        } else {
            ProgressView::Done(Err(BridgeError::UnknownEmoji))
        },
        (
            JobView::ReactionId { channel, emoji, remove },
            Response::DiscordId(Some(message)),
        ) => ProgressView::Ask(
            if remove {
                CallView::DeleteReaction { channel, message, emoji }
            } else {
                CallView::CreateReaction { channel, message, emoji }
            },
            JobView::Last,
        ),
        _ => ProgressView::Done(Err(BridgeError::NoMessage)),
    }
}

impl TextStageView {
    /// The attachment that a text deals with is one of its own, and stands for a message of the
    /// bridge.
    pub open spec fn well_formed(self, text: TextMessage) -> bool {
        match self {
            TextStageView::AttachedId { at, .. } => text.attachments matches Some(list) && at
                < list@.len() && list@[at as int].pipo_id is Some,
            TextStageView::AttachedMessage { at, .. } => text.attachments matches Some(list) && at
                < list@.len() && list@[at as int].pipo_id is Some,
            _ => true,
        }
    }

    /// Whether a response is one to what the text waits for. A thread can be opened only where
    /// it can be named.
    pub open spec fn accepts(self, text: TextMessage, registry: Registry, response: Response) -> bool {
        match self {
            TextStageView::SlackId => match response {
                Response::DiscordId(Some(id)) => registry.threads().contains_key(id) || can_name(
                    text.message,
                ),
                Response::DiscordId(None) => true,
                response => response is Failed,
            },
            TextStageView::Thread { .. } => response is Thread || response is Failed,
            TextStageView::AttachedId { .. } => response is DiscordId || response is Failed,
            TextStageView::AttachedMessage { .. } => response is Found || response is Failed,
            TextStageView::EditId { .. } => response is DiscordId || response is Failed,
            TextStageView::EditHook { .. } => response is Found || response is Failed,
            TextStageView::EditByHook { .. } => response is Sent || response is Failed,
            TextStageView::PostHook { .. } => response is Found || response is Failed,
            TextStageView::PostByHook { .. } => response is Sent || response is Failed,
        }
    }

    /// A bound on the outside work that the text may still ask for, that which it waits for
    /// included.
    pub open spec fn calls_left(self, text: TextMessage) -> int {
        let attached = match text.attachments {
            Some(list) => list@.len() as int,
            None => 0,
        };
        match self {
            TextStageView::SlackId => 2 * attached + 6,
            TextStageView::Thread { .. } => 2 * attached + 5,
            TextStageView::AttachedId { at, .. } => 2 * (attached - at) + 4,
            TextStageView::AttachedMessage { at, .. } => 2 * (attached - at) + 3,
            TextStageView::EditId { .. } => 4,
            TextStageView::EditHook { .. } => 3,
            TextStageView::EditByHook { .. } => 2,
            TextStageView::PostHook { .. } => 4,
            TextStageView::PostByHook { .. } => 3,
        }
    }
}

impl JobView {
    pub open spec fn well_formed(self) -> bool {
        self matches JobView::Text { text, stage } ==> stage.well_formed(text)
    }

    /// Whether a response is one to what the job waits for.
    pub open spec fn accepts(self, registry: Registry, response: Response) -> bool {
        match self {
            JobView::Last => response is Done || response is Failed,
            JobView::Posted { .. } => response is Sent || response is Failed,
            JobView::ActionId { .. } => response is DiscordId || response is Failed,
            JobView::DeleteId { .. } => response is DiscordId || response is Failed,
            JobView::DeleteHook { .. } => response is Found || response is Failed,
            JobView::PinId { .. } => response is DiscordId || response is Failed,
            JobView::ReactionEmojis { .. } => response is Emojis || response is Failed,
            JobView::ReactionId { .. } => response is DiscordId || response is Failed,
            JobView::Text { text, stage } => stage.accepts(text, registry, response),
        }
    }

    /// A bound on the outside work that the job may still ask for, that which it waits for
    /// included.
    pub open spec fn calls_left(self) -> int {
        match self {
            JobView::Last => 1,
            JobView::Posted { .. } => 2,
            JobView::ActionId { .. } => 2,
            JobView::DeleteId { .. } => 3,
            JobView::DeleteHook { .. } => 2,
            JobView::PinId { .. } => 2,
            JobView::ReactionEmojis { .. } => 3,
            JobView::ReactionId { .. } => 2,
            JobView::Text { text, stage } => stage.calls_left(text),
        }
    }
}

/// What is left to be done is well formed, and less than a bound.
pub open spec fn proceeds(progress: ProgressView, bound: int) -> bool {
    progress matches ProgressView::Ask(_, job) ==> job.well_formed() && 0 < job.calls_left()
        < bound
}

/// A text that deals with its attachments from one on asks for no more than is left.
pub proof fn lemma_attached_proceeds(
    registry: Registry,
    text: TextMessage,
    content: Seq<char>,
    at: int,
)
    requires
        text.attachments matches Some(list) ==> 0 <= at <= list@.len() <= usize::MAX,
    ensures
        text.attachments matches Some(list) ==> proceeds(
            attached_from(registry, text, content, at),
            2 * (list@.len() - at) + 5,
        ),
        text.attachments is None ==> proceeds(attached_from(registry, text, content, at), 5),
    decreases
            match text.attachments {
                Some(list) => list@.len() - at,
                None => 0,
            },
{
    match text.attachments {
        Some(list) => {
            if at < list@.len() && list@[at].pipo_id is None {
                lemma_attached_proceeds(registry, text, content, at + 1);
            }
        },
        None => {},
    }
}

pub(crate) fn head(username: &str, transport: &str) -> (line: String)
    ensures
        line@ == heading(username@, transport@),
{
    let bold = push_bold(String::new(), username);
    let mut tag = " [".to_string();
    tag.append(transport);
    tag.append("]");
    let line = push_line(bold, tag.as_str());
    assert(line@ =~= heading(username@, transport@));
    line
}

fn head_content(text: &TextMessage, content: &str) -> (whole: String)
    ensures
        whole@ == headed(*text, content@),
{
    push_line(head(text.username.as_str(), text.transport.as_str()), content)
}

/// The name of a thread that is opened for a message.
fn name_thread(message: &Option<String>) -> (name: String)
    requires
        can_name(*message),
    ensures
        name@ == thread_name(*message),
{
    match message {
        None => "New Thread".to_string(),
        Some(s) => {
            let length = s.as_str().as_bytes().len();
            if length < 2 {
                let mut name = s.clone();
                name.append("!");
                name
            } else if length <= THREAD_NAME_BYTES {
                s.clone()
            } else {
                let (name, _) = s.as_str().split_at(THREAD_NAME_BYTES);
                proof {
                    utf8::encode_utf8_decode_utf8(name@);
                }
                name.to_owned()
            }
        },
    }
}

fn can_name_thread(message: &Option<String>) -> (possible: bool)
    ensures
        possible == can_name(*message),
{
    match message {
        None => true,
        Some(s) => {
            let length = s.as_str().as_bytes().len();
            length <= THREAD_NAME_BYTES || s.as_str().is_char_boundary(THREAD_NAME_BYTES)
        },
    }
}

/// The emojis of a list by their names.
fn by_name(list: &Vec<GuildEmoji>) -> (emojis: StringHashMap<GuildEmoji>)
    ensures
        emojis@ == emojis_by_name(list@),
{
    let mut emojis: StringHashMap<GuildEmoji> = StringHashMap::new();
    let mut i: usize = 0;
    assert(list@.take(0) =~= Seq::<GuildEmoji>::empty());
    while i < list.len()
        invariant
            i <= list@.len(),
            emojis@ == emojis_by_name(list@.take(i as int)),
        decreases list@.len() - i,
    {
        assert(list@.take(i + 1).drop_last() =~= list@.take(i as int));
        let emoji = &list[i];
        emojis.insert(
            emoji.name.clone(),
            GuildEmoji { id: emoji.id, name: emoji.name.clone(), animated: emoji.animated },
        );
        i = i + 1;
    }
    assert(list@.take(i as int) =~= list@);
    emojis
}

/// The emoji of the guild's own that is known under a name.
pub fn find_emoji(emojis: &StringHashMap<GuildEmoji>, name: &str) -> (found: Option<ReactionType>)
    ensures
        match found {
            Some(emoji) => emojis@.contains_key(name@) && emoji@ == reaction_with(emojis@[name@]),
            None => !emojis@.contains_key(name@),
        },
{
    match emojis.get(name) {
        Some(emoji) => Some(
            ReactionType::Custom {
                animated: emoji.animated,
                id: emoji.id,
                name: emoji.name.clone(),
            },
        ),
        None => None,
    }
}

fn post_plainly(text: TextMessage, content: String) -> (progress: Progress)
    ensures
        progress@ == posted_plainly(text, content@),
{
    let whole = head_content(&text, content.as_str());
    Progress::Ask(
        Call::Say { channel: text.channel, content: whole },
        Job::Posted { pipo_id: text.pipo_id },
    )
}

fn edit_plainly(text: TextMessage, content: String, message: u64) -> (progress: Progress)
    ensures
        progress@ == edited_plainly(text, content@, message),
{
    let whole = head_content(&text, content.as_str());
    Progress::Ask(Call::EditMessage { channel: text.channel, message, content: whole }, Job::Last)
}

fn deliver(registry: &Registry, text: TextMessage, content: String) -> (progress: Progress)
    ensures
        progress@ == delivered(*registry, text, content@),
{
    if text.is_edit {
        return Progress::Ask(
            Call::DiscordId { pipo_id: text.pipo_id },
            Job::Text { text, stage: TextStage::EditId { content } },
        );
    }
    match registry.webhook_of(text.channel) {
        Some(webhook) => Progress::Ask(
            Call::Webhook { webhook },
            Job::Text { text, stage: TextStage::PostHook { content, webhook } },
        ),
        None => post_plainly(text, content),
    }
}

/// Deals with the attachments of a text from one on, behind what it says so far.
pub fn attach_from(
    registry: &Registry,
    text: TextMessage,
    content: String,
    from: usize,
) -> (progress: Progress)
    requires
        text.attachments matches Some(list) ==> from <= list@.len(),
    ensures
        progress@ == attached_from(*registry, text, content@, from as int),
        text.attachments matches Some(list) ==> proceeds(
            progress@,
            2 * (list@.len() - from) + 5,
        ),
        text.attachments is None ==> proceeds(progress@, 5),
{
    let mut at: usize = from;
    if let Some(list) = &text.attachments {
        let length: usize = list.len();
        proof {
            lemma_attached_proceeds(*registry, text, content@, from as int);
        }
        while at < length
            invariant
                text.attachments == Some(*list),
                length == list@.len(),
                from <= at <= length,
                attached_from(*registry, text, content@, at as int) == attached_from(
                    *registry,
                    text,
                    content@,
                    from as int,
                ),
                proceeds(
                    attached_from(*registry, text, content@, from as int),
                    2 * (list@.len() - from) + 5,
                ),
            decreases length - at,
        {
            if let Some(pipo_id) = list[at].pipo_id {
                return Progress::Ask(
                    Call::DiscordId { pipo_id },
                    Job::Text { text, stage: TextStage::AttachedId { content, at } },
                );
            }
            at = at + 1;
        }
    } else {
        proof {
            lemma_attached_proceeds(*registry, text, content@, from as int);
        }
    }
    deliver(registry, text, content)
}

/// Goes on where the channel that a text goes to is known.
fn enter(registry: &Registry, text: TextMessage, channel: u64) -> (progress: Progress)
    ensures
        progress@ == text_in(*registry, text, channel),
        proceeds(
            progress@,
            match text.attachments {
                Some(list) => (2 * list@.len() + 5) as int,
                None => 5,
            },
        ),
{
    let text = TextMessage { channel, ..text };
    let mut content = String::new();
    if let Some(message) = &text.message {
        content = push_line(content, message.as_str());
    } else if text.attachments.is_some() {
        content = push_line(content, "Attachment:");
    }
    assert(content@ =~= text_content(text));
    attach_from(registry, text, content, 0)
}

/// Starts to relay a text, into the thread of a message on Slack where one is given.
pub fn start_text(
    registry: &Registry,
    text: TextMessage,
    thread: Option<(Option<String>, Option<u64>)>,
) -> (progress: Progress)
    ensures
        progress@ == text_started(*registry, text, thread),
        progress@ matches ProgressView::Ask(_, job) ==> job.well_formed() && 0 < job.calls_left(),
{
    if text.message.is_none() && text.attachments.is_none() {
        return Progress::Done(Err(BridgeError::NoContents));
    }
    match thread {
        Some((Some(slack_id), _)) => Progress::Ask(
            Call::DiscordIdOfSlack { slack_id },
            Job::Text { text, stage: TextStage::SlackId },
        ),
        _ => {
            let channel = text.channel;
            enter(registry, text, channel)
        },
    }
}

/// The content with what is shown of an attachment that cannot be replied to.
fn fall_back(text: &TextMessage, content: String, at: usize) -> (whole: String)
    requires
        text.attachments matches Some(list) && at < list@.len(),
    ensures
        whole@ == with_fallback(content@, text.attachments->0@[at as int]),
        at < usize::MAX,
{
    if let Some(list) = &text.attachments {
        assert(list@.len() == list.len());
        if let Some(fallback) = &list[at].fallback {
            return push_quote_line_safe(content, fallback.as_str());
        }
    }
    content
}

fn name_hook(text: &TextMessage) -> (name: String)
    ensures
        name@ == hook_name(*text),
{
    let mut name = text.username.clone();
    name.append(" (");
    name.append(text.transport.as_str());
    name.append(")");
    name
}

/// Whether a text can go on with a response.
fn text_accepts(
    text: &TextMessage,
    stage: &TextStage,
    registry: &Registry,
    response: &Response,
) -> (accepted: bool)
    ensures
        accepted == stage@.accepts(*text, *registry, *response),
{
    match (stage, response) {
        (TextStage::SlackId, Response::DiscordId(Some(id))) => registry.known_threads().contains_key(id)
            || can_name_thread(&text.message),
        (_, Response::Failed(_)) => true,
        (TextStage::SlackId, Response::DiscordId(None)) => true,
        (TextStage::Thread { .. }, Response::Thread(_)) => true,
        (TextStage::AttachedId { .. }, Response::DiscordId(_)) => true,
        (TextStage::AttachedMessage { .. }, Response::Found) => true,
        (TextStage::EditId { .. }, Response::DiscordId(_)) => true,
        (TextStage::EditHook { .. }, Response::Found) => true,
        (TextStage::EditByHook { .. }, Response::Sent(_)) => true,
        (TextStage::PostHook { .. }, Response::Found) => true,
        (TextStage::PostByHook { .. }, Response::Sent(_)) => true,
        _ => false,
    }
}

/// Goes on with the relaying of a text.
fn resume_text(
    text: TextMessage,
    stage: TextStage,
    registry: &Registry,
    response: Response,
) -> (progress: Progress)
    requires
        stage@.well_formed(text),
        stage@.accepts(text, *registry, response),
    ensures
        progress@ == text_resumed(*registry, text, stage@, response),
        proceeds(progress@, stage@.calls_left(text)),
{
    match (stage, response) {
        (TextStage::SlackId, Response::Failed(failure)) => Progress::Done(
            Err(BridgeError::Outside(failure.message)),
        ),
        (TextStage::SlackId, Response::DiscordId(Some(id))) => {
            if registry.known_threads().contains_key(&id) {
                enter(registry, text, id)
            } else {
                let name = name_thread(&text.message);
                Progress::Ask(
                    Call::CreateThread {
                        channel: text.channel,
                        message: id,
                        name,
                        archive_minutes: THREAD_ARCHIVE_MINUTES,
                    },
                    Job::Text { text, stage: TextStage::Thread { message: id } },
                )
            }
        },
        (TextStage::SlackId, _) => {
            let channel = text.channel;
            enter(registry, text, channel)
        },
        (TextStage::Thread { .. }, Response::Thread(thread)) => enter(registry, text, thread),
        (TextStage::Thread { message }, Response::Failed(failure)) => match failure.code {
            Some(THREAD_EXISTS) => enter(registry, text, message),
            _ => Progress::Done(Err(BridgeError::NoThread)),
        },
        (TextStage::AttachedId { content, at }, Response::DiscordId(Some(message))) => Progress::Ask(
            Call::FetchMessage { channel: text.channel, message },
            Job::Text { text, stage: TextStage::AttachedMessage { content, at, message } },
        ),
        (TextStage::AttachedId { content, at }, _) => {
            let content = fall_back(&text, content, at);
            attach_from(registry, text, content, at + 1)
        },
        (TextStage::AttachedMessage { content, at, message }, Response::Found) => {
            let pipo_id = match &text.attachments {
                Some(list) => match list[at].pipo_id {
                    Some(pipo_id) => pipo_id,
                    None => text.pipo_id,
                },
                None => text.pipo_id,
            };
            Progress::Ask(
                Call::Reply { channel: text.channel, message, content },
                Job::Posted { pipo_id },
            )
        },
        (TextStage::AttachedMessage { content, at, .. }, _) => {
            let content = fall_back(&text, content, at);
            attach_from(registry, text, content, at + 1)
        },
        (TextStage::EditId { .. }, Response::Failed(failure)) => Progress::Done(
            Err(BridgeError::Outside(failure.message)),
        ),
        (TextStage::EditId { content }, Response::DiscordId(Some(message))) => {
            match registry.webhook_of(text.channel) {
                Some(webhook) => Progress::Ask(
                    Call::Webhook { webhook },
                    Job::Text { text, stage: TextStage::EditHook { content, message, webhook } },
                ),
                None => edit_plainly(text, content, message),
            }
        },
        (TextStage::EditId { .. }, _) => Progress::Done(Err(BridgeError::UnknownId(text.pipo_id))),
        (TextStage::EditHook { content, message, webhook }, Response::Found) => {
            let sent = content.clone();
            Progress::Ask(
                Call::WebhookEdit { webhook, message, content: sent },
                Job::Text { text, stage: TextStage::EditByHook { content, message } },
            )
        },
        (TextStage::EditHook { content, message, .. }, _) => edit_plainly(text, content, message),
        (TextStage::EditByHook { .. }, Response::Sent(message)) => Progress::Ask(
            Call::SetDiscordId { pipo_id: text.pipo_id, message },
            Job::Last,
        ),
        (TextStage::EditByHook { content, message }, _) => edit_plainly(text, content, message),
        (TextStage::PostHook { content, webhook }, Response::Found) => {
            let sent = content.clone();
            let username = name_hook(&text);
            let avatar_url = match &text.avatar_url {
                Some(url) => Some(url.clone()),
                None => None,
            };
            Progress::Ask(
                Call::WebhookExecute { webhook, content: sent, username, avatar_url },
                Job::Text { text, stage: TextStage::PostByHook { content } },
            )
        },
        (TextStage::PostHook { content, .. }, _) => post_plainly(text, content),
        (TextStage::PostByHook { .. }, Response::Sent(message)) => Progress::Ask(
            Call::SetDiscordId { pipo_id: text.pipo_id, message },
            Job::Last,
        ),
        (TextStage::PostByHook { content }, _) => post_plainly(text, content),
        (TextStage::Thread { .. }, _) => Progress::Done(Err(BridgeError::NoThread)),
    }
}

impl Job {
    /// Whether the job can go on with a response.
    pub fn accepts(&self, registry: &Registry, response: &Response) -> (accepted: bool)
        ensures
            accepted == self@.accepts(*registry, *response),
    {
        match (self, response) {
            (Job::Text { text, stage }, response) => text_accepts(text, stage, registry, response),
            (_, Response::Failed(_)) => true,
            (Job::Last, Response::Done) => true,
            (Job::Posted { .. }, Response::Sent(_)) => true,
            (Job::ActionId { .. }, Response::DiscordId(_)) => true,
            (Job::DeleteId { .. }, Response::DiscordId(_)) => true,
            (Job::DeleteHook { .. }, Response::Found) => true,
            (Job::PinId { .. }, Response::DiscordId(_)) => true,
            (Job::ReactionEmojis { .. }, Response::Emojis(_)) => true,
            (Job::ReactionId { .. }, Response::DiscordId(_)) => true,
            _ => false,
        }
    }

    /// Goes on with a response. A list of the guild's emojis takes the place of those that were
    /// known.
    pub fn resume(
        self,
        registry: &Registry,
        emojis: &mut StringHashMap<GuildEmoji>,
        response: Response,
    ) -> (progress: Progress)
        requires
            self@.well_formed(),
            self@.accepts(*registry, response),
        ensures
            final(emojis)@ == emojis_after(old(emojis)@, self@, response),
            progress@ == job_resumed(*registry, final(emojis)@, self@, response),
            proceeds(progress@, self@.calls_left()),
    {
        match (self, response) {
            (Job::Text { text, stage }, response) => resume_text(text, stage, registry, response),
            (Job::DeleteHook { webhook, message, .. }, Response::Found) => Progress::Ask(
                Call::WebhookDelete { webhook, message },
                Job::Last,
            ),
            (Job::DeleteHook { channel, message, .. }, _) => Progress::Ask(
                Call::DeleteMessage { channel, message },
                Job::Last,
            ),
            (_, Response::Failed(failure)) => Progress::Done(
                Err(BridgeError::Outside(failure.message)),
            ),
            (Job::Last, _) => Progress::Done(Ok(())),
            (Job::Posted { pipo_id }, Response::Sent(message)) => Progress::Ask(
                Call::SetDiscordId { pipo_id, message },
                Job::Last,
            ),
            (Job::ActionId { channel, content, .. }, Response::DiscordId(Some(message))) => {
                Progress::Ask(Call::EditMessage { channel, message, content }, Job::Last)
            },
            (Job::ActionId { pipo_id, .. }, _) => Progress::Done(
                Err(BridgeError::UnknownId(pipo_id)),
            ),
            (Job::DeleteId { channel }, Response::DiscordId(Some(message))) => {
                match registry.webhook_of(channel) {
                    Some(webhook) => Progress::Ask(
                        Call::Webhook { webhook },
                        Job::DeleteHook { channel, message, webhook },
                    ),
                    None => Progress::Ask(Call::DeleteMessage { channel, message }, Job::Last),
                }
            },
            (Job::PinId { channel, remove }, Response::DiscordId(Some(message))) => {
                let call = if remove {
                    Call::Unpin { channel, message }
                } else {
                    Call::Pin { channel, message }
                };
                Progress::Ask(call, Job::Last)
            },
            (Job::ReactionEmojis { channel, pipo_id, emoji, remove }, Response::Emojis(list)) => {
                *emojis = by_name(&list);
                match find_emoji(emojis, emoji.as_str()) {
                    Some(emoji) => Progress::Ask(
                        Call::DiscordId { pipo_id },
                        Job::ReactionId { channel, emoji, remove },
                    ),
                    None => Progress::Done(Err(BridgeError::UnknownEmoji)),
                }
            },
            (Job::ReactionId { channel, emoji, remove }, Response::DiscordId(Some(message))) => {
                let call = if remove {
                    Call::DeleteReaction { channel, message, emoji }
                } else {
                    Call::CreateReaction { channel, message, emoji }
                };
                Progress::Ask(call, Job::Last)
            },
            _ => Progress::Done(Err(BridgeError::NoMessage)),
        }
    }
}

} // verus!
