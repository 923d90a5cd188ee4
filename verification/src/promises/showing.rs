//! What the contracts say of a value that is handed out is what the value holds.

use crate::content::{ContentError, ParseStep, ParseStepView};
use crate::inbound::{Outgoing, Query, Step, Task};
use crate::jobs::Job;
use crate::message::{Attachment, Message, MessageView};
use crate::outbound::{BridgeError, Call, CallView, Progress, ProgressView, ReactionType};
use crate::outbound::ReactionTypeView;
use vstd::prelude::*;

verus! {

/// Whether a text that may be missing is shown as it is.
pub open spec fn shows(shown: Option<Seq<char>>, text: Option<String>) -> bool {
    match (shown, text) {
        (Some(s), Some(t)) => s == t@,
        (None, None) => true,
        _ => false,
    }
}

/// Whether a thread is shown as it is.
pub open spec fn shows_thread(
    shown: Option<(Option<Seq<char>>, Option<u64>)>,
    thread: Option<(Option<String>, Option<u64>)>,
) -> bool {
    match (shown, thread) {
        (Some((slack, discord)), Some((slack_id, id))) => shows(slack, slack_id) && discord == id,
        (None, None) => true,
        _ => false,
    }
}

/// An attachment is shown with each of its fields.
pub proof fn law_attachments_are_shown(attachment: Attachment)
    ensures
        attachment@.id == attachment.id,
        attachment@.pipo_id == attachment.pipo_id,
        shows(attachment@.fallback, attachment.fallback),
        shows(attachment@.author_name, attachment.author_name),
        shows(attachment@.author_icon, attachment.author_icon),
{
}

/// A text or an action is shown with each of its fields, and each of its attachments.
pub proof fn law_texts_and_actions_are_shown(message: Message)
    requires
        message is Text || message is Action,
    ensures
        match (message, message@) {
            (
                Message::Text {
                    sender,
                    pipo_id,
                    transport,
                    username,
                    avatar_url,
                    thread,
                    message,
                    attachments,
                    is_edit,
                    irc_flag,
                },
                MessageView::Text {
                    sender: shown_sender,
                    pipo_id: shown_id,
                    transport: shown_transport,
                    username: shown_username,
                    avatar_url: shown_url,
                    thread: shown_thread,
                    message: shown_message,
                    attachments: shown_attachments,
                    is_edit: shown_edit,
                    irc_flag: shown_flag,
                },
            ) => {
                &&& shown_sender == sender
                &&& shown_id == pipo_id
                &&& shown_transport == transport@
                &&& shown_username == username@
                &&& shows(shown_url, avatar_url)
                &&& shows_thread(shown_thread, thread)
                &&& shows(shown_message, message)
                &&& shown_edit == is_edit
                &&& shown_flag == irc_flag
                &&& shown_attachments is Some == attachments is Some
                &&& attachments is Some ==> {
                    &&& shown_attachments->0.len() == attachments->0@.len()
                    &&& forall|i: int|
                        0 <= i < attachments->0@.len() ==> #[trigger] shown_attachments->0[i]
                            == attachments->0@[i]@
                }
            },
            (
                Message::Action {
                    sender,
                    pipo_id,
                    transport,
                    username,
                    avatar_url,
                    thread,
                    message,
                    attachments,
                    is_edit,
                    irc_flag,
                },
                MessageView::Action {
                    sender: shown_sender,
                    pipo_id: shown_id,
                    transport: shown_transport,
                    username: shown_username,
                    avatar_url: shown_url,
                    thread: shown_thread,
                    message: shown_message,
                    attachments: shown_attachments,
                    is_edit: shown_edit,
                    irc_flag: shown_flag,
                },
            ) => {
                &&& shown_sender == sender
                &&& shown_id == pipo_id
                &&& shown_transport == transport@
                &&& shown_username == username@
                &&& shows(shown_url, avatar_url)
                &&& shows_thread(shown_thread, thread)
                &&& shows(shown_message, message)
                &&& shown_edit == is_edit
                &&& shown_flag == irc_flag
                &&& shown_attachments is Some == attachments is Some
                &&& attachments is Some ==> {
                    &&& shown_attachments->0.len() == attachments->0@.len()
                    &&& forall|i: int|
                        0 <= i < attachments->0@.len() ==> #[trigger] shown_attachments->0[i]
                            == attachments->0@[i]@
                }
            },
            _ => false,
        },
{
}

/// Every other message is shown with each of its fields.
pub proof fn law_other_messages_are_shown(message: Message)
    requires
        message !is Text,
        message !is Action,
        message !is Bot,
    ensures
        match (message, message@) {
            (
                Message::Delete { sender, pipo_id, transport },
                MessageView::Delete { sender: by, pipo_id: id, transport: network },
            ) => by == sender && id == pipo_id && network == transport@,
            (
                Message::Pin { sender, pipo_id, remove },
                MessageView::Pin { sender: by, pipo_id: id, remove: removed },
            ) => by == sender && id == pipo_id && removed == remove,
            (
                Message::Reaction {
                    sender,
                    pipo_id,
                    transport,
                    emoji,
                    remove,
                    username,
                    avatar_url,
                    thread,
                },
                MessageView::Reaction {
                    sender: by,
                    pipo_id: id,
                    transport: network,
                    emoji: with,
                    remove: removed,
                    username: name,
                    avatar_url: url,
                    thread: within,
                },
            ) => by == sender && id == pipo_id && network == transport@ && with == emoji@ && removed
                == remove && shows(name, username) && shows(url, avatar_url) && shows_thread(
                within,
                thread,
            ),
            (
                Message::Names { sender, transport, username, message },
                MessageView::Names {
                    sender: by,
                    transport: network,
                    username: name,
                    message: said,
                },
            ) => by == sender && network == transport@ && name == username@ && shows(said, message),
            _ => false,
        },
{
}

/// What to react with is shown as it is.
pub proof fn law_reaction_emojis_are_shown(emoji: ReactionType)
    ensures
        match (emoji, emoji@) {
            (
                ReactionType::Custom { animated, id, name },
                ReactionTypeView::Custom { animated: moving, id: number, name: called },
            ) => moving == animated && number == id && called == name@,
            (ReactionType::Unicode(one), ReactionTypeView::Unicode(other)) => other == one@,
            _ => false,
        },
{
}

/// What is asked of Discord and of the database is shown with each of its fields.
pub proof fn law_calls_are_shown(call: Call)
    ensures
        match (call, call@) {
            (Call::DiscordId { pipo_id }, CallView::DiscordId { pipo_id: id }) => id == pipo_id,
            (
                Call::DiscordIdOfSlack { slack_id },
                CallView::DiscordIdOfSlack { slack_id: id },
            ) => id == slack_id@,
            (
                Call::SetDiscordId { pipo_id, message },
                CallView::SetDiscordId { pipo_id: id, message: on },
            ) => id == pipo_id && on == message,
            (
                Call::CreateThread { channel, message, name, archive_minutes },
                CallView::CreateThread {
                    channel: within,
                    message: on,
                    name: called,
                    archive_minutes: minutes,
                },
            ) => within == channel && on == message && called == name@ && minutes
                == archive_minutes,
            (Call::GuildEmojis, CallView::GuildEmojis) => true,
            (Call::Webhook { webhook }, CallView::Webhook { webhook: hook }) => hook == webhook,
            (
                Call::Say { channel, content },
                CallView::Say { channel: within, content: said },
            ) => within == channel && said == content@,
            (
                Call::EditMessage { channel, message, content },
                CallView::EditMessage { channel: within, message: on, content: said },
            ) => within == channel && on == message && said == content@,
            (
                Call::DeleteMessage { channel, message },
                CallView::DeleteMessage { channel: within, message: on },
            ) => within == channel && on == message,
            (
                Call::FetchMessage { channel, message },
                CallView::FetchMessage { channel: within, message: on },
            ) => within == channel && on == message,
            (
                Call::Reply { channel, message, content },
                CallView::Reply { channel: within, message: on, content: said },
            ) => within == channel && on == message && said == content@,
            (
                Call::Pin { channel, message },
                CallView::Pin { channel: within, message: on },
            ) => within == channel && on == message,
            (
                Call::Unpin { channel, message },
                CallView::Unpin { channel: within, message: on },
            ) => within == channel && on == message,
            (
                Call::CreateReaction { channel, message, emoji },
                CallView::CreateReaction { channel: within, message: on, emoji: with },
            ) => within == channel && on == message && with == emoji@,
            (
                Call::DeleteReaction { channel, message, emoji },
                CallView::DeleteReaction { channel: within, message: on, emoji: with },
            ) => within == channel && on == message && with == emoji@,
            (
                Call::WebhookExecute { webhook, content, username, avatar_url },
                CallView::WebhookExecute {
                    webhook: hook,
                    content: said,
                    username: name,
                    avatar_url: url,
                },
            ) => hook == webhook && said == content@ && name == username@ && shows(url, avatar_url),
            (
                Call::WebhookEdit { webhook, message, content },
                CallView::WebhookEdit { webhook: hook, message: on, content: said },
            ) => hook == webhook && on == message && said == content@,
            (
                Call::WebhookDelete { webhook, message },
                CallView::WebhookDelete { webhook: hook, message: on },
            ) => hook == webhook && on == message,
            _ => false,
        },
{
}

/// What a relaying hands out is shown with the call, and how it ends is shown as it is.
pub proof fn law_progress_is_shown(
    call: Call,
    job: Job,
    outcome: Result<(), BridgeError>,
)
    ensures
        Progress::Ask(call, job)@ == ProgressView::Ask(call@, job@),
        Progress::Done(outcome)@ == ProgressView::Done(outcome),
{
}

/// A step is shown with the message that it sends and its bus, with what it asks for, and with
/// why a content could not be read.
pub proof fn law_steps_are_shown(
    unread: Option<ContentError>,
    out: Outgoing,
    query: Query,
    task: Task,
)
    ensures
        ({
            let step = (Step { unread, send: Some(out), next: Some((query, task)) })@;
            &&& step.unread == unread
            &&& step.send == Some((out.bus, out.message@))
            &&& step.next == Some((query, task@))
        }),
        ({
            let step = (Step { unread, send: None, next: Some((query, task)) })@;
            &&& step.unread == unread
            &&& step.send is None
            &&& step.next == Some((query, task@))
        }),
        ({
            let step = (Step { unread, send: Some(out), next: None })@;
            &&& step.unread == unread
            &&& step.send == Some((out.bus, out.message@))
            &&& step.next is None
        }),
        ({
            let step = (Step { unread, send: None, next: None })@;
            &&& step.unread == unread
            &&& step.send is None
            &&& step.next is None
        }),
{
}

/// The outcome of a reading is shown as it is, and so is what it asks for.
pub proof fn law_readings_are_shown(step: ParseStep)
    ensures
        match (step, step@) {
            (ParseStep::Finished(Ok(text)), ParseStepView::Finished(Ok(shown))) => shown == text@,
            (ParseStep::Finished(Err(error)), ParseStepView::Finished(Err(shown))) => shown
                == error,
            (ParseStep::Asking(lookup, _), ParseStepView::Asking(shown, _)) => shown == lookup,
            _ => false,
        },
{
}

} // verus!
