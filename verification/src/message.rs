//! The messages that travel on the buses between the transports.

use crate::text;
use vstd::prelude::*;

verus! {

/// What a message carries besides its text, such as the message that it replies to.
#[derive(Clone, PartialEq, Eq, Debug)]
pub struct Attachment {
    pub id: u64,
    /// The bridge's id of the message that is attached.
    pub pipo_id: Option<i64>,
    /// What is shown where the attached message cannot be.
    pub fallback: Option<String>,
    pub author_name: Option<String>,
    pub author_icon: Option<String>,
}

pub struct AttachmentView {
    pub id: u64,
    pub pipo_id: Option<i64>,
    pub fallback: Option<Seq<char>>,
    pub author_name: Option<Seq<char>>,
    pub author_icon: Option<Seq<char>>,
}

impl View for Attachment {
    type V = AttachmentView;

    open spec fn view(&self) -> AttachmentView {
        AttachmentView {
            id: self.id,
            pipo_id: self.pipo_id,
            fallback: text::opt_text(self.fallback),
            author_name: text::opt_text(self.author_name),
            author_icon: text::opt_text(self.author_icon),
        }
    }
}

/// A message on a bus. `sender` is the number of the transport that put it there, and `pipo_id`
/// the bridge's own id of the chat message that it is about. A thread is given by Slack's
/// timestamp, by Discord's id, or by both.
#[allow(inconsistent_fields)]
#[derive(Clone, PartialEq, Eq, Debug)]
pub enum Message {
    Action {
        sender: usize,
        pipo_id: i64,
        transport: String,
        username: String,
        avatar_url: Option<String>,
        thread: Option<(Option<String>, Option<u64>)>,
        message: Option<String>,
        attachments: Option<Vec<Attachment>>,
        is_edit: bool,
        irc_flag: bool,
    },
    Bot {
        sender: usize,
        pipo_id: i64,
        transport: String,
        message: Option<String>,
        attachments: Option<Vec<Attachment>>,
        is_edit: bool,
    },
    Delete { sender: usize, pipo_id: i64, transport: String },
    Names { sender: usize, transport: String, username: String, message: Option<String> },
    Pin { sender: usize, pipo_id: i64, remove: bool },
    Reaction {
        sender: usize,
        pipo_id: i64,
        transport: String,
        emoji: String,
        remove: bool,
        username: Option<String>,
        avatar_url: Option<String>,
        thread: Option<(Option<String>, Option<u64>)>,
    },
    Text {
        sender: usize,
        pipo_id: i64,
        transport: String,
        username: String,
        avatar_url: Option<String>,
        thread: Option<(Option<String>, Option<u64>)>,
        message: Option<String>,
        attachments: Option<Vec<Attachment>>,
        is_edit: bool,
        irc_flag: bool,
    },
}

#[allow(inconsistent_fields)]
pub enum MessageView {
    Action {
        sender: usize,
        pipo_id: i64,
        transport: Seq<char>,
        username: Seq<char>,
        avatar_url: Option<Seq<char>>,
        thread: Option<(Option<Seq<char>>, Option<u64>)>,
        message: Option<Seq<char>>,
        attachments: Option<Seq<AttachmentView>>,
        is_edit: bool,
        irc_flag: bool,
    },
    Bot {
        sender: usize,
        pipo_id: i64,
        transport: Seq<char>,
        message: Option<Seq<char>>,
        attachments: Option<Seq<AttachmentView>>,
        is_edit: bool,
    },
    Delete { sender: usize, pipo_id: i64, transport: Seq<char> },
    Names {
        sender: usize,
        transport: Seq<char>,
        username: Seq<char>,
        message: Option<Seq<char>>,
    },
    Pin { sender: usize, pipo_id: i64, remove: bool },
    Reaction {
        sender: usize,
        pipo_id: i64,
        transport: Seq<char>,
        emoji: Seq<char>,
        remove: bool,
        username: Option<Seq<char>>,
        avatar_url: Option<Seq<char>>,
        thread: Option<(Option<Seq<char>>, Option<u64>)>,
    },
    Text {
        sender: usize,
        pipo_id: i64,
        transport: Seq<char>,
        username: Seq<char>,
        avatar_url: Option<Seq<char>>,
        thread: Option<(Option<Seq<char>>, Option<u64>)>,
        message: Option<Seq<char>>,
        attachments: Option<Seq<AttachmentView>>,
        is_edit: bool,
        irc_flag: bool,
    },
}

pub open spec fn thread_view(thread: Option<(Option<String>, Option<u64>)>) -> Option<
    (Option<Seq<char>>, Option<u64>),
> {
    match thread {
        Some((slack, discord)) => Some((text::opt_text(slack), discord)),
        None => None,
    }
}

pub open spec fn attachments_view(attachments: Option<Vec<Attachment>>) -> Option<
    Seq<AttachmentView>,
> {
    match attachments {
        Some(list) => Some(list@.map_values(|a: Attachment| a@)),
        None => None,
    }
}

impl View for Message {
    type V = MessageView;

    open spec fn view(&self) -> MessageView {
        match *self {
            Message::Action {
                sender,
                pipo_id,
                transport,
                username,
                avatar_url,
                thread,
                message,
                attachments,
                is_edit,
                irc_flag,
            } => MessageView::Action {
                sender,
                pipo_id,
                transport: transport@,
                username: username@,
                avatar_url: text::opt_text(avatar_url),
                thread: thread_view(thread),
                message: text::opt_text(message),
                attachments: attachments_view(attachments),
                is_edit,
                irc_flag,
            },
            Message::Bot { sender, pipo_id, transport, message, attachments, is_edit } =>
            MessageView::Bot {
                sender,
                pipo_id,
                transport: transport@,
                message: text::opt_text(message),
                attachments: attachments_view(attachments),
                is_edit,
            },
            Message::Delete { sender, pipo_id, transport } => MessageView::Delete {
                sender,
                pipo_id,
                transport: transport@,
            },
            Message::Names { sender, transport, username, message } => MessageView::Names {
                sender,
                transport: transport@,
                username: username@,
                message: text::opt_text(message),
            },
            Message::Pin { sender, pipo_id, remove } => MessageView::Pin {
                sender,
                pipo_id,
                remove,
            },
            Message::Reaction {
                sender,
                pipo_id,
                transport,
                emoji,
                remove,
                username,
                avatar_url,
                thread,
            } => MessageView::Reaction {
                sender,
                pipo_id,
                transport: transport@,
                emoji: emoji@,
                remove,
                username: text::opt_text(username),
                avatar_url: text::opt_text(avatar_url),
                thread: thread_view(thread),
            },
            Message::Text {
                sender,
                pipo_id,
                transport,
                username,
                avatar_url,
                thread,
                message,
                attachments,
                is_edit,
                irc_flag,
            } => MessageView::Text {
                sender,
                pipo_id,
                transport: transport@,
                username: username@,
                avatar_url: text::opt_text(avatar_url),
                thread: thread_view(thread),
                message: text::opt_text(message),
                attachments: attachments_view(attachments),
                is_edit,
                irc_flag,
            },
        }
    }
}

impl MessageView {
    /// The transport that put the message on its bus.
    pub open spec fn sent_by(self) -> usize {
        match self {
            MessageView::Action { sender, .. } => sender,
            MessageView::Bot { sender, .. } => sender,
            MessageView::Delete { sender, .. } => sender,
            MessageView::Names { sender, .. } => sender,
            MessageView::Pin { sender, .. } => sender,
            MessageView::Reaction { sender, .. } => sender,
            MessageView::Text { sender, .. } => sender,
        }
    }
}

/// The highest id that is given out before the count starts again.
pub const MAX_PIPO_ID: i64 = 40000;

/// The bridge's id that follows on one: the ids count up, and start again from zero behind the
/// highest.
pub open spec fn pipo_id_after(id: int) -> int {
    if id + 1 > MAX_PIPO_ID {
        0
    } else {
        id + 1
    }
}

/// The id to give out after `id`.
pub fn next_pipo_id(id: i64) -> (next: i64)
    requires
        id < i64::MAX,
    ensures
        next == pipo_id_after(id as int),
{
    if id + 1 > MAX_PIPO_ID {
        0
    } else {
        id + 1
    }
}

/// The id to give out next, after one was given to a message. It is given out again where the
/// message could not be stored.
pub open spec fn counted(id: int, stored: bool) -> int {
    if stored {
        pipo_id_after(id)
    } else {
        id
    }
}

/// The id to give out next, after `id` was given to a message.
pub fn counter_after(id: i64, stored: bool) -> (next: i64)
    requires
        stored ==> id < i64::MAX,
    ensures
        next == counted(id as int, stored),
{
    if stored {
        next_pipo_id(id)
    } else {
        id
    }
}

/// The id after `n` more have been given out.
pub open spec fn pipo_id_after_many(id: int, n: nat) -> int
    decreases n,
{
    if n == 0 {
        id
    } else {
        pipo_id_after(pipo_id_after_many(id, (n - 1) as nat))
    }
}

/// Ids that start in the range from zero to the highest stay in it, and come round in order: an
/// id comes again only after every other one has been given out.
pub proof fn law_pipo_ids_come_round(id: int, n: nat)
    requires
        0 <= id <= MAX_PIPO_ID,
    ensures
        0 <= pipo_id_after_many(id, n) <= MAX_PIPO_ID,
        pipo_id_after_many(id, n) == (id + n) % (MAX_PIPO_ID + 1),
        pipo_id_after_many(id, n) == id <==> n % (MAX_PIPO_ID + 1) as nat == 0,
    decreases n,
{
    if n > 0 {
        law_pipo_ids_come_round(id, (n - 1) as nat);
    }
}

} // verus!
