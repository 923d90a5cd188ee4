//! New and changed messages, on their way from Discord to a bus.

use crate::content;
use crate::content::{Answer, ContentError, ContentParser, ParseStep, ParseStepView, ParserView};
use crate::inbound;
use crate::inbound::{
    ChannelKind, Query, Referenced, Reply, Step, StepView, Task, TaskView, User, TRANSPORT_NAME,
};
use crate::message::{Attachment, AttachmentView, Message, MessageView};
use crate::outside;
use crate::outside::{first_group, format_utc, ACTION_PATTERN, MAX_TIMESTAMP, MIN_TIMESTAMP};
use crate::registry::Registry;
use crate::text;
use vstd::prelude::*;

verus! {

/// A message to relay: a new one, or a changed one that was relayed before.
#[derive(PartialEq, Eq, Debug)]
pub struct Post {
    pub id: u64,
    pub channel: u64,
    pub guild: Option<u64>,
    pub author: User,
    pub content: Option<String>,
    pub attachments: Option<Vec<String>>,
    pub reply: Option<Referenced>,
    pub is_edit: bool,
    /// What the clock read when the post was reported, in seconds since 1970.
    pub now: i64,
}

/// Where a post belongs: its bus, its thread, and the id that the bridge has given it.
#[derive(PartialEq, Eq, Debug)]
pub struct Origin {
    pub bus: String,
    pub thread: Option<(Option<String>, Option<u64>)>,
    pub pipo_id: i64,
}

/// What a post waits for.
pub enum PostStage {
    /// Its channel.
    Channel,
    /// Its id.
    Id { bus: String, thread: Option<(Option<String>, Option<u64>)> },
    /// A name that its content refers to.
    Content { origin: Origin, parser: ContentParser },
    /// The id of the message that it replies to.
    ReplyId { origin: Origin, content: String },
    /// The message that it replies to.
    ReplyMessage { origin: Origin, content: String, reply_id: i64 },
}

pub enum PostStageView {
    Channel,
    Id { bus: String, thread: Option<(Option<String>, Option<u64>)> },
    Content { origin: Origin, parser: ParserView },
    ReplyId { origin: Origin, content: Seq<char> },
    ReplyMessage { origin: Origin, content: Seq<char>, reply_id: i64 },
}

pub struct PostTask {
    pub post: Post,
    pub stage: PostStage,
}

pub struct PostTaskView {
    pub post: Post,
    pub stage: PostStageView,
}

impl View for PostStage {
    type V = PostStageView;

    open spec fn view(&self) -> PostStageView {
        match *self {
            PostStage::Channel => PostStageView::Channel,
            PostStage::Id { bus, thread } => PostStageView::Id { bus, thread },
            PostStage::Content { origin, parser } => PostStageView::Content {
                origin,
                parser: parser@,
            },
            PostStage::ReplyId { origin, content } => PostStageView::ReplyId {
                origin,
                content: content@,
            },
            PostStage::ReplyMessage { origin, content, reply_id } => PostStageView::ReplyMessage {
                origin,
                content: content@,
                reply_id,
            },
        }
    }
}

impl View for PostTask {
    type V = PostTaskView;

    open spec fn view(&self) -> PostTaskView {
        PostTaskView { post: self.post, stage: self.stage@ }
    }
}

/// A content followed by the addresses of its attachments, each on a line of its own.
pub open spec fn with_urls(content: Seq<char>, urls: Seq<String>) -> Seq<char>
    decreases urls.len(),
{
    if urls.len() == 0 {
        content
    } else {
        with_urls(content, urls.drop_last()) + "\n"@ + urls.last()@
    }
}

pub open spec fn with_attachments(content: Seq<char>, urls: Option<Vec<String>>) -> Seq<char> {
    match urls {
        Some(urls) => with_urls(content, urls@),
        None => content,
    }
}

/// The message that a post becomes on its bus: an action where its content has the form of one,
/// and a text otherwise.
pub open spec fn spoken(
    transport_id: usize,
    post: Post,
    origin: Origin,
    content: Seq<char>,
    attachments: Option<Seq<AttachmentView>>,
) -> MessageView {
    match outside::action_body(content) {
        Some(body) => MessageView::Action {
            sender: transport_id,
            pipo_id: origin.pipo_id,
            transport: TRANSPORT_NAME@,
            username: post.author.name@,
            avatar_url: text::opt_text(post.author.avatar_url),
            thread: crate::message::thread_view(origin.thread),
            message: Some(body),
            attachments,
            is_edit: post.is_edit,
            irc_flag: post.is_edit,
        },
        None => MessageView::Text {
            sender: transport_id,
            pipo_id: origin.pipo_id,
            transport: TRANSPORT_NAME@,
            username: post.author.name@,
            avatar_url: text::opt_text(post.author.avatar_url),
            thread: crate::message::thread_view(origin.thread),
            message: Some(content),
            attachments,
            is_edit: post.is_edit,
            irc_flag: post.is_edit,
        },
    }
}

/// The name under which the author of a referenced message is known in the guild.
pub open spec fn known_as(reply: Referenced) -> Seq<char> {
    match reply.member {
        Some(member) => match member.nick {
            Some(nick) => nick@,
            None => reply.author.name@,
        },
        None => reply.author.name@,
    }
}

/// A message in one line: when it was written, by whom, and what it says.
pub open spec fn quote_text(time: Seq<char>, author: Seq<char>, content: Seq<char>) -> Seq<char> {
    "["@ + time + "] "@ + author + ": "@ + content
}

/// A referenced message as an attachment. Its text is left out where it could not be had.
pub open spec fn quoted(reply: Referenced, reply_id: i64, found: Reply) -> AttachmentView {
    AttachmentView {
        id: 0,
        pipo_id: Some(reply_id),
        fallback: match found {
            Reply::Message { secs, author, content } => Some(
                quote_text(
                    outside::utc_text(secs as int, "%B %e, %Y %l:%M %p"@),
                    author@,
                    content@,
                ),
            ),
            _ => None,
        },
        author_name: Some(known_as(reply) + " ("@ + TRANSPORT_NAME@ + ")"@),
        author_icon: text::opt_text(reply.author.avatar_url),
    }
}

/// The content has been read.
pub open spec fn content_read(
    transport_id: usize,
    post: Post,
    origin: Origin,
    content: Seq<char>,
) -> StepView {
    match post.reply {
        Some(reply) => inbound::asking(
            Query::PipoId { message: reply.id },
            TaskView::Post(
                PostTaskView { post, stage: PostStageView::ReplyId { origin, content } },
            ),
        ),
        None => inbound::sending(
            origin.bus,
            spoken(transport_id, post, origin, content, None),
        ),
    }
}

/// The content is being read. A content that cannot be read is relayed as it is, and the step
/// says why.
pub open spec fn content_reading(
    transport_id: usize,
    post: Post,
    origin: Origin,
    step: ParseStepView,
) -> StepView {
    match step {
        ParseStepView::Asking(lookup, parser) => inbound::asking(
            Query::Lookup(lookup),
            TaskView::Post(PostTaskView { post, stage: PostStageView::Content { origin, parser } }),
        ),
        ParseStepView::Finished(read) => StepView {
            unread: match read {
                Ok(_) => None,
                Err(e) => Some(e),
            },
            ..content_read(
                transport_id,
                post,
                origin,
                with_attachments(
                    match read {
                        Ok(t) => t,
                        Err(_) => post.content->0@,
                    },
                    post.attachments,
                ),
            )
        },
    }
}

/// The answer that a reply brings to a lookup.
pub open spec fn answer_of(reply: Reply) -> Answer {
    match reply {
        Reply::Lookup(answer) => answer,
        _ => Answer::Failed,
    }
}

/// The next step of a post.
pub open spec fn post_resumed(
    transport_id: usize,
    registry: Registry,
    task: PostTaskView,
    reply: Reply,
) -> StepView {
    let post = task.post;
    match (task.stage, reply) {
        (PostStageView::Channel, Reply::Channel(ChannelKind::Guild(_))) => match registry.route(
            post.channel,
        ) {
            Some((bus, thread)) => inbound::asking(
                if post.is_edit {
                    Query::PipoId { message: post.id }
                } else {
                    Query::InsertMessage { message: post.id }
                },
                TaskView::Post(PostTaskView { post, stage: PostStageView::Id { bus, thread } }),
            ),
            None => inbound::stopped(),
        },
        (PostStageView::Id { bus, thread }, Reply::PipoId(pipo_id)) => match post.content {
            Some(content) => content_reading(
                transport_id,
                post,
                Origin { bus, thread, pipo_id },
                content::parsed(post.guild->0, post.now, content@, 0, Seq::empty()),
            ),
            None => inbound::stopped(),
        },
        (PostStageView::Content { origin, parser }, reply) => content_reading(
            transport_id,
            post,
            origin,
            content::resumed(parser, answer_of(reply)),
        ),
        (PostStageView::ReplyId { origin, content }, Reply::PipoId(reply_id)) => inbound::asking(
            Query::Message { channel: post.channel, message: post.reply->0.id },
            TaskView::Post(
                PostTaskView {
                    post,
                    stage: PostStageView::ReplyMessage { origin, content, reply_id },
                },
            ),
        ),
        (PostStageView::ReplyMessage { origin, content, reply_id }, found) => inbound::sending(
            origin.bus,
            spoken(
                transport_id,
                post,
                origin,
                content,
                Some(seq![quoted(post.reply->0, reply_id, found)]),
            ),
        ),
        _ => inbound::stopped(),
    }
}

impl PostTaskView {
    /// A post whose content is being read has one, and a post that waits for a message to quote
    /// replies to one.
    pub open spec fn well_formed(self) -> bool {
        match self.stage {
            PostStageView::Content { parser, .. } => self.post.content is Some
                && parser.well_formed(),
            PostStageView::ReplyId { .. } => self.post.reply is Some,
            PostStageView::ReplyMessage { .. } => self.post.reply is Some,
            _ => true,
        }
    }

    /// Whether the post can go on with a reply: its content can be read only where the guild is
    /// known and the times in it and the clock are in the calendar. So must be the time of a quoted
    /// message.
    pub open spec fn accepts(self, reply: Reply) -> bool {
        match (self.stage, reply) {
            (PostStageView::Id { .. }, Reply::PipoId(_)) => self.post.content matches Some(content)
                ==> self.post.guild is Some && content::times_fit(content@, 0) && MIN_TIMESTAMP
                <= self.post.now <= MAX_TIMESTAMP,
            (
                PostStageView::ReplyMessage { .. },
                Reply::Message { secs, .. },
            ) => MIN_TIMESTAMP <= secs <= MAX_TIMESTAMP,
            _ => true,
        }
    }

    /// A bound on the replies that the post may still wait for.
    pub open spec fn replies_left(self) -> nat {
        let length = match self.post.content {
            Some(content) => content@.len(),
            None => 0,
        };
        match self.stage {
            PostStageView::Channel => 2 * length + 4,
            PostStageView::Id { .. } => 2 * length + 3,
            PostStageView::Content { parser, .. } => parser.lookups_left() + 2,
            PostStageView::ReplyId { .. } => 2,
            PostStageView::ReplyMessage { .. } => 1,
        }
    }
}

fn push_urls(content: &mut String, urls: &Vec<String>)
    ensures
        final(content)@ == with_urls(old(content)@, urls@),
{
    let mut i: usize = 0;
    assert(urls@.take(0) =~= Seq::<String>::empty());
    while i < urls.len()
        invariant
            i <= urls@.len(),
            content@ == with_urls(old(content)@, urls@.take(i as int)),
        decreases urls@.len() - i,
    {
        assert(urls@.take(i + 1).drop_last() =~= urls@.take(i as int));
        content.append("\n");
        content.append(urls[i].as_str());
        i = i + 1;
    }
    assert(urls@.take(i as int) =~= urls@);
}

fn speak(
    transport_id: usize,
    post: Post,
    origin: Origin,
    content: String,
    attachments: Option<Vec<Attachment>>,
) -> (step: Step)
    ensures
        step@ == inbound::sending(
            origin.bus,
            spoken(
                transport_id,
                post,
                origin,
                content@,
                crate::message::attachments_view(attachments),
            ),
        ),
{
    let message = match first_group(ACTION_PATTERN, content.as_str()) {
        Some(body) => Message::Action {
            sender: transport_id,
            pipo_id: origin.pipo_id,
            transport: TRANSPORT_NAME.to_string(),
            username: post.author.name,
            avatar_url: post.author.avatar_url,
            thread: origin.thread,
            message: Some(body),
            attachments,
            is_edit: post.is_edit,
            irc_flag: post.is_edit,
        },
        None => Message::Text {
            sender: transport_id,
            pipo_id: origin.pipo_id,
            transport: TRANSPORT_NAME.to_string(),
            username: post.author.name,
            avatar_url: post.author.avatar_url,
            thread: origin.thread,
            message: Some(content),
            attachments,
            is_edit: post.is_edit,
            irc_flag: post.is_edit,
        },
    };
    Step::send(origin.bus, message)
}

/// A message in one line.
pub fn quote_line(time: &str, author: &str, content: &str) -> (line: String)
    ensures
        line@ == quote_text(time@, author@, content@),
{
    let mut line = "[".to_string();
    line.append(time);
    line.append("] ");
    line.append(author);
    line.append(": ");
    line.append(content);
    line
}

fn quote(reply: &Referenced, reply_id: i64, found: Reply) -> (attachment: Attachment)
    requires
        found matches Reply::Message { secs, .. } ==> MIN_TIMESTAMP <= secs <= MAX_TIMESTAMP,
    ensures
        attachment@ == quoted(*reply, reply_id, found),
{
    let mut author_name = match &reply.member {
        Some(member) => match &member.nick {
            Some(nick) => nick.clone(),
            None => reply.author.name.clone(),
        },
        None => reply.author.name.clone(),
    };
    author_name.append(" (");
    author_name.append(TRANSPORT_NAME);
    author_name.append(")");
    let fallback = match found {
        Reply::Message { secs, author, content } => {
            let time = format_utc(secs, "%B %e, %Y %l:%M %p");
            Some(quote_line(time.as_str(), author.as_str(), content.as_str()))
        },
        _ => None,
    };
    let author_icon = match &reply.author.avatar_url {
        Some(url) => Some(url.clone()),
        None => None,
    };
    Attachment {
        id: 0,
        pipo_id: Some(reply_id),
        fallback,
        author_name: Some(author_name),
        author_icon,
    }
}

fn read_content(transport_id: usize, post: Post, origin: Origin, parse: ParseStep) -> (step: Step)
    requires
        post.content is Some,
        parse@.well_formed(),
    ensures
        step@ == content_reading(transport_id, post, origin, parse@),
{
    match parse {
        ParseStep::Asking(lookup, parser) => Step::ask(
            Query::Lookup(lookup),
            Task::Post(PostTask { post, stage: PostStage::Content { origin, parser } }),
        ),
        ParseStep::Finished(read) => {
            let mut unread: Option<ContentError> = None;
            let mut content = match read {
                Ok(t) => t,
                Err(e) => {
                    unread = Some(e);
                    match &post.content {
                        Some(raw) => raw.clone(),
                        None => String::new(),
                    }
                },
            };
            if let Some(urls) = &post.attachments {
                push_urls(&mut content, urls);
            }
            let mut step = match &post.reply {
                Some(reply) => {
                    let id = reply.id;
                    Step::ask(
                        Query::PipoId { message: id },
                        Task::Post(
                            PostTask { post, stage: PostStage::ReplyId { origin, content } },
                        ),
                    )
                },
                None => speak(transport_id, post, origin, content, None),
            };
            step.unread = unread;
            step
        },
    }
}

impl PostTask {
    /// Whether the post can go on with a reply.
    pub fn accepts(&self, reply: &Reply) -> (accepted: bool)
        ensures
            accepted == self@.accepts(*reply),
    {
        match (&self.stage, reply) {
            (PostStage::Id { .. }, Reply::PipoId(_)) => match &self.post.content {
                Some(content) => self.post.guild.is_some() && MIN_TIMESTAMP <= self.post.now
                    && self.post.now <= MAX_TIMESTAMP && content::times_in_range(content.as_str()),
                None => true,
            },
            (PostStage::ReplyMessage { .. }, Reply::Message { secs, .. }) => MIN_TIMESTAMP <= *secs
                && *secs <= MAX_TIMESTAMP,
            _ => true,
        }
    }

    /// Goes on with a reply.
    pub fn resume(self, transport_id: usize, registry: &Registry, reply: Reply) -> (step: Step)
        requires
            registry.well_formed(),
            self@.well_formed(),
            self@.accepts(reply),
        ensures
            step@ == post_resumed(transport_id, *registry, self@, reply),
    {
        let post = self.post;
        match (self.stage, reply) {
            (PostStage::Channel, Reply::Channel(ChannelKind::Guild(_))) => {
                let mut thread: Option<(Option<String>, Option<u64>)> = None;
                match registry.get_sender_and_thread(post.channel, &mut thread) {
                    Some(bus) => {
                        let query = if post.is_edit {
                            Query::PipoId { message: post.id }
                        } else {
                            Query::InsertMessage { message: post.id }
                        };
                        Step::ask(
                            query,
                            Task::Post(PostTask { post, stage: PostStage::Id { bus, thread } }),
                        )
                    },
                    None => Step::stop(),
                }
            },
            (PostStage::Id { bus, thread }, Reply::PipoId(pipo_id)) => {
                let parse = match (&post.content, post.guild) {
                    (Some(content), Some(guild)) => content::start(
                        guild,
                        post.now,
                        content.as_str(),
                    ),
                    _ => {
                        return Step::stop();
                    },
                };
                read_content(transport_id, post, Origin { bus, thread, pipo_id }, parse)
            },
            (PostStage::Content { origin, parser }, reply) => {
                let answer = match reply {
                    Reply::Lookup(answer) => answer,
                    _ => Answer::Failed,
                };
                read_content(transport_id, post, origin, parser.resume(answer))
            },
            (PostStage::ReplyId { origin, content }, Reply::PipoId(reply_id)) => match &post.reply {
                Some(reply) => {
                    let query = Query::Message { channel: post.channel, message: reply.id };
                    Step::ask(
                        query,
                        Task::Post(
                            PostTask {
                                post,
                                stage: PostStage::ReplyMessage { origin, content, reply_id },
                            },
                        ),
                    )
                },
                None => Step::stop(),
            },
            (PostStage::ReplyMessage { origin, content, reply_id }, found) => {
                let attachment = match &post.reply {
                    Some(reply) => quote(reply, reply_id, found),
                    None => {
                        return Step::stop();
                    },
                };
                let mut attachments: Vec<Attachment> = Vec::new();
                attachments.push(attachment);
                let step = speak(transport_id, post, origin, content, Some(attachments));
                assert(attachments@.map_values(|a: Attachment| a@) =~= seq![attachment@]);
                step
            },
            _ => Step::stop(),
        }
    }
}

} // verus!
