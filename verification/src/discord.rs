//! The transport: what comes over the buses is put on Discord.

use crate::handler::RealHandler;
use crate::jobs;
use crate::jobs::{find_emoji, start_text, Job, JobView, TextMessage};
use crate::message::{Attachment, Message};
use crate::outbound::{
    BridgeError, Call, CallView, GuildEmoji, Progress, ProgressView, ReactionType,
    ReactionTypeView, Response,
};
use crate::outside;
use crate::outside::{lookup_emoji, push_italic};
use crate::registry;
use crate::registry::{HandlerChannel, Registry};
use crate::text;
use crate::text::parse_id;
use std::collections::HashMap;
use vstd::hash_map::StringHashMap;
use vstd::prelude::*;

verus! {

/// The transport: its number among the transports, what it needs to log in, the channels that
/// it follows, and the emojis of its guild as far as they are known.
pub struct Discord {
    pub transport_id: usize,
    pub token: String,
    pub guild: u64,
    pub registry: Registry,
    pub emojis: StringHashMap<GuildEmoji>,
}

/// What is needed to run a connection: the handler of Discord's events, and the bus to listen on
/// for each channel.
pub struct Connection {
    pub handler: RealHandler,
    pub subscriptions: Vec<(u64, String)>,
}

/// Whether there is a bus under a name.
pub open spec fn has_bus(buses: Seq<String>, name: Seq<char>) -> bool {
    exists|i: int| 0 <= i < buses.len() && #[trigger] buses[i]@ == name
}

/// Whether each channel that is joined to a bus is given by its id.
pub open spec fn channels_have_ids(buses: Seq<String>, mapping: Seq<(String, String)>) -> bool {
    forall|i: int|
        0 <= i < mapping.len() && has_bus(buses, (#[trigger] mapping[i]).1@) ==> text::id_of(
            mapping[i].0@,
        ) is Some
}

/// The channels that a mapping from channels to buses asks to follow. One that names a bus that
/// there is not is passed over.
pub open spec fn channels_of(buses: Seq<String>, mapping: Seq<(String, String)>) -> Map<
    u64,
    HandlerChannel,
>
    decreases mapping.len(),
{
    if mapping.len() == 0 {
        Map::empty()
    } else {
        let before = channels_of(buses, mapping.drop_last());
        let (channel, bus) = mapping.last();
        if has_bus(buses, bus@) {
            before.insert(text::id_of(channel@)->0, HandlerChannel { bus, webhook: None })
        } else {
            before
        }
    }
}

/// An action is to be relayed.
pub open spec fn action_started(
    channel: u64,
    pipo_id: i64,
    transport: Seq<char>,
    username: Seq<char>,
    message: Option<Seq<char>>,
    is_edit: bool,
) -> ProgressView {
    match message {
        Some(message) => {
            let content = jobs::action_content(username, transport, message);
            if is_edit {
                ProgressView::Ask(
                    CallView::DiscordId { pipo_id },
                    JobView::ActionId { channel, pipo_id, content },
                )
            } else {
                ProgressView::Ask(CallView::Say { channel, content }, JobView::Posted { pipo_id })
            }
        },
        None => ProgressView::Done(Err(BridgeError::EmptyMessage)),
    }
}

/// A message is to be deleted.
pub open spec fn delete_started(channel: u64, pipo_id: i64) -> ProgressView {
    ProgressView::Ask(CallView::DiscordId { pipo_id }, JobView::DeleteId { channel })
}

/// A message is to be pinned or unpinned.
pub open spec fn pin_started(channel: u64, pipo_id: i64, remove: bool) -> ProgressView {
    ProgressView::Ask(CallView::DiscordId { pipo_id }, JobView::PinId { channel, remove })
}

/// A reaction is to be added or taken back with an emoji of Unicode's where one was found. Any
/// other is looked for among the guild's own, and Discord is asked only where it is not known yet.
pub open spec fn reaction_with_found(
    emojis: Map<Seq<char>, GuildEmoji>,
    channel: u64,
    pipo_id: i64,
    emoji: Seq<char>,
    found: Option<Seq<char>>,
    remove: bool,
) -> ProgressView {
    match found {
        Some(found) => jobs::reacting(channel, pipo_id, ReactionTypeView::Unicode(found), remove),
        None => if emojis.contains_key(emoji) {
            jobs::reacting(channel, pipo_id, jobs::reaction_with(emojis[emoji]), remove)
        } else {
            ProgressView::Ask(
                CallView::GuildEmojis,
                JobView::ReactionEmojis { channel, pipo_id, emoji, remove },
            )
        },
    }
}

/// A reaction is to be added or taken back.
pub open spec fn reaction_started(
    emojis: Map<Seq<char>, GuildEmoji>,
    channel: u64,
    pipo_id: i64,
    emoji: Seq<char>,
    remove: bool,
) -> ProgressView {
    reaction_with_found(emojis, channel, pipo_id, emoji, outside::emoji_named(emoji), remove)
}

/// A message that came over the bus of a channel. The transport's own messages are passed over,
/// and so are those of bots and lists of names.
pub open spec fn dispatched(
    transport_id: usize,
    registry: Registry,
    emojis: Map<Seq<char>, GuildEmoji>,
    channel: u64,
    message: Message,
) -> ProgressView {
    if message@.sent_by() == transport_id {
        ProgressView::Done(Ok(()))
    } else {
        match message {
            Message::Action { pipo_id, transport, username, message, is_edit, .. } =>
            action_started(
                channel,
                pipo_id,
                transport@,
                username@,
                text::opt_text(message),
                is_edit,
            ),
            Message::Delete { pipo_id, .. } => delete_started(channel, pipo_id),
            Message::Pin { pipo_id, remove, .. } => pin_started(channel, pipo_id, remove),
            Message::Reaction { pipo_id, emoji, remove, .. } => reaction_started(
                emojis,
                channel,
                pipo_id,
                emoji@,
                remove,
            ),
            Message::Text {
                pipo_id,
                transport,
                username,
                avatar_url,
                thread,
                message,
                attachments,
                is_edit,
                ..
            } => jobs::text_started(
                registry,
                TextMessage {
                    channel,
                    pipo_id,
                    transport,
                    username,
                    avatar_url,
                    message,
                    attachments,
                    is_edit,
                },
                thread,
            ),
            Message::Bot { .. } => ProgressView::Done(Ok(())),
            Message::Names { .. } => ProgressView::Done(Ok(())),
        }
    }
}

/// What is left to be done is well formed.
pub open spec fn begins_well(progress: ProgressView) -> bool {
    progress matches ProgressView::Ask(_, job) ==> job.well_formed() && 0 < job.calls_left()
}

/// Every channel that is followed is joined to a bus that there is.
pub proof fn law_followed_channels_have_buses(
    buses: Seq<String>,
    mapping: Seq<(String, String)>,
    channel: u64,
)
    requires
        channels_of(buses, mapping).contains_key(channel),
    ensures
        has_bus(buses, channels_of(buses, mapping)[channel].bus@),
        channels_of(buses, mapping)[channel].webhook is None,
    decreases mapping.len(),
{
    if mapping.len() > 0 {
        let before = channels_of(buses, mapping.drop_last());
        let (name, bus) = mapping.last();
        if !(has_bus(buses, bus@) && text::id_of(name@)->0 == channel) {
            assert(before.contains_key(channel));
            law_followed_channels_have_buses(buses, mapping.drop_last(), channel);
        }
    }
}

fn knows_bus(buses: &Vec<String>, name: &String) -> (known: bool)
    ensures
        known == has_bus(buses@, name@),
{
    let mut i: usize = 0;
    while i < buses.len()
        invariant
            i <= buses@.len(),
            forall|j: int| 0 <= j < i ==> #[trigger] buses@[j]@ != name@,
        decreases buses@.len() - i,
    {
        if buses[i] == *name {
            assert(buses@[i as int]@ == name@);
            return true;
        }
        i = i + 1;
    }
    false
}

impl Discord {
    /// The transport for a mapping from channels to buses. Of two entries for one channel the
    /// later counts.
    pub fn new(
        transport_id: usize,
        buses: &Vec<String>,
        token: String,
        guild_id: u64,
        channel_mapping: &Vec<(String, String)>,
    ) -> (made: Result<Discord, BridgeError>)
        requires
            channels_have_ids(buses@, channel_mapping@),
        ensures
            made matches Ok(discord) && {
                &&& discord.transport_id == transport_id
                &&& discord.token == token
                &&& discord.guild == guild_id
                &&& discord.registry.channels() == channels_of(buses@, channel_mapping@)
                &&& discord.registry.threads() == Map::<u64, u64>::empty()
                &&& discord.registry.well_formed()
                &&& discord.emojis@ == Map::<Seq<char>, GuildEmoji>::empty()
            },
    {
        let mut channels: HashMap<u64, HandlerChannel> = HashMap::new();
        let mut i: usize = 0;
        assert(channel_mapping@.take(0) =~= Seq::<(String, String)>::empty());
        while i < channel_mapping.len()
            invariant
                i <= channel_mapping@.len(),
                channels_have_ids(buses@, channel_mapping@),
                channels@ == channels_of(buses@, channel_mapping@.take(i as int)),
            decreases channel_mapping@.len() - i,
        {
            assert(channel_mapping@.take(i + 1).drop_last() =~= channel_mapping@.take(i as int));
            let (channel, bus) = &channel_mapping[i];
            if knows_bus(buses, bus) {
                assert(has_bus(buses@, channel_mapping@[i as int].1@));
                if let Some(id) = parse_id(channel.as_str()) {
                    channels.insert(id, HandlerChannel { bus: bus.clone(), webhook: None });
                }
            }
            i = i + 1;
        }
        assert(channel_mapping@.take(i as int) =~= channel_mapping@);
        Ok(
            Discord {
                transport_id,
                token,
                guild: guild_id,
                registry: Registry::new(channels),
                emojis: StringHashMap::new(),
            },
        )
    }

    /// What is needed to run a connection.
    pub fn connect(&self) -> (connection: Connection)
        ensures
            connection.handler.transport_id == self.transport_id,
            connection.handler.pins@ == Set::<u64>::empty(),
            registry::is_subscription(connection.subscriptions@, self.registry.channels()),
    {
        Connection {
            handler: RealHandler::new(self.transport_id),
            subscriptions: self.registry.subscriptions(),
        }
    }

    /// Starts to relay an action.
    pub fn handle_action_message(
        &self,
        channel: u64,
        pipo_id: i64,
        transport: String,
        username: String,
        message: Option<String>,
        is_edit: bool,
    ) -> (progress: Progress)
        ensures
            progress@ == action_started(
                channel,
                pipo_id,
                transport@,
                username@,
                text::opt_text(message),
                is_edit,
            ),
            begins_well(progress@),
    {
        match message {
            Some(message) => {
                let content = push_italic(
                    jobs::head(username.as_str(), transport.as_str()),
                    message.as_str(),
                );
                if is_edit {
                    Progress::Ask(
                        Call::DiscordId { pipo_id },
                        Job::ActionId { channel, pipo_id, content },
                    )
                } else {
                    Progress::Ask(Call::Say { channel, content }, Job::Posted { pipo_id })
                }
            },
            None => Progress::Done(Err(BridgeError::EmptyMessage)),
        }
    }

    /// Starts to delete a message.
    pub fn handle_delete_message(&self, channel: u64, pipo_id: i64) -> (progress: Progress)
        ensures
            progress@ == delete_started(channel, pipo_id),
            begins_well(progress@),
    {
        Progress::Ask(Call::DiscordId { pipo_id }, Job::DeleteId { channel })
    }

    /// Starts to pin or unpin a message.
    pub fn handle_pin_message(&self, channel: u64, pipo_id: i64, remove: bool) -> (progress:
        Progress)
        ensures
            progress@ == pin_started(channel, pipo_id, remove),
            begins_well(progress@),
    {
        Progress::Ask(Call::DiscordId { pipo_id }, Job::PinId { channel, remove })
    }

    /// Starts to add a reaction or to take it back.
    pub fn handle_reaction_message(
        &self,
        channel: u64,
        pipo_id: i64,
        emoji: String,
        remove: bool,
    ) -> (progress: Progress)
        ensures
            progress@ == reaction_started(self.emojis@, channel, pipo_id, emoji@, remove),
            begins_well(progress@),
    {
        let found = lookup_emoji(emoji.as_str());
        self.react_with_found(channel, pipo_id, emoji, found, remove)
    }

    /// Starts to add a reaction or to take it back, where the emoji of Unicode's that goes by the
    /// name is given, if there is one.
    pub fn react_with_found(
        &self,
        channel: u64,
        pipo_id: i64,
        emoji: String,
        found: Option<String>,
        remove: bool,
    ) -> (progress: Progress)
        ensures
            progress@ == reaction_with_found(
                self.emojis@,
                channel,
                pipo_id,
                emoji@,
                text::opt_text(found),
                remove,
            ),
            begins_well(progress@),
    {
        let known = match found {
            Some(found) => Some(ReactionType::Unicode(found)),
            None => find_emoji(&self.emojis, emoji.as_str()),
        };
        match known {
            Some(emoji) => Progress::Ask(
                Call::DiscordId { pipo_id },
                Job::ReactionId { channel, emoji, remove },
            ),
            None => Progress::Ask(
                Call::GuildEmojis,
                Job::ReactionEmojis { channel, pipo_id, emoji, remove },
            ),
        }
    }

    /// Starts to relay a text.
    pub fn handle_text_message(
        &self,
        channel: u64,
        pipo_id: i64,
        transport: String,
        username: String,
        avatar_url: Option<String>,
        thread: Option<(Option<String>, Option<u64>)>,
        message: Option<String>,
        attachments: Option<Vec<Attachment>>,
        is_edit: bool,
    ) -> (progress: Progress)
        ensures
            progress@ == jobs::text_started(
                self.registry,
                (TextMessage {
                    channel,
                    pipo_id,
                    transport,
                    username,
                    avatar_url,
                    message,
                    attachments,
                    is_edit,
                }),
                thread,
            ),
            begins_well(progress@),
    {
        let text = TextMessage {
            channel,
            pipo_id,
            transport,
            username,
            avatar_url,
            message,
            attachments,
            is_edit,
        };
        start_text(&self.registry, text, thread)
    }

    /// Starts to relay a message that came over the bus of a channel.
    pub fn dispatch(&self, channel: u64, message: Message) -> (progress: Progress)
        ensures
            progress@ == dispatched(
                self.transport_id,
                self.registry,
                self.emojis@,
                channel,
                message,
            ),
            begins_well(progress@),
    {
        match message {
            Message::Action { sender, pipo_id, transport, username, message, is_edit, .. } => {
                if sender != self.transport_id {
                    return self.handle_action_message(
                        channel,
                        pipo_id,
                        transport,
                        username,
                        message,
                        is_edit,
                    );
                }
            },
            Message::Bot { .. } => {},
            Message::Delete { sender, pipo_id, .. } => {
                if sender != self.transport_id {
                    return self.handle_delete_message(channel, pipo_id);
                }
            },
            Message::Names { .. } => {},
            Message::Pin { sender, pipo_id, remove } => {
                if sender != self.transport_id {
                    return self.handle_pin_message(channel, pipo_id, remove);
                }
            },
            Message::Reaction { sender, pipo_id, emoji, remove, .. } => {
                if sender != self.transport_id {
                    return self.handle_reaction_message(channel, pipo_id, emoji, remove);
                }
            },
            Message::Text {
                sender,
                pipo_id,
                transport,
                username,
                avatar_url,
                thread,
                message,
                attachments,
                is_edit,
                ..
            } => {
                if sender != self.transport_id {
                    return self.handle_text_message(
                        channel,
                        pipo_id,
                        transport,
                        username,
                        avatar_url,
                        thread,
                        message,
                        attachments,
                        is_edit,
                    );
                }
            },
        }
        Progress::Done(Ok(()))
    }

    /// Goes on with the response to what a job has asked for.
    pub fn resume(&mut self, job: Job, response: Response) -> (progress: Progress)
        requires
            job@.well_formed(),
            job@.accepts(old(self).registry, response),
        ensures
            progress@ == jobs::job_resumed(
                old(self).registry,
                final(self).emojis@,
                job@,
                response,
            ),
            final(self).emojis@ == jobs::emojis_after(old(self).emojis@, job@, response),
            final(self).transport_id == old(self).transport_id,
            final(self).token == old(self).token,
            final(self).guild == old(self).guild,
            final(self).registry == old(self).registry,
            jobs::proceeds(progress@, job@.calls_left()),
    {
        job.resume(&self.registry, &mut self.emojis, response)
    }
}

} // verus!
