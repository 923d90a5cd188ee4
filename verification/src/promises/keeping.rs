//! What the transport keeps: channels, threads, emojis and ids.

use crate::discord;
use crate::handler;
use crate::inbound::GuildStatus;
use crate::jobs;
use crate::jobs::JobView;
use crate::message;
use crate::outbound::{GuildEmoji, Response};
use crate::registry;
use crate::registry::{HandlerChannel, Registry, ThreadInfo};
use crate::text;
use vstd::prelude::*;

verus! {

/// What happens in a followed channel goes to its own bus and belongs to no thread. What happens
/// in a thread of a followed channel goes to the bus of the channel and belongs to the thread.
/// What happens elsewhere goes nowhere.
pub proof fn law_routes_lead_to_the_channels_bus(registry: Registry, channel: u64)
    ensures
        registry.channels().contains_key(channel) ==> (registry.route(channel) matches Some(
            (bus, thread),
        ) && bus == registry.channels()[channel].bus && thread is None),
        !registry.channels().contains_key(channel) && registry.threads().contains_key(channel)
            ==> (registry.route(channel) matches Some((bus, thread)) && bus
            == registry.channels()[registry.threads()[channel]].bus && thread == Some(
            (None::<String>, Some(channel)),
        )),
        !registry.channels().contains_key(channel) && !registry.threads().contains_key(channel)
            ==> registry.route(channel) is None,
{
}

/// A webhook is posted through in its own channel alone.
pub proof fn law_webhooks_belong_to_their_channel(registry: Registry, channel: u64)
    ensures
        registry.channels().contains_key(channel) ==> registry.webhook(channel)
            == registry.channels()[channel].webhook,
        !registry.channels().contains_key(channel) ==> registry.webhook(channel) is None,
{
}

/// Where every thread belongs to a followed channel, what happens in a thread goes to a bus that a
/// followed channel is joined to.
pub proof fn law_known_threads_have_a_bus(registry: Registry, thread: u64)
    requires
        registry.well_formed(),
        registry.threads().contains_key(thread),
    ensures
        registry.route(thread) matches Some((bus, _)) && exists|c: u64| #[trigger]
            registry.channels().contains_key(c) && registry.channels()[c].bus == bus,
{
}

/// After threads have been announced, a thread is known where it was known before, or where one of
/// them bears its id and belongs to a followed channel. It belongs to the channel that the last
/// such one names. Here `last` is the place of that one, or -1.
pub proof fn law_announced_threads_are_known(
    threads: Map<u64, u64>,
    channels: Map<u64, HandlerChannel>,
    list: Seq<ThreadInfo>,
    thread: u64,
    last: int,
)
    requires
        -1 <= last < list.len(),
        last >= 0 ==> list[last].id == thread && list[last].parent is Some && channels.contains_key(
            list[last].parent->0,
        ),
        forall|k: int|
            last < k < list.len() ==> (#[trigger] list[k]).id != thread || list[k].parent is None
                || !channels.contains_key(list[k].parent->0),
    ensures
        ({
            let now = registry::threads_with(threads, channels, list);
            if last >= 0 {
                now.contains_key(thread) && now[thread] == list[last].parent->0
            } else {
                now.contains_key(thread) == threads.contains_key(thread) && now[thread]
                    == threads[thread]
            }
        }),
    decreases list.len(),
{
    if list.len() > 0 && last < list.len() - 1 {
        let front = list.drop_last();
        assert forall|k: int| last < k < front.len() implies (#[trigger] front[k]).id != thread
            || front[k].parent is None || !channels.contains_key(front[k].parent->0) by {
            assert(front[k] == list[k]);
        }
        if last >= 0 {
            assert(front[last] == list[last]);
        }
        law_announced_threads_are_known(threads, channels, front, thread, last);
        assert(list[list.len() - 1] == list.last());
    }
}

/// Guilds that are announced together count like guilds that are announced one after the other. A
/// guild that is online announces its threads, and any other announces nothing.
pub proof fn law_announced_guilds_add_up(
    threads: Map<u64, u64>,
    channels: Map<u64, HandlerChannel>,
    first: Seq<GuildStatus>,
    second: Seq<GuildStatus>,
    list: Vec<ThreadInfo>,
)
    ensures
        handler::threads_of_guilds(threads, channels, first + second)
            == handler::threads_of_guilds(
            handler::threads_of_guilds(threads, channels, first),
            channels,
            second,
        ),
        handler::threads_of_guilds(threads, channels, seq![GuildStatus::Other]) == threads,
        handler::threads_of_guilds(threads, channels, seq![GuildStatus::Online(list)])
            == registry::threads_with(threads, channels, list@),
        handler::threads_of_guilds(threads, channels, Seq::empty()) == threads,
    decreases second.len(),
{
    reveal_with_fuel(handler::threads_of_guilds, 2);
    assert(seq![GuildStatus::Other].drop_last() =~= Seq::<GuildStatus>::empty());
    assert(seq![GuildStatus::Online(list)].drop_last() =~= Seq::<GuildStatus>::empty());
    if second.len() == 0 {
        assert(first + second =~= first);
    } else {
        law_announced_guilds_add_up(threads, channels, first, second.drop_last(), list);
        assert((first + second).drop_last() =~= first + second.drop_last());
        assert((first + second).last() == second.last());
    }
}

/// A connection listens once for each followed channel, on the channel's own bus, and on nothing
/// else.
pub proof fn law_each_channel_is_listened_for_once(
    list: Seq<(u64, String)>,
    channels: Map<u64, HandlerChannel>,
)
    requires
        registry::is_subscription(list, channels),
    ensures
        forall|i: int|
            0 <= i < list.len() ==> channels.contains_key((#[trigger] list[i]).0) && list[i].1
                == channels[list[i].0].bus,
        forall|c: u64| #[trigger]
            channels.contains_key(c) ==> exists|i: int|
                0 <= i < list.len() && (#[trigger] list[i]).0 == c,
        forall|i: int, j: int|
            0 <= i < j < list.len() ==> (#[trigger] list[i]).0 != (#[trigger] list[j]).0,
{
    assert forall|i: int| 0 <= i < list.len() implies channels.contains_key((#[trigger] list[i]).0)
        && list[i].1 == channels[list[i].0].bus by {
        assert(list.contains((list[i].0, list[i].1)));
    }
    assert forall|c: u64| #[trigger] channels.contains_key(c) implies exists|i: int|
        0 <= i < list.len() && (#[trigger] list[i]).0 == c by {
        assert(list.contains((c, channels[c].bus)));
        let i = choose|i: int| 0 <= i < list.len() && list[i] == (c, channels[c].bus);
        assert(list[i].0 == c);
    }
    assert forall|i: int, j: int| 0 <= i < j < list.len() implies (#[trigger] list[i]).0 != (
    #[trigger] list[j]).0 by {
        assert(list[i] != list[j]);
    }
}

/// The channels without a webhook are those that are followed and have none, each once.
pub proof fn law_unhooked_channels_have_no_webhook(
    list: Seq<u64>,
    channels: Map<u64, HandlerChannel>,
)
    requires
        registry::is_unhooked(list, channels),
    ensures
        forall|c: u64| #[trigger]
            list.contains(c) <==> channels.contains_key(c) && channels[c].webhook is None,
        forall|i: int, j: int|
            0 <= i < j < list.len() ==> (#[trigger] list[i]) != (#[trigger] list[j]),
{
}

/// A channel is followed where an entry of the mapping spells its id and names a bus that there
/// is. It is joined to the bus that the last such entry names, and has no webhook yet. Here `last`
/// is the place of that entry, or -1.
pub proof fn law_mapped_channels_are_followed(
    buses: Seq<String>,
    mapping: Seq<(String, String)>,
    channel: u64,
    last: int,
)
    requires
        discord::channels_have_ids(buses, mapping),
        -1 <= last < mapping.len(),
        last >= 0 ==> text::id_of(mapping[last].0@) == Some(channel) && exists|j: int|
            0 <= j < buses.len() && (#[trigger] buses[j])@ == mapping[last].1@,
        forall|k: int|
            last < k < mapping.len() ==> text::id_of((#[trigger] mapping[k]).0@) != Some(channel)
                || forall|j: int|
                0 <= j < buses.len() ==> (#[trigger] buses[j])@ != mapping[k].1@,
    ensures
        ({
            let channels = discord::channels_of(buses, mapping);
            if last >= 0 {
                channels.contains_key(channel) && channels[channel].bus == mapping[last].1
                    && channels[channel].webhook is None
            } else {
                !channels.contains_key(channel)
            }
        }),
    decreases mapping.len(),
{
    if mapping.len() > 0 {
        let end = mapping.len() - 1;
        if last == end {
            assert(discord::has_bus(buses, mapping[end].1@));
        } else {
            let front = mapping.drop_last();
            assert forall|k: int| last < k < front.len() implies text::id_of(
                (#[trigger] front[k]).0@,
            ) != Some(channel) || forall|j: int|
                0 <= j < buses.len() ==> (#[trigger] buses[j])@ != front[k].1@ by {
                assert(front[k] == mapping[k]);
            }
            assert forall|i: int|
                0 <= i < front.len() && discord::has_bus(
                    buses,
                    (#[trigger] front[i]).1@,
                ) implies text::id_of(front[i].0@) is Some by {
                assert(front[i] == mapping[i]);
            }
            if last >= 0 {
                assert(front[last] == mapping[last]);
            }
            law_mapped_channels_are_followed(buses, front, channel, last);
            if discord::has_bus(buses, mapping[end].1@) {
                let j = choose|j: int|
                    0 <= j < buses.len() && #[trigger] buses[j]@ == mapping[end].1@;
                assert(buses[j]@ == mapping[end].1@);
                assert(text::id_of(mapping[end].0@) is Some);
                assert(text::id_of(mapping[end].0@) != Some(channel));
            }
        }
    }
}

/// After the guild's emojis have been listed, an emoji is known where one of the list bears its
/// name, and it is the last such one. What was known before is forgotten. Here `last` is the
/// place of that one, or -1.
pub proof fn law_listed_emojis_are_known(
    known: Map<Seq<char>, GuildEmoji>,
    channel: u64,
    pipo_id: i64,
    wanted: Seq<char>,
    remove: bool,
    list: Vec<GuildEmoji>,
    name: Seq<char>,
    last: int,
)
    requires
        -1 <= last < list@.len(),
        last >= 0 ==> list@[last].name@ == name,
        forall|k: int| last < k < list@.len() ==> (#[trigger] list@[k]).name@ != name,
    ensures
        ({
            let now = jobs::emojis_after(
                known,
                JobView::ReactionEmojis { channel, pipo_id, emoji: wanted, remove },
                Response::Emojis(list),
            );
            if last >= 0 {
                now.contains_key(name) && now[name] == list@[last]
            } else {
                !now.contains_key(name)
            }
        }),
{
    lemma_by_name(list@, name, last);
}

proof fn lemma_by_name(list: Seq<GuildEmoji>, name: Seq<char>, last: int)
    requires
        -1 <= last < list.len(),
        last >= 0 ==> list[last].name@ == name,
        forall|k: int| last < k < list.len() ==> (#[trigger] list[k]).name@ != name,
    ensures
        ({
            let now = jobs::emojis_by_name(list);
            if last >= 0 {
                now.contains_key(name) && now[name] == list[last]
            } else {
                !now.contains_key(name)
            }
        }),
    decreases list.len(),
{
    if list.len() > 0 && last < list.len() - 1 {
        let front = list.drop_last();
        assert forall|k: int| last < k < front.len() implies (#[trigger] front[k]).name@
            != name by {
            assert(front[k] == list[k]);
        }
        if last >= 0 {
            assert(front[last] == list[last]);
        }
        lemma_by_name(front, name, last);
        assert(list[list.len() - 1] == list.last());
    }
}

/// Nothing but a list of the guild's emojis that was asked for changes the emojis that are known.
pub proof fn law_emojis_stay_known(
    known: Map<Seq<char>, GuildEmoji>,
    job: JobView,
    response: Response,
)
    requires
        job !is ReactionEmojis || response !is Emojis,
    ensures
        jobs::emojis_after(known, job, response) == known,
{
}

/// The ids count up by one, from zero to forty thousand, and then start again.
pub proof fn law_ids_count_up(id: int)
    ensures
        id < 40000 ==> message::pipo_id_after(id) == id + 1,
        id >= 40000 ==> message::pipo_id_after(id) == 0,
{
}

/// An id that was given to a message is used up where the message was stored, and given out again
/// where it was not.
pub proof fn law_ids_are_used_up_by_what_is_stored(id: int)
    ensures
        0 <= id < 40000 ==> message::counted(id, true) == id + 1,
        id >= 40000 ==> message::counted(id, true) == 0,
        message::counted(id, false) == id,
{
}

/// A text that may be missing is what it is where it is there.
pub proof fn law_optional_texts_are_themselves(text: String)
    ensures
        text::opt_text(Some(text)) == Some(text@),
        text::opt_text(None) is None,
{
}

} // verus!
