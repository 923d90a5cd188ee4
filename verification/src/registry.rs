//! The channels that the bridge follows, and the threads that belong to them.

use crate::text;
use std::collections::HashMap;
use vstd::prelude::*;

verus! {

/// A followed channel: the bus that it is joined to, and the webhook to post through, if any.
#[derive(PartialEq, Eq, Debug)]
pub struct HandlerChannel {
    pub bus: String,
    pub webhook: Option<u64>,
}

/// A thread, and the channel that it was opened in.
#[derive(Clone, Copy, PartialEq, Eq, Debug)]
pub struct ThreadInfo {
    pub id: u64,
    pub parent: Option<u64>,
}

/// The followed channels by id, and for each known thread the channel that it belongs to.
#[derive(Debug)]
pub struct Registry {
    channels: HashMap<u64, HandlerChannel>,
    threads: HashMap<u64, u64>,
}

/// The threads known after a list of threads has been announced: those of followed channels are
/// added, in the order of the list.
pub open spec fn threads_with(
    threads: Map<u64, u64>,
    channels: Map<u64, HandlerChannel>,
    list: Seq<ThreadInfo>,
) -> Map<u64, u64>
    decreases list.len(),
{
    if list.len() == 0 {
        threads
    } else {
        let before = threads_with(threads, channels, list.drop_last());
        match list.last().parent {
            Some(parent) if channels.contains_key(parent) => before.insert(list.last().id, parent),
            _ => before,
        }
    }
}

/// Every thread belongs to a followed channel.
pub open spec fn all_followed(
    threads: Map<u64, u64>,
    channels: Map<u64, HandlerChannel>,
) -> bool {
    forall|t: u64| #[trigger] threads.contains_key(t) ==> channels.contains_key(threads[t])
}

/// The list holds the followed channels with their buses, each once.
pub open spec fn is_subscription(
    list: Seq<(u64, String)>,
    channels: Map<u64, HandlerChannel>,
) -> bool {
    &&& list.no_duplicates()
    &&& forall|c: u64, bus: String| #[trigger]
        list.contains((c, bus)) <==> channels.contains_key(c) && channels[c].bus == bus
}

/// The list holds the followed channels without a webhook, each once.
pub open spec fn is_unhooked(list: Seq<u64>, channels: Map<u64, HandlerChannel>) -> bool {
    &&& list.no_duplicates()
    &&& forall|c: u64| #[trigger]
        list.contains(c) <==> channels.contains_key(c) && channels[c].webhook is None
}

impl Registry {
    /// The followed channels by id.
    pub closed spec fn channels(self) -> Map<u64, HandlerChannel> {
        self.channels@
    }

    /// For each known thread the channel that it belongs to.
    pub closed spec fn threads(self) -> Map<u64, u64> {
        self.threads@
    }

    /// Every known thread belongs to a followed channel.
    pub open spec fn well_formed(self) -> bool {
        all_followed(self.threads(), self.channels())
    }

    /// The bus that a channel or thread is joined to, and the thread where it is one.
    pub open spec fn route(self, channel: u64) -> Option<
        (String, Option<(Option<String>, Option<u64>)>),
    > {
        if self.channels().contains_key(channel) {
            Some((self.channels()[channel].bus, None))
        } else if self.threads().contains_key(channel) {
            Some((self.channels()[self.threads()[channel]].bus, Some((None, Some(channel)))))
        } else {
            None
        }
    }

    /// The webhook to post through in a channel.
    pub open spec fn webhook(self, channel: u64) -> Option<u64> {
        if self.channels().contains_key(channel) {
            self.channels()[channel].webhook
        } else {
            None
        }
    }

    /// A registry of followed channels that knows of no threads.
    pub fn new(channels: HashMap<u64, HandlerChannel>) -> (registry: Registry)
        ensures
            registry.channels() == channels@,
            registry.threads() == Map::<u64, u64>::empty(),
            registry.well_formed(),
    {
        Registry { channels, threads: HashMap::new() }
    }

    /// Whether a channel is followed.
    pub fn follows(&self, channel_id: u64) -> (followed: bool)
        ensures
            followed == self.channels().contains_key(channel_id),
    {
        self.channels.contains_key(&channel_id)
    }

    /// For each known thread the channel that it belongs to.
    pub fn known_threads(&self) -> (threads: &HashMap<u64, u64>)
        ensures
            threads@ == self.threads(),
    {
        &self.threads
    }

    /// Adds a thread of a followed channel.
    pub fn follow_thread(&mut self, id: u64, parent: u64)
        requires
            old(self).well_formed(),
            old(self).channels().contains_key(parent),
        ensures
            final(self).channels() == old(self).channels(),
            final(self).threads() == old(self).threads().insert(id, parent),
            final(self).well_formed(),
    {
        self.threads.insert(id, parent);
    }

    /// The bus to send on for what happens in a channel or thread that is followed. For a thread,
    /// `thread` is set to it.
    pub fn get_sender_and_thread(
        &self,
        channel_id: u64,
        thread: &mut Option<(Option<String>, Option<u64>)>,
    ) -> (bus: Option<String>)
        requires
            self.well_formed(),
        ensures
            match self.route(channel_id) {
                None => bus is None && *final(thread) == *old(thread),
                Some((name, in_thread)) => bus == Some(name) && *final(thread) == (if in_thread
                    is Some {
                    in_thread
                } else {
                    *old(thread)
                }),
            },
    {
        match self.channels.get(&channel_id) {
            Some(channel) => Some(channel.bus.clone()),
            None => match self.threads.get(&channel_id) {
                Some(parent) => {
                    *thread = Some((None, Some(channel_id)));
                    match self.channels.get(parent) {
                        Some(channel) => Some(channel.bus.clone()),
                        None => None,
                    }
                },
                None => None,
            },
        }
    }

    /// The webhook of a channel, if it is followed and has one.
    pub fn webhook_of(&self, channel_id: u64) -> (webhook: Option<u64>)
        ensures
            webhook == self.webhook(channel_id),
    {
        match self.channels.get(&channel_id) {
            Some(channel) => channel.webhook,
            None => None,
        }
    }

    /// Adds the threads of a list that belong to followed channels.
    pub fn follow_threads(&mut self, list: &Vec<ThreadInfo>)
        ensures
            final(self).channels() == old(self).channels(),
            final(self).threads() == threads_with(
                old(self).threads(),
                old(self).channels(),
                list@,
            ),
            old(self).well_formed() ==> final(self).well_formed(),
    {
        let mut i: usize = 0;
        assert(list@.take(0) =~= Seq::<ThreadInfo>::empty());
        while i < list.len()
            invariant
                i <= list@.len(),
                self.channels() == old(self).channels(),
                self.threads() == threads_with(
                    old(self).threads(),
                    old(self).channels(),
                    list@.take(i as int),
                ),
                old(self).well_formed() ==> self.well_formed(),
            decreases list@.len() - i,
        {
            let ghost before = self.threads();
            assert(list@.take(i + 1).drop_last() =~= list@.take(i as int));
            if let Some(parent) = list[i].parent {
                if self.channels.contains_key(&parent) {
                    self.threads.insert(list[i].id, parent);
                }
            }
            i = i + 1;
        }
        assert(list@.take(i as int) =~= list@);
    }

    /// The followed channels, each once.
    fn followed(&self) -> (ids: Vec<u64>)
        ensures
            ids@.no_duplicates(),
            forall|c: u64| #[trigger] ids@.contains(c) <==> self.channels().contains_key(c),
    {
        let mut ids: Vec<u64> = Vec::new();
        for id in it: self.channels.keys()
            invariant
                it.seq().unref().to_set() == self.channels().dom(),
                it.seq().no_duplicates(),
                ids@ == it.seq().unref().take(it.index()),
        {
            ids.push(*id);
        }
        proof {
            let keys = vstd::std_specs::hash::spec_keys_iter(&self.channels);
            let seq = vstd::std_specs::iter::IteratorSpec::remaining(&keys);
            assert(ids@ =~= seq.unref());
            assert forall|i: int, j: int|
                0 <= i < ids@.len() && 0 <= j < ids@.len() && i != j implies ids@[i] != ids@[j] by {
                assert(seq[i] != seq[j]);
            }
            assert forall|c: u64| #[trigger] ids@.contains(c) <==> self.channels().contains_key(
                c,
            ) by {
                assert(ids@.to_set().contains(c) <==> ids@.contains(c));
            }
        }
        ids
    }

    /// The followed channels, each once, with their buses.
    pub fn subscriptions(&self) -> (list: Vec<(u64, String)>)
        ensures
            is_subscription(list@, self.channels()),
    {
        let ids = self.followed();
        let mut list: Vec<(u64, String)> = Vec::new();
        let mut i: usize = 0;
        while i < ids.len()
            invariant
                i <= ids@.len(),
                ids@.no_duplicates(),
                forall|c: u64| #[trigger] ids@.contains(c) <==> self.channels().contains_key(c),
                list@.len() == i,
                forall|j: int|
                    0 <= j < i ==> #[trigger] list@[j] == (
                        ids@[j],
                        self.channels()[ids@[j]].bus,
                    ),
            decreases ids@.len() - i,
        {
            assert(ids@.contains(ids@[i as int]));
            if let Some(channel) = self.channels.get(&ids[i]) {
                list.push((ids[i], channel.bus.clone()));
            }
            i = i + 1;
        }
        proof {
            assert forall|c: u64, bus: String| #[trigger] list@.contains((c, bus)) <==> (
            self.channels().contains_key(c) && self.channels()[c].bus == bus) by {
                if list@.contains((c, bus)) {
                    let j = choose|j: int| 0 <= j < list@.len() && list@[j] == (c, bus);
                    assert(ids@.contains(ids@[j]));
                }
                if self.channels().contains_key(c) {
                    assert(ids@.contains(c));
                    let j = choose|j: int| 0 <= j < ids@.len() && ids@[j] == c;
                    assert(list@[j] == (c, self.channels()[c].bus));
                }
            }
        }
        list
    }

    /// The followed channels without a webhook, each once.
    pub fn unhooked(&self) -> (list: Vec<u64>)
        ensures
            is_unhooked(list@, self.channels()),
    {
        let ids = self.followed();
        let mut list: Vec<u64> = Vec::new();
        let mut i: usize = 0;
        while i < ids.len()
            invariant
                i <= ids@.len(),
                ids@.no_duplicates(),
                forall|c: u64| #[trigger] ids@.contains(c) <==> self.channels().contains_key(c),
                list@.no_duplicates(),
                forall|c: u64| #[trigger]
                    list@.contains(c) <==> ids@.take(i as int).contains(c)
                        && self.channels()[c].webhook is None,
            decreases ids@.len() - i,
        {
            let id = ids[i];
            proof {
                let front = ids@.take(i as int);
                assert(ids@.take(i + 1) =~= front.push(id));
                text::lemma_contains_push(front, id);
                text::lemma_contains_push(list@, id);
                if front.contains(id) {
                    let k = choose|k: int| 0 <= k < front.len() && front[k] == id;
                    assert(ids@[k] == ids@[i as int]);
                }
                assert(ids@.contains(ids@[i as int]));
                assert(!list@.contains(id));
            }
            if let Some(channel) = self.channels.get(&id) {
                if channel.webhook.is_none() {
                    list.push(id);
                }
            }
            i = i + 1;
        }
        assert(ids@.take(i as int) =~= ids@);
        list
    }

    /// Takes the webhook of a followed channel away.
    pub fn clear_webhook(&mut self, channel_id: u64)
        ensures
            final(self).threads() == old(self).threads(),
            final(self).channels() == (if old(self).channels().contains_key(channel_id) {
                old(self).channels().insert(
                    channel_id,
                    (HandlerChannel { webhook: None, ..old(self).channels()[channel_id] }),
                )
            } else {
                old(self).channels()
            }),
            old(self).well_formed() ==> final(self).well_formed(),
    {
        if let Some(channel) = self.channels.get(&channel_id) {
            let bus = channel.bus.clone();
            self.channels.insert(channel_id, HandlerChannel { bus, webhook: None });
        }
    }
}

/// Announcing threads keeps every known thread in a followed channel.
pub proof fn law_threads_stay_in_followed_channels(
    threads: Map<u64, u64>,
    channels: Map<u64, HandlerChannel>,
    list: Seq<ThreadInfo>,
)
    requires
        all_followed(threads, channels),
    ensures
        all_followed(threads_with(threads, channels, list), channels),
    decreases list.len(),
{
    if list.len() > 0 {
        let before = threads_with(threads, channels, list.drop_last());
        law_threads_stay_in_followed_channels(threads, channels, list.drop_last());
        let now = threads_with(threads, channels, list);
        assert forall|t: u64| #[trigger] now.contains_key(t) implies channels.contains_key(
            now[t],
        ) by {
            if t != list.last().id {
                assert(before.contains_key(t));
            }
            if before.contains_key(t) {
                assert(channels.contains_key(before[t]));
            }
        }
    }
}

/// What is announced overrides what was known, and nothing else does.
proof fn lemma_announced_overrides(
    threads: Map<u64, u64>,
    channels: Map<u64, HandlerChannel>,
    list: Seq<ThreadInfo>,
)
    ensures
        threads_with(threads, channels, list) == threads.union_prefer_right(
            threads_with(Map::empty(), channels, list),
        ),
    decreases list.len(),
{
    if list.len() > 0 {
        lemma_announced_overrides(threads, channels, list.drop_last());
    }
    assert(threads_with(threads, channels, list) =~= threads.union_prefer_right(
        threads_with(Map::empty(), channels, list),
    ));
}

/// Announcing the same threads again changes nothing.
pub proof fn law_announcing_again_changes_nothing(
    threads: Map<u64, u64>,
    channels: Map<u64, HandlerChannel>,
    list: Seq<ThreadInfo>,
)
    ensures
        threads_with(threads_with(threads, channels, list), channels, list) == threads_with(
            threads,
            channels,
            list,
        ),
{
    let once = threads_with(threads, channels, list);
    lemma_announced_overrides(threads, channels, list);
    lemma_announced_overrides(once, channels, list);
    assert(threads_with(once, channels, list) =~= once);
}

} // verus!
