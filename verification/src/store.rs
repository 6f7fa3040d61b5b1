//! Writing a registration through to persistent storage: the steps of an
//! upsert, the collection they are specified against, and an in-memory
//! collection that behaves so.

use crate::db::{channel_views, Channel, ChannelInfo, ChannelRegistry, ChannelView};
use vstd::prelude::*;

verus! {

/// The index of the first record of `channel` in `store`, or the length of
/// `store` if it has none.
pub open spec fn position(store: Seq<ChannelView>, channel: u64) -> int
    decreases store.len(),
{
    if store.len() == 0 {
        0
    } else if store[0].channel_id == channel {
        0
    } else {
        1 + position(store.drop_first(), channel)
    }
}

/// Whether `store` has a record of `channel`.
pub open spec fn has_record(store: Seq<ChannelView>, channel: u64) -> bool {
    exists|i: int| 0 <= i < store.len() && (#[trigger] store[i]).channel_id == channel
}

/// Whether `store` has at most one record of `channel`.
pub open spec fn at_most_one(store: Seq<ChannelView>, channel: u64) -> bool {
    forall|i: int, j: int|
        0 <= i < store.len() && 0 <= j < store.len() && (#[trigger] store[i]).channel_id
            == channel && (#[trigger] store[j]).channel_id == channel ==> i == j
}

/// Whether `store` has exactly one record of `channel`, and that record tells
/// of the channel what `record` tells.
pub open spec fn exactly_one_like(store: Seq<ChannelView>, record: ChannelView) -> bool {
    exists|i: int|
        0 <= i < store.len() && (#[trigger] store[i]).channel_id == record.channel_id
            && store[i].info == record.info && store[i].time == record.time
            && forall|j: int|
            0 <= j < store.len() && (#[trigger] store[j]).channel_id == record.channel_id ==> j
                == i
}

/// A stored record after an update with `record`: the channel's name, flag
/// and time are the new ones, the document's identifier stays.
pub open spec fn revised(stored: ChannelView, record: ChannelView) -> ChannelView {
    ChannelView {
        channel_id: record.channel_id,
        info: record.info,
        time: record.time,
        id: stored.id,
    }
}

/// The collection after a conditional update: the first record of the
/// channel, if there is one, is revised; nothing else changes.
pub open spec fn updated(store: Seq<ChannelView>, record: ChannelView) -> Seq<ChannelView> {
    let at = position(store, record.channel_id);
    if at < store.len() {
        store.update(at, revised(store[at], record))
    } else {
        store
    }
}

/// The collection after an upsert: updated where the channel has a record,
/// else with `record` inserted after the others.
pub open spec fn upserted(store: Seq<ChannelView>, record: ChannelView) -> Seq<ChannelView> {
    if has_record(store, record.channel_id) {
        updated(store, record)
    } else {
        store.push(record)
    }
}

/// `position` is the least index of a record of the channel.
pub proof fn lemma_position(store: Seq<ChannelView>, channel: u64)
    ensures
        0 <= position(store, channel) <= store.len(),
        position(store, channel) < store.len() ==> store[position(store, channel)].channel_id
            == channel,
        forall|j: int|
            0 <= j < position(store, channel) ==> (#[trigger] store[j]).channel_id != channel,
        has_record(store, channel) == (position(store, channel) < store.len()),
    decreases store.len(),
{
    if store.len() > 0 && store[0].channel_id != channel {
        let rest = store.drop_first();
        lemma_position(rest, channel);
        assert forall|j: int|
            0 <= j < position(store, channel) implies (#[trigger] store[j]).channel_id
            != channel by {
            if j > 0 {
                assert(store[j] == rest[j - 1]);
            }
        }
        if position(rest, channel) < rest.len() {
            assert(store[position(store, channel)] == rest[position(rest, channel)]);
        }
        if has_record(store, channel) {
            let i = choose|i: int|
                0 <= i < store.len() && (#[trigger] store[i]).channel_id == channel;
            assert(rest[i - 1] == store[i]);
        }
    }
}

/// An upsert leaves exactly one record of its channel, with the upsert's
/// name, flag and time, provided the channel had at most one record before.
/// Every record of another channel stays where and as it was, and the
/// collection grows by one record only where the channel had none.
pub proof fn lemma_upsert_leaves_one(store: Seq<ChannelView>, record: ChannelView)
    requires
        at_most_one(store, record.channel_id),
    ensures
        exactly_one_like(upserted(store, record), record),
        at_most_one(upserted(store, record), record.channel_id),
        upserted(store, record).len() == if has_record(store, record.channel_id) {
            store.len()
        } else {
            store.len() + 1
        },
        forall|i: int|
            0 <= i < store.len() && (#[trigger] store[i]).channel_id != record.channel_id
                ==> upserted(store, record)[i] == store[i],
{
    let after = upserted(store, record);
    lemma_position(store, record.channel_id);
    if has_record(store, record.channel_id) {
        let at = position(store, record.channel_id);
        assert(after[at] == revised(store[at], record));
        assert forall|j: int|
            0 <= j < after.len() && (#[trigger] after[j]).channel_id == record.channel_id implies j
            == at by {
            if j != at {
                assert(after[j] == store[j]);
            }
        }
    } else {
        let at = store.len() as int;
        assert(after[at] == record);
        assert forall|j: int|
            0 <= j < after.len() && (#[trigger] after[j]).channel_id == record.channel_id implies j
            == at by {
            if j != at {
                assert(after[j] == store[j]);
            }
        }
    }
}

/// Upserting a channel twice leaves exactly one record of it, bearing what
/// the second upsert gave: an upsert updates, it does not duplicate.
pub proof fn lemma_upsert_twice(store: Seq<ChannelView>, first: ChannelView, second: ChannelView)
    requires
        first.channel_id == second.channel_id,
        at_most_one(store, first.channel_id),
    ensures
        exactly_one_like(upserted(upserted(store, first), second), second),
        upserted(upserted(store, first), second).len() == upserted(store, first).len(),
{
    lemma_upsert_leaves_one(store, first);
    let once = upserted(store, first);
    lemma_upsert_leaves_one(once, second);
    lemma_position(once, second.channel_id);
}

/// What is being awaited from the store during an upsert.
#[derive(Clone, Copy, Debug, PartialEq, Eq, Structural)]
pub enum UpsertState {
    /// The conditional update was sent.
    Updating,
    /// The insert was sent.
    Inserting,
}

/// What the store answered.
#[derive(Clone, Copy, Debug, PartialEq, Eq, Structural)]
pub enum StoreReply {
    /// The update ran; `matched` says whether a record of the channel was there.
    Updated { matched: bool },
    /// The insert ran.
    Inserted,
    /// The operation failed.
    Failed,
}

/// What to do next in an upsert.
#[derive(Clone, Copy, Debug, PartialEq, Eq, Structural)]
pub enum UpsertNext {
    /// Send the insert and await its answer.
    Insert,
    /// The registration is persisted: take it into the registry.
    Commit,
    /// The upsert failed: leave the registry as it is and tell the caller.
    Abort,
}

/// The next step of an upsert. An update that matched has persisted the
/// registration; one that matched nothing is followed by exactly one
/// insert; an insert that ran has persisted it. A failure, or an answer that
/// does not belong to what was sent, ends the upsert without a commit.
pub open spec fn next_step(state: UpsertState, reply: StoreReply) -> UpsertNext {
    match (state, reply) {
        (UpsertState::Updating, StoreReply::Updated { matched: true }) => UpsertNext::Commit,
        (UpsertState::Updating, StoreReply::Updated { matched: false }) => UpsertNext::Insert,
        (UpsertState::Inserting, StoreReply::Inserted) => UpsertNext::Commit,
        _ => UpsertNext::Abort,
    }
}

/// Decides the next step of an upsert from what was sent and what came back.
pub fn upsert_next(state: UpsertState, reply: StoreReply) -> (next: UpsertNext)
    ensures
        next == next_step(state, reply),
{
    match state {
        UpsertState::Updating => match reply {
            StoreReply::Updated { matched } => if matched {
                UpsertNext::Commit
            } else {
                UpsertNext::Insert
            },
            _ => UpsertNext::Abort,
        },
        UpsertState::Inserting => match reply {
            StoreReply::Inserted => UpsertNext::Commit,
            _ => UpsertNext::Abort,
        },
    }
}

/// The record that an upsert of `channel` with `info` at `time` writes.
pub fn upsert_record(channel: u64, info: &ChannelInfo, time: i64) -> (record: Channel)
    ensures
        record@ == (ChannelView { channel_id: channel, info: info@, time, id: None }),
{
    Channel { channel_id: channel, info: info.clone(), time, id: None }
}

/// A collection of registrations held in memory, which answers as the
/// persistent collection is specified to.
pub struct MemoryStore {
    records: Vec<Channel>,
}

impl View for MemoryStore {
    type V = Seq<ChannelView>;

    closed spec fn view(&self) -> Seq<ChannelView> {
        channel_views(self.records@)
    }
}

impl MemoryStore {
    /// An empty collection.
    pub fn new() -> (store: MemoryStore)
        ensures
            store@ == Seq::<ChannelView>::empty(),
    {
        let records: Vec<Channel> = Vec::new();
        assert(channel_views(records@) =~= Seq::<ChannelView>::empty());
        MemoryStore { records }
    }

    /// The number of records.
    pub fn len(&self) -> (n: usize)
        ensures
            n == self@.len(),
    {
        self.records.len()
    }

    /// A copy of every record, in order.
    pub fn find_all(&self) -> (records: Vec<Channel>)
        ensures
            channel_views(records@) == self@,
    {
        let records = self.records.clone();
        assert(channel_views(records@) =~= self@);
        records
    }

    /// The conditional update: revises the first record of the channel of
    /// `record`, if there is one, and says whether there was one.
    pub fn update_one(&mut self, record: &Channel) -> (reply: StoreReply)
        ensures
            final(self)@ == updated(old(self)@, record@),
            reply == (StoreReply::Updated { matched: has_record(old(self)@, record@.channel_id) }),
    {
        let ghost before = self@;
        proof {
            lemma_position(before, record@.channel_id);
        }
        let mut i: usize = 0;
        while i < self.records.len()
            invariant
                i <= self.records@.len(),
                self@ == before,
                before == old(self)@,
                forall|j: int|
                    0 <= j < i ==> (#[trigger] before[j]).channel_id != record@.channel_id,
            decreases self.records@.len() - i,
        {
            if self.records[i].channel_id == record.channel_id {
                assert(before[i as int].channel_id == record@.channel_id);
                assert(position(before, record@.channel_id) == i) by {
                    lemma_position(before, record@.channel_id);
                    let at = position(before, record@.channel_id);
                    if at < i {
                        assert(before[at].channel_id != record@.channel_id);
                    }
                }
                let revised = Channel {
                    channel_id: record.channel_id,
                    info: record.info.clone(),
                    time: record.time,
                    id: self.records[i].id,
                };
                self.records.set(i, revised);
                assert(self@ =~= updated(before, record@));
                return StoreReply::Updated { matched: true };
            }
            assert(before[i as int].channel_id != record@.channel_id);
            i += 1;
        }
        proof {
            lemma_position(before, record@.channel_id);
            let at = position(before, record@.channel_id);
            if at < before.len() {
                assert(before[at].channel_id != record@.channel_id);
            }
        }
        StoreReply::Updated { matched: false }
    }

    /// The insert: `record` is added after the others.
    pub fn insert_one(&mut self, record: Channel) -> (reply: StoreReply)
        ensures
            final(self)@ == old(self)@.push(record@),
            reply == StoreReply::Inserted,
    {
        self.records.push(record);
        assert(self@ =~= old(self)@.push(record@));
        StoreReply::Inserted
    }
}

impl ChannelRegistry {
    /// Ends an upsert: where the registration was persisted it is taken into
    /// the registry; otherwise the registry stays as it is. Returns whether
    /// it was taken.
    pub fn finish_upsert(&mut self, next: UpsertNext, channel: u64, info: ChannelInfo) -> (taken:
        bool)
        ensures
            taken == (next == UpsertNext::Commit),
            final(self)@ == if taken {
                old(self)@.insert(channel, info@)
            } else {
                old(self)@
            },
    {
        match next {
            UpsertNext::Commit => {
                self.insert(channel, info);
                true
            },
            _ => false,
        }
    }

    /// Registers `channel` with `info` at `time`: writes the registration
    /// through to `store` by a conditional update, followed by an insert only
    /// where the update matched nothing, and then takes it into the registry.
    pub fn upsert(&mut self, store: &mut MemoryStore, channel: u64, info: ChannelInfo, time: i64)
        ensures
            final(store)@ == upserted(
                old(store)@,
                ChannelView { channel_id: channel, info: info@, time, id: None },
            ),
            final(self)@ == old(self)@.insert(channel, info@),
    {
        let record = upsert_record(channel, &info, time);
        proof {
            lemma_position(store@, record@.channel_id);
        }
        let reply = store.update_one(&record);
        let mut next = upsert_next(UpsertState::Updating, reply);
        if let UpsertNext::Insert = next {
            let reply = store.insert_one(record);
            next = upsert_next(UpsertState::Inserting, reply);
        }
        self.finish_upsert(next, channel, info);
    }
}

} // verus!
