//! Channel registrations as they are persisted and as they are held in memory.

use crate::shared::{
    channel_entries, channels_get, channels_insert, channels_len, channels_with_capacity,
    CAPACITY_MAX,
};
use crate::text::names;
use dashmap::DashMap;
use vstd::prelude::*;

verus! {

/// What is known of a registered channel.
#[derive(Debug, PartialEq, Eq)]
pub struct ChannelInfo {
    pub name: String,
    /// Whether sensitive content may be delivered to the channel.
    pub nsfw: bool,
}

/// What a [`ChannelInfo`] holds, as mathematical values.
pub struct ChannelInfoView {
    pub name: Seq<char>,
    pub nsfw: bool,
}

impl View for ChannelInfo {
    type V = ChannelInfoView;

    open spec fn view(&self) -> ChannelInfoView {
        ChannelInfoView { name: self.name@, nsfw: self.nsfw }
    }
}

impl Clone for ChannelInfo {
    fn clone(&self) -> (r: Self)
        ensures
            r@ == self@,
    {
        ChannelInfo { name: self.name.clone(), nsfw: self.nsfw }
    }
}

/// The identifier that the document store gives a document.
#[derive(Clone, Copy, Debug, PartialEq, Eq)]
pub struct ObjectId {
    pub bytes: [u8; 12],
}

/// A channel registration as it is persisted.
#[derive(Debug, PartialEq, Eq)]
pub struct Channel {
    pub channel_id: u64,
    pub info: ChannelInfo,
    /// When the channel was last registered, in seconds since the Unix epoch.
    pub time: i64,
    /// The document's identifier, once the store has given it one.
    pub id: Option<ObjectId>,
}

/// What a [`Channel`] holds, as mathematical values.
pub struct ChannelView {
    pub channel_id: u64,
    pub info: ChannelInfoView,
    pub time: i64,
    pub id: Option<ObjectId>,
}

impl View for Channel {
    type V = ChannelView;

    open spec fn view(&self) -> ChannelView {
        ChannelView { channel_id: self.channel_id, info: self.info@, time: self.time, id: self.id }
    }
}

impl Clone for Channel {
    fn clone(&self) -> (r: Self)
        ensures
            r@ == self@,
    {
        Channel {
            channel_id: self.channel_id,
            info: self.info.clone(),
            time: self.time,
            id: self.id,
        }
    }
}

/// A channel that has banned a source.
#[derive(Debug, PartialEq, Eq)]
pub struct BannedSub {
    pub channel_id: u64,
    pub subreddit: String,
    /// The document's identifier, once the store has given it one.
    pub id: Option<ObjectId>,
}

/// The views of a sequence of records, in order.
pub open spec fn channel_views(records: Seq<Channel>) -> Seq<ChannelView> {
    records.map_values(|c: Channel| c@)
}

/// Why a scanned document gave no registration.
#[derive(Debug, PartialEq, Eq)]
pub enum ScanFailure {
    /// The document could not be read from the store.
    Unread,
    /// The document was read and is no registration; `reason` says why.
    Malformed { reason: String },
}

/// One scanned document as mathematical values: the registration it holds,
/// or, where it holds none, the reason if one is to be reported.
pub enum ScanView {
    Read(ChannelView),
    Unread,
    Malformed(Seq<char>),
}

/// The view of one scanned document.
pub open spec fn scan_view(scanned: Result<Channel, ScanFailure>) -> ScanView {
    match scanned {
        Ok(channel) => ScanView::Read(channel@),
        Err(ScanFailure::Unread) => ScanView::Unread,
        Err(ScanFailure::Malformed { reason }) => ScanView::Malformed(reason@),
    }
}

/// The views of a sequence of scanned documents, in order.
pub open spec fn scan_views(scanned: Seq<Result<Channel, ScanFailure>>) -> Seq<ScanView> {
    scanned.map_values(|s: Result<Channel, ScanFailure>| scan_view(s))
}

/// The registry that a scan gives: every registration that was read is in
/// it, a later one in place of an earlier one of the same channel; what
/// could not be read or is malformed is left out.
pub open spec fn loaded(scanned: Seq<ScanView>) -> Map<u64, ChannelInfoView>
    decreases scanned.len(),
{
    if scanned.len() == 0 {
        Map::empty()
    } else {
        match scanned.last() {
            ScanView::Read(channel) => loaded(scanned.drop_last()).insert(
                channel.channel_id,
                channel.info,
            ),
            _ => loaded(scanned.drop_last()),
        }
    }
}

/// The reasons of the malformed documents of a scan, in order.
pub open spec fn malformed_reasons(scanned: Seq<ScanView>) -> Seq<Seq<char>>
    decreases scanned.len(),
{
    if scanned.len() == 0 {
        Seq::empty()
    } else {
        match scanned.last() {
            ScanView::Malformed(reason) => malformed_reasons(scanned.drop_last()).push(reason),
            _ => malformed_reasons(scanned.drop_last()),
        }
    }
}

/// The in-memory registry: what is known of each registered channel.
pub struct ChannelRegistry {
    map: DashMap<u64, ChannelInfo>,
}

impl View for ChannelRegistry {
    type V = Map<u64, ChannelInfoView>;

    closed spec fn view(&self) -> Map<u64, ChannelInfoView> {
        channel_entries(self.map)
    }
}

/// What a scan of the persisted registrations gave.
pub struct Loaded {
    pub channels: ChannelRegistry,
    /// The reasons of the documents that were skipped as malformed, in order.
    pub malformed: Vec<String>,
}

impl ChannelRegistry {
    #[verifier::type_invariant]
    spec fn finite(self) -> bool {
        channel_entries(self.map).dom().finite()
    }

    /// An empty registry with room for `capacity` channels, or for
    /// `CAPACITY_MAX` where more is asked for; it grows as it is filled.
    pub fn with_capacity(capacity: usize) -> (registry: ChannelRegistry)
        ensures
            registry@ == Map::<u64, ChannelInfoView>::empty(),
    {
        let room = if capacity <= CAPACITY_MAX {
            capacity
        } else {
            CAPACITY_MAX
        };
        ChannelRegistry { map: channels_with_capacity(room) }
    }

    /// The number of registered channels.
    pub fn len(&self) -> (n: usize)
        ensures
            self@.dom().finite(),
            n == self@.dom().len(),
    {
        proof {
            use_type_invariant(self);
        }
        channels_len(&self.map)
    }

    /// What is known of `channel`, if it is registered.
    pub fn get(&self, channel: u64) -> (info: Option<ChannelInfo>)
        ensures
            info is Some == self@.contains_key(channel),
            info matches Some(known) ==> known@ == self@[channel],
    {
        channels_get(&self.map, channel)
    }

    /// Registers `channel` with `info`, in place of what was known of it. No
    /// other channel changes.
    pub fn insert(&mut self, channel: u64, info: ChannelInfo)
        ensures
            final(self)@ == old(self)@.insert(channel, info@),
    {
        proof {
            use_type_invariant(&*self);
        }
        channels_insert(&mut self.map, channel, info);
    }
}

/// Builds the registry from a scan of the persisted registrations. A document
/// that could not be read or is malformed is skipped and does not end the
/// scan; the reasons of the malformed ones are handed back for the log.
pub fn all_channels(scanned: Vec<Result<Channel, ScanFailure>>) -> (result: Loaded)
    ensures
        result.channels@ == loaded(scan_views(scanned@)),
        names(result.malformed@) == malformed_reasons(scan_views(scanned@)),
{
    let mut channels = ChannelRegistry::with_capacity(scanned.len());
    let mut malformed: Vec<String> = Vec::new();
    assert(names(malformed@) =~= Seq::<Seq<char>>::empty());
    let ghost all = scanned@;
    for one in it: scanned
        invariant
            it.seq() == all,
            channels@ == loaded(scan_views(it.seq().take(it.index() as int))),
            names(malformed@) == malformed_reasons(
                scan_views(it.seq().take(it.index() as int)),
            ),
    {
        let ghost done = it.seq().take(it.index() as int);
        let ghost next = it.seq().take(it.index() + 1);
        let ghost reasons = malformed@;
        proof {
            assert(next.drop_last() =~= done);
            assert(scan_views(next).drop_last() =~= scan_views(done));
            assert(scan_views(next).last() == scan_view(one));
        }
        match one {
            Ok(channel) => {
                channels.insert(channel.channel_id, channel.info);
            },
            Err(ScanFailure::Unread) => {},
            Err(ScanFailure::Malformed { reason }) => {
                malformed.push(reason);
                assert(names(malformed@) =~= names(reasons).push(
                    reason@,
                ));
            },
        }
    }
    assert(all.take(all.len() as int) =~= all);
    Loaded { channels, malformed }
}

} // verus!
