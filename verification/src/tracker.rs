//! The last item delivered to each channel.

use crate::post::{PostView, QuickPost};
use crate::shared::{item_entries, items_get, items_insert, items_new};
use dashmap::DashMap;
use vstd::prelude::*;

verus! {

/// Per-channel record of the most recent delivery.
pub struct DeliveryTracker {
    map: DashMap<u64, QuickPost>,
}

impl View for DeliveryTracker {
    type V = Map<u64, PostView>;

    closed spec fn view(&self) -> Map<u64, PostView> {
        item_entries(self.map)
    }
}

impl DeliveryTracker {
    /// A tracker with no record.
    pub fn new() -> (tracker: DeliveryTracker)
        ensures
            tracker@ == Map::<u64, PostView>::empty(),
    {
        DeliveryTracker { map: items_new() }
    }

    /// The item last delivered to `channel`, if any was.
    pub fn last(&self, channel: u64) -> (item: Option<QuickPost>)
        ensures
            item is Some == self@.contains_key(channel),
            item matches Some(post) ==> post@ == self@[channel],
    {
        items_get(&self.map, channel)
    }

    /// Records `item` as the last delivery to `channel`, in place of any
    /// earlier record. No other channel's record changes.
    pub fn set(&mut self, channel: u64, item: QuickPost)
        ensures
            final(self)@ == old(self)@.insert(channel, item@),
    {
        items_insert(&mut self.map, channel, item);
    }
}

} // verus!
