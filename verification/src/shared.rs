//! The concurrent maps that hold the shared state, and what is assumed of them.
//!
//! Every function here is one call into `dashmap`; its contract is believed,
//! not proved. Each takes the map by `&mut` where it changes it, so that no
//! other reference into the map is alive during the call and what the map
//! holds is a value that a contract can speak of.

use crate::db::{ChannelInfo, ChannelInfoView};
use crate::post::{post_views, PostView, QuickPost};
use dashmap::DashMap;
use vstd::prelude::*;

verus! {

#[verifier::external_type_specification]
#[verifier::external_body]
#[verifier::reject_recursive_types(K)]
#[verifier::reject_recursive_types(V)]
#[verifier::reject_recursive_types(S)]
pub struct ExDashMap<K, V, S>(DashMap<K, V, S>);

/// The registrations that a channel map holds, by channel identifier.
pub uninterp spec fn channel_entries(m: DashMap<u64, ChannelInfo>) -> Map<u64, ChannelInfoView>;

/// The item lists that a map of sources holds, by source name.
pub uninterp spec fn source_entries(m: DashMap<String, Vec<QuickPost>>) -> Map<
    Seq<char>,
    Seq<PostView>,
>;

/// The item lists that a map of channels holds, by channel identifier.
pub uninterp spec fn list_entries(m: DashMap<u64, Vec<QuickPost>>) -> Map<u64, Seq<PostView>>;

/// The single items that a map of channels holds, by channel identifier.
pub uninterp spec fn item_entries(m: DashMap<u64, QuickPost>) -> Map<u64, PostView>;

/// The largest capacity that a map is asked to start with. `dashmap` rounds
/// the capacity up to a multiple of its number of shards, which a capacity
/// near the largest number would overflow.
pub const CAPACITY_MAX: usize = 0x1_0000;

/// `DashMap::with_capacity`: a map that holds nothing.
#[verifier::external_body]
pub(crate) fn channels_with_capacity(capacity: usize) -> (made: DashMap<u64, ChannelInfo>)
    requires
        capacity <= CAPACITY_MAX,
    ensures
        (channel_entries(made) == Map::<u64, ChannelInfoView>::empty()),
{
    DashMap::with_capacity(capacity)
}

/// `DashMap::insert`: the key now maps to the value and every other key is as
/// it was. Returns whether the key had a value before.
#[verifier::external_body]
pub(crate) fn channels_insert(
    m: &mut DashMap<u64, ChannelInfo>,
    key: u64,
    value: ChannelInfo,
) -> (had: bool)
    ensures
        channel_entries(*final(m)) == channel_entries(*old(m)).insert(key, value@),
        had == channel_entries(*old(m)).contains_key(key),
    no_unwind
{
    m.insert(key, value).is_some()
}

/// `DashMap::get`: a copy of the value under the key, if there is one.
#[verifier::external_body]
pub(crate) fn channels_get(m: &DashMap<u64, ChannelInfo>, key: u64) -> (found: Option<
    ChannelInfo,
>)
    ensures
        found is Some == channel_entries(*m).contains_key(key),
        found matches Some(info) ==> info@ == channel_entries(*m)[key],
{
    m.get(&key).map(|entry| entry.value().clone())
}

/// `DashMap::len`: the number of keys.
#[verifier::external_body]
pub(crate) fn channels_len(m: &DashMap<u64, ChannelInfo>) -> (n: usize)
    ensures
        n == channel_entries(*m).dom().len(),
{
    m.len()
}

/// `DashMap::with_capacity`: a map that holds nothing.
#[verifier::external_body]
pub(crate) fn sources_with_capacity(capacity: usize) -> (made: DashMap<String, Vec<QuickPost>>)
    requires
        capacity <= CAPACITY_MAX,
    ensures
        (source_entries(made) == Map::<Seq<char>, Seq<PostView>>::empty()),
{
    DashMap::with_capacity(capacity)
}

/// `DashMap::remove`: the key is gone and every other key is as it was.
/// Returns the value that the key had, if it had one.
#[verifier::external_body]
pub(crate) fn sources_remove(m: &mut DashMap<String, Vec<QuickPost>>, key: &String) -> (taken:
    Option<Vec<QuickPost>>)
    ensures
        source_entries(*final(m)) == source_entries(*old(m)).remove(key@),
        taken is Some == source_entries(*old(m)).contains_key(key@),
        taken matches Some(items) ==> post_views(items@) == source_entries(*old(m))[key@],
    no_unwind
{
    m.remove(key).map(|pair| pair.1)
}

/// `DashMap::insert`: the key now maps to the value and every other key is as
/// it was. Returns whether the key had a value before.
#[verifier::external_body]
pub(crate) fn sources_insert(
    m: &mut DashMap<String, Vec<QuickPost>>,
    key: String,
    value: Vec<QuickPost>,
) -> (had: bool)
    ensures
        source_entries(*final(m)) == source_entries(*old(m)).insert(key@, post_views(value@)),
        had == source_entries(*old(m)).contains_key(key@),
    no_unwind
{
    m.insert(key, value).is_some()
}

/// `DashMap::get`: a copy of the value under the key, if there is one.
#[verifier::external_body]
pub(crate) fn sources_get(m: &DashMap<String, Vec<QuickPost>>, key: &String) -> (found: Option<
    Vec<QuickPost>,
>)
    ensures
        found is Some == source_entries(*m).contains_key(key@),
        found matches Some(items) ==> post_views(items@) == source_entries(*m)[key@],
{
    m.get(key).map(|entry| entry.value().clone())
}

/// `DashMap::len`: the number of keys.
#[verifier::external_body]
pub(crate) fn sources_len(m: &DashMap<String, Vec<QuickPost>>) -> (n: usize)
    ensures
        n == source_entries(*m).dom().len(),
{
    m.len()
}

/// `DashMap::new`: a map that holds nothing.
#[verifier::external_body]
pub(crate) fn lists_new() -> (made: DashMap<u64, Vec<QuickPost>>)
    ensures
        (list_entries(made) == Map::<u64, Seq<PostView>>::empty()),
{
    DashMap::new()
}

/// `DashMap::remove`: the key is gone and every other key is as it was.
/// Returns the value that the key had, if it had one.
#[verifier::external_body]
pub(crate) fn lists_remove(m: &mut DashMap<u64, Vec<QuickPost>>, key: u64) -> (taken: Option<
    Vec<QuickPost>,
>)
    ensures
        list_entries(*final(m)) == list_entries(*old(m)).remove(key),
        taken is Some == list_entries(*old(m)).contains_key(key),
        taken matches Some(items) ==> post_views(items@) == list_entries(*old(m))[key],
    no_unwind
{
    m.remove(&key).map(|pair| pair.1)
}

/// `DashMap::insert`: the key now maps to the value and every other key is as
/// it was. Returns whether the key had a value before.
#[verifier::external_body]
pub(crate) fn lists_insert(
    m: &mut DashMap<u64, Vec<QuickPost>>,
    key: u64,
    value: Vec<QuickPost>,
) -> (had: bool)
    ensures
        list_entries(*final(m)) == list_entries(*old(m)).insert(key, post_views(value@)),
        had == list_entries(*old(m)).contains_key(key),
    no_unwind
{
    m.insert(key, value).is_some()
}

/// `DashMap::get`: a copy of the value under the key, if there is one.
#[verifier::external_body]
pub(crate) fn lists_get(m: &DashMap<u64, Vec<QuickPost>>, key: u64) -> (found: Option<
    Vec<QuickPost>,
>)
    ensures
        found is Some == list_entries(*m).contains_key(key),
        found matches Some(items) ==> post_views(items@) == list_entries(*m)[key],
{
    m.get(&key).map(|entry| entry.value().clone())
}

/// `DashMap::new`: a map that holds nothing.
#[verifier::external_body]
pub(crate) fn items_new() -> (made: DashMap<u64, QuickPost>)
    ensures
        (item_entries(made) == Map::<u64, PostView>::empty()),
{
    DashMap::new()
}

/// `DashMap::insert`: the key now maps to the value and every other key is as
/// it was. Returns whether the key had a value before.
#[verifier::external_body]
pub(crate) fn items_insert(m: &mut DashMap<u64, QuickPost>, key: u64, value: QuickPost) -> (had:
    bool)
    ensures
        item_entries(*final(m)) == item_entries(*old(m)).insert(key, value@),
        had == item_entries(*old(m)).contains_key(key),
    no_unwind
{
    m.insert(key, value).is_some()
}

/// `DashMap::get`: a copy of the value under the key, if there is one.
#[verifier::external_body]
pub(crate) fn items_get(m: &DashMap<u64, QuickPost>, key: u64) -> (found: Option<QuickPost>)
    ensures
        found is Some == item_entries(*m).contains_key(key),
        found matches Some(item) ==> item@ == item_entries(*m)[key],
{
    m.get(&key).map(|entry| entry.value().clone())
}

} // verus!
