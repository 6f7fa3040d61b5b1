//! The per-channel blacklist: the items that a channel is not to be sent
//! again before the next reset.

use crate::post::{lemma_post_views_push, post_views, PostView, QuickPost};
use crate::shared::{list_entries, lists_get, lists_insert, lists_new, lists_remove};
use dashmap::DashMap;
use vstd::prelude::*;

verus! {

/// The length of a blacklist epoch in seconds: three hours.
pub const RESET_WINDOW_SECS: i64 = 10800;

/// Whether `list` holds an item with the given permalink.
pub open spec fn lists_permalink(list: Seq<PostView>, permalink: Seq<char>) -> bool {
    exists|i: int| 0 <= i < list.len() && (#[trigger] list[i]).permalink == permalink
}

/// The items blacklisted for `channel`: its list where it has one, else nothing.
pub open spec fn listed(entries: Map<u64, Seq<PostView>>, channel: u64) -> Seq<PostView> {
    if entries.contains_key(channel) {
        entries[channel]
    } else {
        Seq::empty()
    }
}

/// Whether an item with the given permalink is blacklisted for `channel`.
pub open spec fn blacklisted(
    entries: Map<u64, Seq<PostView>>,
    channel: u64,
    permalink: Seq<char>,
) -> bool {
    lists_permalink(listed(entries, channel), permalink)
}

/// The entries after `post` was blacklisted for `channel`.
pub open spec fn added(entries: Map<u64, Seq<PostView>>, channel: u64, post: PostView) -> Map<
    u64,
    Seq<PostView>,
> {
    entries.insert(channel, listed(entries, channel).push(post))
}

/// What a [`BlacklistStore`] holds, as mathematical values.
pub struct BlacklistView {
    /// The blacklisted items of each channel, oldest first.
    pub entries: Map<u64, Seq<PostView>>,
    /// The end of the current epoch, in seconds since the Unix epoch.
    pub reset_at: int,
}

/// The store after an expiry check at `now`: empty, with the end of the epoch
/// one window later, if `now` has reached the end of the epoch; unchanged
/// otherwise.
pub open spec fn after_expiry(store: BlacklistView, now: int) -> BlacklistView {
    if now >= store.reset_at {
        BlacklistView { entries: Map::empty(), reset_at: store.reset_at + RESET_WINDOW_SECS }
    } else {
        store
    }
}

/// Per-channel deny-list that is emptied as a whole when its epoch ends.
pub struct BlacklistStore {
    map: DashMap<u64, Vec<QuickPost>>,
    reset_at: i64,
}

impl View for BlacklistStore {
    type V = BlacklistView;

    closed spec fn view(&self) -> BlacklistView {
        BlacklistView { entries: list_entries(self.map), reset_at: self.reset_at as int }
    }
}

/// Whether `list` holds an item with the permalink of `post`.
pub fn list_has_permalink(list: &Vec<QuickPost>, post: &QuickPost) -> (found: bool)
    ensures
        found == lists_permalink(post_views(list@), post@.permalink),
{
    let mut i: usize = 0;
    while i < list.len()
        invariant
            i <= list.len(),
            forall|j: int|
                0 <= j < i ==> (#[trigger] post_views(list@)[j]).permalink != post@.permalink,
        decreases list.len() - i,
    {
        if list[i].permalink == post.permalink {
            assert(post_views(list@)[i as int].permalink == post@.permalink);
            return true;
        }
        i += 1;
    }
    false
}

impl BlacklistStore {
    /// An empty store whose epoch ends at `reset_at`.
    pub fn new(reset_at: i64) -> (store: BlacklistStore)
        ensures
            store@.entries == Map::<u64, Seq<PostView>>::empty(),
            store@.reset_at == reset_at,
    {
        BlacklistStore { map: lists_new(), reset_at }
    }

    /// The end of the current epoch, in seconds since the Unix epoch.
    pub fn reset_at(&self) -> (at: i64)
        ensures
            at == self@.reset_at,
    {
        self.reset_at
    }

    /// The items blacklisted for `channel`, oldest first.
    pub fn entries(&self, channel: u64) -> (items: Vec<QuickPost>)
        ensures
            post_views(items@) == listed(self@.entries, channel),
    {
        match lists_get(&self.map, channel) {
            Some(items) => items,
            None => {
                let items: Vec<QuickPost> = Vec::new();
                assert(post_views(items@) =~= Seq::<PostView>::empty());
                items
            },
        }
    }

    /// Blacklists `post` for `channel`. No other channel's list changes, and
    /// the epoch stays as it is.
    pub fn add(&mut self, channel: u64, post: QuickPost)
        ensures
            final(self)@.entries == added(old(self)@.entries, channel, post@),
            final(self)@.reset_at == old(self)@.reset_at,
            grows(old(self)@.entries, final(self)@.entries),
    {
        proof {
            lemma_added_grows(self@.entries, channel, post@);
        }
        let mut list: Vec<QuickPost> = match lists_remove(&mut self.map, channel) {
            Some(list) => list,
            None => Vec::new(),
        };
        let ghost before = list@;
        assert(post_views(before) =~= listed(old(self)@.entries, channel));
        list.push(post);
        proof {
            lemma_post_views_push(before, post);
        }
        lists_insert(&mut self.map, channel, list);
        assert(final(self)@.entries =~= added(old(self)@.entries, channel, post@));
    }

    /// Whether an item with the permalink of `post` is blacklisted for `channel`.
    pub fn contains(&self, channel: u64, post: &QuickPost) -> (found: bool)
        ensures
            found == blacklisted(self@.entries, channel, post@.permalink),
    {
        match lists_get(&self.map, channel) {
            Some(list) => list_has_permalink(&list, post),
            None => false,
        }
    }

    /// Empties the store and starts an epoch that ends one window after `now`.
    pub fn reset(&mut self, now: i64)
        requires
            now + RESET_WINDOW_SECS <= i64::MAX,
        ensures
            final(self)@.entries == Map::<u64, Seq<PostView>>::empty(),
            final(self)@.reset_at == now + RESET_WINDOW_SECS,
    {
        self.map = lists_new();
        self.reset_at = now + RESET_WINDOW_SECS;
    }

    /// Ends the epoch if `now` has reached its end: the whole store is then
    /// replaced by an empty one and the end of the epoch moves on by exactly
    /// one window. Before the end of the epoch nothing changes. Returns
    /// whether the store was reset.
    pub fn reset_if_expired(&mut self, now: i64) -> (was_reset: bool)
        requires
            now >= old(self)@.reset_at ==> old(self)@.reset_at + RESET_WINDOW_SECS <= i64::MAX,
        ensures
            was_reset == (now >= old(self)@.reset_at),
            final(self)@ == after_expiry(old(self)@, now as int),
    {
        if now >= self.reset_at {
            self.map = lists_new();
            self.reset_at = self.reset_at + RESET_WINDOW_SECS;
            true
        } else {
            false
        }
    }
}

/// An item that was just blacklisted for a channel is found there, and the
/// answers for every other channel are what they were before.
pub proof fn lemma_add_then_contains(
    entries: Map<u64, Seq<PostView>>,
    channel: u64,
    post: PostView,
    other: u64,
    permalink: Seq<char>,
)
    ensures
        blacklisted(added(entries, channel, post), channel, post.permalink),
        other != channel ==> blacklisted(added(entries, channel, post), other, permalink)
            == blacklisted(entries, other, permalink),
{
    let list = listed(added(entries, channel, post), channel);
    assert(list[list.len() - 1].permalink == post.permalink);
}

/// What is blacklisted for a channel stays blacklisted when more is added,
/// for that channel or another.
pub proof fn lemma_add_keeps_blacklisted(
    entries: Map<u64, Seq<PostView>>,
    channel: u64,
    post: PostView,
    other: u64,
    permalink: Seq<char>,
)
    requires
        blacklisted(entries, other, permalink),
    ensures
        blacklisted(added(entries, channel, post), other, permalink),
{
    if other == channel {
        let before = listed(entries, channel);
        let i = choose|i: int|
            0 <= i < before.len() && (#[trigger] before[i]).permalink == permalink;
        let after = listed(added(entries, channel, post), channel);
        assert(after[i].permalink == permalink);
    }
}

/// Whether everything that is blacklisted in `before` is blacklisted in
/// `after`, channel by channel. It is so from one state of a store to any
/// later one as long as the store is not reset.
pub open spec fn grows(before: Map<u64, Seq<PostView>>, after: Map<u64, Seq<PostView>>) -> bool {
    forall|channel: u64, permalink: Seq<char>| #[trigger]
        blacklisted(before, channel, permalink) ==> blacklisted(after, channel, permalink)
}

/// Adding to a blacklist makes it grow.
pub proof fn lemma_added_grows(entries: Map<u64, Seq<PostView>>, channel: u64, post: PostView)
    ensures
        grows(entries, added(entries, channel, post)),
{
    assert forall|other: u64, permalink: Seq<char>| #[trigger]
        blacklisted(entries, other, permalink) implies blacklisted(
        added(entries, channel, post),
        other,
        permalink,
    ) by {
        lemma_add_keeps_blacklisted(entries, channel, post, other, permalink);
    }
}

/// A blacklist that grows and grows again has grown: whatever was
/// blacklisted at first still is, however much was added since.
pub proof fn lemma_grows_on(
    first: Map<u64, Seq<PostView>>,
    second: Map<u64, Seq<PostView>>,
    third: Map<u64, Seq<PostView>>,
)
    requires
        grows(first, second),
        grows(second, third),
    ensures
        grows(first, third),
{
    assert forall|channel: u64, permalink: Seq<char>| #[trigger]
        blacklisted(first, channel, permalink) implies blacklisted(third, channel, permalink) by {
        assert(blacklisted(second, channel, permalink));
    }
}

/// A reset does not repeat within one epoch: after a check at `now` that
/// reset the store, a check at any time before the new end of the epoch
/// changes nothing.
pub proof fn lemma_expiry_is_idempotent(store: BlacklistView, now: int, later: int)
    requires
        store.reset_at <= now,
        later < store.reset_at + RESET_WINDOW_SECS,
    ensures
        after_expiry(after_expiry(store, now), later) == after_expiry(store, now),
{
}

} // verus!
