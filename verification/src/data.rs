//! The bot's runtime data and what a channel is sent.

use crate::blacklist::{
    added, after_expiry, blacklisted, grows, lemma_add_then_contains, list_has_permalink, listed,
    lists_permalink, BlacklistStore, BlacklistView, RESET_WINDOW_SECS,
};
use crate::cache::{appended, cached, PostCache};
use crate::db::{ChannelInfo, ChannelInfoView, ChannelRegistry, ChannelView};
use crate::limiter::{
    command_check, denial_text, quota_per_minute, CommandCheck, Decision, RateLimiter, Wait,
    REQUESTS_PER_MINUTE,
};
use crate::post::{post_views, PostView, QuickPost};
use crate::store::{upserted, MemoryStore};
use crate::text::names;
use crate::tracker::DeliveryTracker;
use vstd::prelude::*;

verus! {

/// How long the cached posts are taken to be fresh, in seconds: one hour.
pub const CACHE_WINDOW_SECS: i64 = 3600;

/// Whether `now` can be a reading of the clock, in seconds since the Unix
/// epoch: it lies within 2^48 seconds of 1970, either side.
pub open spec fn clock_reading(now: i64) -> bool {
    -0x1_0000_0000_0000 < now < 0x1_0000_0000_0000
}

/// `SystemTime::now`, chrono's conversion of it to a `DateTime<Utc>`, and
/// `DateTime::timestamp`: the system clock's reading in seconds since the
/// Unix epoch, negative for a clock that stands before 1970. Of the number
/// only its range is claimed: a `DateTime` counts its days in 32 bits, so
/// its seconds lie within 2^48 of 1970. The conversion holds every reading
/// within chrono's range, some 262 000 years either side of 1970.
#[verifier::external_body]
fn unix_now() -> (now: i64)
    ensures
        clock_reading(now),
{
    chrono::DateTime::<chrono::Utc>::from(std::time::SystemTime::now()).timestamp()
}

/// Bot runtime data.
pub struct Data {
    /// The bot's user ID.
    pub bot_id: u64,
    /// The bot's tag.
    pub bot_tag: String,
    /// The bot's name.
    pub bot_name: String,
    /// When the cached posts are next due for a refresh.
    pub cache_time: i64,
    /// The items fetched from each source.
    pub posts: PostCache,
    /// The channels the bot is active in.
    pub channels: ChannelRegistry,
    /// The items each channel is not to be sent again, and when they are forgotten.
    pub blacklist: BlacklistStore,
    /// The item each channel was sent last.
    pub last_post: DeliveryTracker,
    /// The request budget of each channel.
    pub governor: RateLimiter,
}

/// What came of a request for an item.
#[derive(Debug, PartialEq, Eq)]
pub enum Delivery {
    /// The channel is over its budget and has to wait.
    Limited { retry_after: Wait },
    /// No item of the sources may be sent to the channel.
    Nothing,
    /// This item is sent.
    Delivered(QuickPost),
}

/// Whether `post` may be sent to `channel`: it is not blacklisted for the
/// channel and is not what the channel was sent last, both by permalink.
pub open spec fn eligible(
    entries: Map<u64, Seq<PostView>>,
    last: Map<u64, PostView>,
    channel: u64,
    post: PostView,
) -> bool {
    &&& !blacklisted(entries, channel, post.permalink)
    &&& !(last.contains_key(channel) && last[channel].permalink == post.permalink)
}

/// The cached items of `sources`, source after source.
pub open spec fn candidates(cache: Map<Seq<char>, Seq<PostView>>, sources: Seq<Seq<char>>) -> Seq<
    PostView,
>
    decreases sources.len(),
{
    if sources.len() == 0 {
        Seq::empty()
    } else {
        candidates(cache, sources.drop_last()) + cached(cache, sources.last())
    }
}

/// Whether none of `items` may be sent to `channel`.
pub open spec fn none_eligible(
    items: Seq<PostView>,
    entries: Map<u64, Seq<PostView>>,
    last: Map<u64, PostView>,
    channel: u64,
) -> bool {
    forall|j: int| 0 <= j < items.len() ==> !eligible(entries, last, channel, #[trigger] items[j])
}

/// Whether `post` is the first of `items` that may be sent to `channel`.
pub open spec fn first_eligible(
    items: Seq<PostView>,
    entries: Map<u64, Seq<PostView>>,
    last: Map<u64, PostView>,
    channel: u64,
    post: PostView,
) -> bool {
    exists|k: int|
        0 <= k < items.len() && #[trigger] items[k] == post && eligible(
            entries,
            last,
            channel,
            post,
        ) && none_eligible(items.take(k), entries, last, channel)
}

/// The permalink of the item sent last, if there is one.
pub open spec fn last_permalink(last: Option<QuickPost>) -> Option<Seq<char>> {
    match last {
        Some(sent) => Some(sent@.permalink),
        None => None,
    }
}

/// Whether `post` is neither in the list `banned` nor the item sent last,
/// both by permalink.
pub open spec fn passes(banned: Seq<PostView>, last: Option<Seq<char>>, post: PostView) -> bool {
    &&& !lists_permalink(banned, post.permalink)
    &&& last != Some(post.permalink)
}

/// Whether none of the first `n` of `items` passes.
pub open spec fn none_passes(
    items: Seq<QuickPost>,
    n: int,
    banned: Seq<PostView>,
    last: Option<Seq<char>>,
) -> bool {
    forall|j: int| 0 <= j < n ==> !passes(banned, last, (#[trigger] items[j])@)
}

/// The index of the first of `items` that is neither in the list `banned`
/// nor the item sent last, if there is one.
pub fn pick(items: &Vec<QuickPost>, banned: &Vec<QuickPost>, last: &Option<QuickPost>) -> (at:
    Option<usize>)
    ensures
        match at {
            Some(k) => {
                &&& k < items@.len()
                &&& passes(post_views(banned@), last_permalink(*last), items@[k as int]@)
                &&& none_passes(items@, k as int, post_views(banned@), last_permalink(*last))
            },
            None => none_passes(
                items@,
                items@.len() as int,
                post_views(banned@),
                last_permalink(*last),
            ),
        },
{
    let mut k: usize = 0;
    while k < items.len()
        invariant
            k <= items@.len(),
            none_passes(items@, k as int, post_views(banned@), last_permalink(*last)),
        decreases items@.len() - k,
    {
        let item = &items[k];
        let repeats = match last {
            Some(sent) => sent.permalink == item.permalink,
            None => false,
        };
        if !repeats && !list_has_permalink(banned, item) {
            return Some(k);
        }
        k += 1;
    }
    None
}

/// Whether `data` is the data of a bot that has started at `now` with the
/// given identity, cache and registry: nothing is blacklisted and nothing
/// was sent yet, the blacklist's first epoch ends one window after `now`,
/// the posts are due for a refresh one cache window after `now`, and each
/// channel has the budget of `REQUESTS_PER_MINUTE`.
pub open spec fn fresh_at(
    data: Data,
    now: i64,
    bot_id: u64,
    bot_name: Seq<char>,
    bot_tag: Seq<char>,
    posts: Map<Seq<char>, Seq<PostView>>,
    channels: Map<u64, ChannelInfoView>,
) -> bool {
    &&& data.bot_id == bot_id
    &&& data.bot_name@ == bot_name
    &&& data.bot_tag@ == bot_tag
    &&& data.cache_time == now + CACHE_WINDOW_SECS
    &&& data.posts@ == posts
    &&& data.channels@ == channels
    &&& data.blacklist@.entries == Map::<u64, Seq<PostView>>::empty()
    &&& data.blacklist@.reset_at == now + RESET_WINDOW_SECS
    &&& data.last_post@ == Map::<u64, PostView>::empty()
    &&& quota_per_minute(data.governor) == REQUESTS_PER_MINUTE
}

/// What a start at the clock reading `now` gives: the data of a bot that has
/// started at `now`, or nothing where `now` is so late that the end of the
/// first epoch cannot be told in 64 bits.
pub open spec fn started_at(
    started: Option<Data>,
    now: i64,
    bot_id: u64,
    bot_name: Seq<char>,
    bot_tag: Seq<char>,
    posts: Map<Seq<char>, Seq<PostView>>,
    channels: Map<u64, ChannelInfoView>,
) -> bool {
    if now + RESET_WINDOW_SECS <= i64::MAX {
        started matches Some(data) && fresh_at(
            data,
            now,
            bot_id,
            bot_name,
            bot_tag,
            posts,
            channels,
        )
    } else {
        started is None
    }
}

/// The blacklist after an unconditional reset at the clock reading `now`:
/// empty, with an epoch that ends one window after `now`; as it was where
/// `now` is so late that this end cannot be told in 64 bits.
pub open spec fn reset_at_reading(
    before: BlacklistView,
    after: BlacklistView,
    was_reset: bool,
    now: i64,
) -> bool {
    &&& was_reset == (now + RESET_WINDOW_SECS <= i64::MAX)
    &&& was_reset ==> after.entries == Map::<u64, Seq<PostView>>::empty() && after.reset_at == now
        + RESET_WINDOW_SECS
    &&& !was_reset ==> after == before
}

/// The blacklist after an expiry check at the clock reading `now`: reset
/// where `now` has reached the end of the epoch and the next end can be told
/// in 64 bits, as it was otherwise.
pub open spec fn expired_at_reading(
    before: BlacklistView,
    after: BlacklistView,
    was_reset: bool,
    now: i64,
) -> bool {
    &&& was_reset == (now >= before.reset_at && before.reset_at + RESET_WINDOW_SECS <= i64::MAX)
    &&& was_reset ==> after == after_expiry(before, now as int)
    &&& !was_reset ==> after == before
}

impl Data {
    /// The data of a bot that starts at `now` with the given cache and
    /// registry: nothing is blacklisted and nothing was sent yet, the
    /// blacklist's first epoch ends one window after `now`, and the posts are
    /// due for a refresh one cache window after `now`.
    pub fn new(
        bot_id: u64,
        bot_name: String,
        bot_tag: String,
        now: i64,
        posts: PostCache,
        channels: ChannelRegistry,
    ) -> (data: Data)
        requires
            now + RESET_WINDOW_SECS <= i64::MAX,
        ensures
            fresh_at(data, now, bot_id, bot_name@, bot_tag@, posts@, channels@),
    {
        Data {
            bot_id,
            bot_tag,
            bot_name,
            cache_time: now + CACHE_WINDOW_SECS,
            posts,
            channels,
            blacklist: BlacklistStore::new(now + RESET_WINDOW_SECS),
            last_post: DeliveryTracker::new(),
            governor: RateLimiter::per_minute(REQUESTS_PER_MINUTE),
        }
    }

    /// As `new`, for any `now`: nothing is made where `now` is so late that
    /// the end of the first epoch cannot be told in 64 bits.
    pub fn start_at(
        bot_id: u64,
        bot_name: String,
        bot_tag: String,
        now: i64,
        posts: PostCache,
        channels: ChannelRegistry,
    ) -> (started: Option<Data>)
        ensures
            started_at(started, now, bot_id, bot_name@, bot_tag@, posts@, channels@),
    {
        if now <= i64::MAX - RESET_WINDOW_SECS {
            Some(Data::new(bot_id, bot_name, bot_tag, now, posts, channels))
        } else {
            None
        }
    }

    /// As `new`, at the system clock's present reading, whatever that is.
    pub fn start(
        bot_id: u64,
        bot_name: String,
        bot_tag: String,
        posts: PostCache,
        channels: ChannelRegistry,
    ) -> (data: Data)
        ensures
            exists|now: i64|
                clock_reading(now) && #[trigger] fresh_at(
                    data,
                    now,
                    bot_id,
                    bot_name@,
                    bot_tag@,
                    posts@,
                    channels@,
                ),
    {
        let now = unix_now();
        let data = Data::new(bot_id, bot_name, bot_tag, now, posts, channels);
        assert(fresh_at(data, now, bot_id, bot_name@, bot_tag@, posts@, channels@));
        data
    }

    /// Whether everything but the posts is as it is in `other`.
    pub open spec fn same_but_posts(&self, other: &Data) -> bool {
        &&& self.bot_id == other.bot_id
        &&& self.bot_tag == other.bot_tag
        &&& self.bot_name == other.bot_name
        &&& self.cache_time == other.cache_time
        &&& self.channels@ == other.channels@
        &&& self.blacklist@ == other.blacklist@
        &&& self.last_post@ == other.last_post@
        &&& self.governor == other.governor
    }

    /// Whether everything but the blacklist is as it is in `other`.
    pub open spec fn same_but_blacklist(&self, other: &Data) -> bool {
        &&& self.bot_id == other.bot_id
        &&& self.bot_tag == other.bot_tag
        &&& self.bot_name == other.bot_name
        &&& self.cache_time == other.cache_time
        &&& self.posts@ == other.posts@
        &&& self.channels@ == other.channels@
        &&& self.last_post@ == other.last_post@
        &&& self.governor == other.governor
    }

    /// Whether everything but the blacklist and the last deliveries is as
    /// it is in `other`.
    pub open spec fn same_but_deliveries(&self, other: &Data) -> bool {
        &&& self.bot_id == other.bot_id
        &&& self.bot_tag == other.bot_tag
        &&& self.bot_name == other.bot_name
        &&& self.cache_time == other.cache_time
        &&& self.posts@ == other.posts@
        &&& self.channels@ == other.channels@
        &&& self.blacklist@.reset_at == other.blacklist@.reset_at
        &&& self.governor == other.governor
    }

    /// Whether everything but the registry is as it is in `other`.
    pub open spec fn same_but_channels(&self, other: &Data) -> bool {
        &&& self.bot_id == other.bot_id
        &&& self.bot_tag == other.bot_tag
        &&& self.bot_name == other.bot_name
        &&& self.cache_time == other.cache_time
        &&& self.posts@ == other.posts@
        &&& self.blacklist@ == other.blacklist@
        &&& self.last_post@ == other.last_post@
        &&& self.governor == other.governor
    }

    /// Add `QuickPost`s to the cache: they are appended to what `sub` has.
    pub fn add_posts(&mut self, sub: String, posts: Vec<QuickPost>)
        ensures
            final(self).posts@ == appended(old(self).posts@, sub@, post_views(posts@)),
            final(self).same_but_posts(old(self)),
    {
        self.posts.append(sub, posts);
    }

    /// Add a `QuickPost` to the blacklist of `channel`.
    pub fn add_blacklist(&mut self, channel: u64, post: QuickPost)
        ensures
            final(self).blacklist@.entries == added(old(self).blacklist@.entries, channel, post@),
            final(self).blacklist@.reset_at == old(self).blacklist@.reset_at,
            grows(old(self).blacklist@.entries, final(self).blacklist@.entries),
            final(self).same_but_blacklist(old(self)),
    {
        self.blacklist.add(channel, post);
    }

    /// Resets the blacklist at `now`, whatever its epoch: the blacklist is
    /// emptied and its next epoch ends one window after `now`. Returns
    /// whether it did so; it does not, and changes nothing, where `now` is so
    /// late that this end cannot be told in 64 bits.
    pub fn reset_blacklist_at(&mut self, now: i64) -> (was_reset: bool)
        ensures
            final(self).same_but_blacklist(old(self)),
            reset_at_reading(old(self).blacklist@, final(self).blacklist@, was_reset, now),
    {
        if now <= i64::MAX - RESET_WINDOW_SECS {
            self.blacklist.reset(now);
            true
        } else {
            false
        }
    }

    /// Reset the blacklist and the blacklist time: the blacklist is emptied
    /// and its next epoch ends one window after the system clock's present
    /// reading, whatever that is.
    pub fn reset_blacklist(&mut self)
        ensures
            final(self).same_but_blacklist(old(self)),
            final(self).blacklist@.entries == Map::<u64, Seq<PostView>>::empty(),
            exists|now: i64| #[trigger]
                clock_reading(now) && final(self).blacklist@.reset_at == now + RESET_WINDOW_SECS,
    {
        let now = unix_now();
        self.blacklist.reset(now);
        assert(clock_reading(now) && self.blacklist@.reset_at == now + RESET_WINDOW_SECS);
    }

    /// Resets the blacklist if `now` has reached the end of its epoch; the
    /// end then moves on by exactly one window. Returns whether it was reset;
    /// otherwise nothing changes. An epoch that ends so late that the next
    /// end cannot be told in 64 bits is never ended.
    pub fn update_blacklist_time_at(&mut self, now: i64) -> (was_reset: bool)
        ensures
            final(self).same_but_blacklist(old(self)),
            expired_at_reading(old(self).blacklist@, final(self).blacklist@, was_reset, now),
    {
        if self.blacklist.reset_at() <= i64::MAX - RESET_WINDOW_SECS {
            self.blacklist.reset_if_expired(now)
        } else {
            false
        }
    }

    /// Updates the blacklist time and resets the blacklist if the epoch has
    /// ended: as `update_blacklist_time_at`, at the system clock's present
    /// reading, whatever that is.
    pub fn update_blacklist_time(&mut self) -> (was_reset: bool)
        ensures
            final(self).same_but_blacklist(old(self)),
            exists|now: i64|
                clock_reading(now) && #[trigger] expired_at_reading(
                    old(self).blacklist@,
                    final(self).blacklist@,
                    was_reset,
                    now,
                ),
    {
        let now = unix_now();
        let was_reset = self.update_blacklist_time_at(now);
        assert(expired_at_reading(old(self).blacklist@, self.blacklist@, was_reset, now));
        was_reset
    }

    /// Registers `channel` with `info` at the system clock's present
    /// reading: the registration is written through to `store` by an upsert
    /// and taken into the registry.
    pub fn add_db_channel(&mut self, store: &mut MemoryStore, channel: u64, info: ChannelInfo)
        ensures
            exists|time: i64| #[trigger]
                clock_reading(time) && final(store)@ == upserted(
                    old(store)@,
                    ChannelView { channel_id: channel, info: info@, time, id: None },
                ),
            final(self).channels@ == old(self).channels@.insert(channel, info@),
            final(self).same_but_channels(old(self)),
    {
        let now = unix_now();
        self.channels.upsert(store, channel, info, now);
        assert(clock_reading(now) && store@ == upserted(
            old(store)@,
            ChannelView { channel_id: channel, info: info@, time: now, id: None },
        ));
    }

    /// Counts one command of `channel` against its budget and decides
    /// whether the command runs.
    pub fn check_command(&self, channel: u64) -> (check: CommandCheck)
        ensures
            check.proceed == check.reply is None,
            check.reply matches Some(text) ==> exists|wait: Wait|
                wait.wf() && text@ == #[trigger] denial_text(wait),
    {
        let decision = self.governor.check(channel);
        command_check(decision)
    }

    /// Answers a request of `channel` for an item of `sources` whose budget
    /// was already checked. A refused request changes nothing. An admitted
    /// one is answered with the first cached item of the sources, in their
    /// order, that is not blacklisted for the channel and is not the item
    /// it was sent last; that item becomes the one sent last and, where
    /// `remember` is set, is blacklisted for the channel. Where there is
    /// no such item nothing changes.
    pub fn deliver_decided(
        &mut self,
        decision: Decision,
        channel: u64,
        sources: &Vec<String>,
        remember: bool,
    ) -> (delivery: Delivery)
        ensures
            final(self).same_but_deliveries(old(self)),
            grows(old(self).blacklist@.entries, final(self).blacklist@.entries),
            match delivery {
                Delivery::Limited { retry_after } => {
                    &&& decision == (Decision::Deny { retry_after })
                    &&& final(self).blacklist@ == old(self).blacklist@
                    &&& final(self).last_post@ == old(self).last_post@
                },
                Delivery::Nothing => {
                    &&& decision == Decision::Admit
                    &&& none_eligible(
                        candidates(old(self).posts@, names(sources@)),
                        old(self).blacklist@.entries,
                        old(self).last_post@,
                        channel,
                    )
                    &&& final(self).blacklist@ == old(self).blacklist@
                    &&& final(self).last_post@ == old(self).last_post@
                },
                Delivery::Delivered(post) => {
                    &&& decision == Decision::Admit
                    &&& first_eligible(
                        candidates(old(self).posts@, names(sources@)),
                        old(self).blacklist@.entries,
                        old(self).last_post@,
                        channel,
                        post@,
                    )
                    &&& final(self).last_post@ == old(self).last_post@.insert(channel, post@)
                    &&& final(self).blacklist@.entries == if remember {
                        added(old(self).blacklist@.entries, channel, post@)
                    } else {
                        old(self).blacklist@.entries
                    }
                },
            },
    {
        if let Decision::Deny { retry_after } = decision {
            return Delivery::Limited { retry_after };
        }
        let banned = self.blacklist.entries(channel);
        let last = self.last_post.last(channel);
        let ghost entries = self.blacklist@.entries;
        let ghost lasts = self.last_post@;
        let ghost cache = self.posts@;
        proof {
            assert forall|post: PostView|
                eligible(entries, lasts, channel, post) == passes(
                    post_views(banned@),
                    last_permalink(last),
                    post,
                ) by {}
        }
        let mut s: usize = 0;
        while s < sources.len()
            invariant
                s <= sources@.len(),
                decision == Decision::Admit,
                *self == *old(self),
                entries == self.blacklist@.entries,
                lasts == self.last_post@,
                cache == self.posts@,
                post_views(banned@) == listed(entries, channel),
                last is Some == lasts.contains_key(channel),
                last matches Some(sent) ==> sent@ == lasts[channel],
                none_eligible(
                    candidates(cache, names(sources@).take(s as int)),
                    entries,
                    lasts,
                    channel,
                ),
            decreases sources@.len() - s,
        {
            let items = self.posts.get(&sources[s]);
            let ghost earlier = candidates(cache, names(sources@).take(s as int));
            let ghost upto = candidates(cache, names(sources@).take(s + 1));
            proof {
                assert(names(sources@).take(s + 1).drop_last() =~= names(sources@).take(s as int));
                assert(names(sources@).take(s + 1).last() == sources@[s as int]@);
                assert(upto == earlier + post_views(items@));
            }
            match pick(&items, &banned, &last) {
                Some(k) => {
                    let post = items[k].clone();
                    proof {
                        let all = candidates(cache, names(sources@));
                        let at = earlier.len() + k;
                        lemma_candidates_extend(cache, names(sources@), s + 1);
                        assert(upto[at] == post@);
                        assert(all[at] == post@);
                        assert(all.take(at) =~= upto.take(at));
                        assert forall|j: int| 0 <= j < at implies !eligible(
                            entries,
                            lasts,
                            channel,
                            #[trigger] all.take(at)[j],
                        ) by {
                            if j < earlier.len() {
                                assert(all.take(at)[j] == earlier[j]);
                            } else {
                                assert(all.take(at)[j] == post_views(items@)[j - earlier.len()]);
                                assert(post_views(items@)[j - earlier.len()] == items@[j
                                    - earlier.len()]@);
                            }
                        }
                        assert(eligible(entries, lasts, channel, post@));
                    }
                    self.last_post.set(channel, post.clone());
                    if remember {
                        self.blacklist.add(channel, post.clone());
                    }
                    return Delivery::Delivered(post);
                },
                None => {
                    proof {
                        assert forall|j: int| 0 <= j < upto.len() implies !eligible(
                            entries,
                            lasts,
                            channel,
                            #[trigger] upto[j],
                        ) by {
                            if j < earlier.len() {
                                assert(upto[j] == earlier[j]);
                            } else {
                                assert(upto[j] == post_views(items@)[j - earlier.len()]);
                                assert(post_views(items@)[j - earlier.len()] == items@[j
                                    - earlier.len()]@);
                            }
                        }
                    }
                },
            }
            s += 1;
        }
        assert(names(sources@).take(sources@.len() as int) =~= names(sources@));
        Delivery::Nothing
    }

    /// Answers a request of `channel` for an item of `sources`: counts it
    /// against the channel's budget and, as that decides, answers it as
    /// `deliver_decided` does.
    pub fn deliver(&mut self, channel: u64, sources: &Vec<String>, remember: bool) -> (delivery:
        Delivery)
        ensures
            final(self).same_but_deliveries(old(self)),
            grows(old(self).blacklist@.entries, final(self).blacklist@.entries),
            match delivery {
                Delivery::Limited { retry_after } => {
                    &&& retry_after.wf()
                    &&& final(self).blacklist@ == old(self).blacklist@
                    &&& final(self).last_post@ == old(self).last_post@
                },
                Delivery::Nothing => {
                    &&& none_eligible(
                        candidates(old(self).posts@, names(sources@)),
                        old(self).blacklist@.entries,
                        old(self).last_post@,
                        channel,
                    )
                    &&& final(self).blacklist@ == old(self).blacklist@
                    &&& final(self).last_post@ == old(self).last_post@
                },
                Delivery::Delivered(post) => {
                    &&& first_eligible(
                        candidates(old(self).posts@, names(sources@)),
                        old(self).blacklist@.entries,
                        old(self).last_post@,
                        channel,
                        post@,
                    )
                    &&& final(self).last_post@ == old(self).last_post@.insert(channel, post@)
                    &&& final(self).blacklist@.entries == if remember {
                        added(old(self).blacklist@.entries, channel, post@)
                    } else {
                        old(self).blacklist@.entries
                    }
                },
            },
    {
        let decision = self.governor.check(channel);
        self.deliver_decided(decision, channel, sources, remember)
    }
}

/// The candidates of the first `n` sources are the first candidates of all.
pub proof fn lemma_candidates_extend(
    cache: Map<Seq<char>, Seq<PostView>>,
    sources: Seq<Seq<char>>,
    n: int,
)
    requires
        0 <= n <= sources.len(),
    ensures
        candidates(cache, sources.take(n)).len() <= candidates(cache, sources).len(),
        candidates(cache, sources).take(candidates(cache, sources.take(n)).len() as int)
            == candidates(cache, sources.take(n)),
    decreases sources.len(),
{
    if n == sources.len() {
        assert(sources.take(n) =~= sources);
        assert(candidates(cache, sources).take(candidates(cache, sources).len() as int)
            =~= candidates(cache, sources));
    } else {
        let rest = sources.drop_last();
        assert(rest.take(n) =~= sources.take(n));
        lemma_candidates_extend(cache, rest, n);
        let part = candidates(cache, sources.take(n));
        assert(candidates(cache, sources).take(part.len() as int) =~= candidates(cache, rest).take(
            part.len() as int,
        ));
    }
}

/// An item that was sent and remembered may not be sent to the same channel
/// again while the blacklist only grows, whatever was blacklisted or sent
/// since.
pub proof fn lemma_no_repeat(
    entries: Map<u64, Seq<PostView>>,
    later: Map<u64, Seq<PostView>>,
    last: Map<u64, PostView>,
    channel: u64,
    post: PostView,
)
    requires
        grows(added(entries, channel, post), later),
    ensures
        !eligible(later, last, channel, post),
{
    lemma_add_then_contains(entries, channel, post, channel, post.permalink);
    assert(blacklisted(added(entries, channel, post), channel, post.permalink));
}

/// After an item was sent to a channel and remembered, no request of that
/// channel is answered with an item of the same permalink, however many
/// requests, of this channel or of others, were answered in between, as
/// long as the blacklist was not reset: the item that a later request is
/// answered with has another permalink.
pub proof fn lemma_never_sent_again(
    entries: Map<u64, Seq<PostView>>,
    later: Map<u64, Seq<PostView>>,
    last: Map<u64, PostView>,
    channel: u64,
    sent: PostView,
    items: Seq<PostView>,
    next: PostView,
)
    requires
        grows(added(entries, channel, sent), later),
        first_eligible(items, later, last, channel, next),
    ensures
        next.permalink != sent.permalink,
{
    lemma_add_then_contains(entries, channel, sent, channel, sent.permalink);
    assert(blacklisted(added(entries, channel, sent), channel, sent.permalink));
}

} // verus!
