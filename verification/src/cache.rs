//! The post cache: for each source, the items fetched from it so far.

use crate::post::{
    lemma_post_views_concat, post_views, quickposts_of, submissions_to_quickposts, PostView,
    QuickPost, Submission,
};
use crate::shared::{
    source_entries, sources_get, sources_insert, sources_len, sources_remove,
    sources_with_capacity, CAPACITY_MAX,
};
use crate::text::names;
use dashmap::DashMap;
use vstd::prelude::*;

verus! {

/// The items cached for `source`: its list where it has one, else nothing.
pub open spec fn cached(cache: Map<Seq<char>, Seq<PostView>>, source: Seq<char>) -> Seq<PostView> {
    if cache.contains_key(source) {
        cache[source]
    } else {
        Seq::empty()
    }
}

/// The cache after `items` were appended to what `source` had.
pub open spec fn appended(
    cache: Map<Seq<char>, Seq<PostView>>,
    source: Seq<char>,
    items: Seq<PostView>,
) -> Map<Seq<char>, Seq<PostView>> {
    cache.insert(source, cached(cache, source) + items)
}

/// What came of fetching one source.
#[derive(Debug, PartialEq, Eq)]
pub struct Fetch {
    pub source: String,
    /// The submissions that the source returned, or `None` where the fetch failed.
    pub outcome: Option<Vec<Submission>>,
}

/// A [`Fetch`] as mathematical values: the source's name and the items that
/// its submissions become.
pub struct FetchView {
    pub source: Seq<char>,
    pub items: Option<Seq<PostView>>,
}

impl View for Fetch {
    type V = FetchView;

    open spec fn view(&self) -> FetchView {
        FetchView {
            source: self.source@,
            items: match self.outcome {
                Some(submissions) => Some(quickposts_of(submissions@)),
                None => None,
            },
        }
    }
}

/// The views of a sequence of fetches, in order.
pub open spec fn fetch_views(fetches: Seq<Fetch>) -> Seq<FetchView> {
    fetches.map_values(|f: Fetch| f@)
}

/// The cache after one fetch: a failed fetch changes nothing, a successful one
/// appends its items to the source's list.
pub open spec fn stored(cache: Map<Seq<char>, Seq<PostView>>, fetch: FetchView) -> Map<
    Seq<char>,
    Seq<PostView>,
> {
    match fetch.items {
        Some(items) => appended(cache, fetch.source, items),
        None => cache,
    }
}

/// The cache after a batch of fetches, taken in order.
pub open spec fn refreshed(cache: Map<Seq<char>, Seq<PostView>>, fetches: Seq<FetchView>) -> Map<
    Seq<char>,
    Seq<PostView>,
>
    decreases fetches.len(),
{
    if fetches.len() == 0 {
        cache
    } else {
        stored(refreshed(cache, fetches.drop_last()), fetches.last())
    }
}

/// The sources of the failed fetches of a batch, in order.
pub open spec fn failed_sources(fetches: Seq<FetchView>) -> Seq<Seq<char>>
    decreases fetches.len(),
{
    if fetches.len() == 0 {
        Seq::empty()
    } else if fetches.last().items is None {
        failed_sources(fetches.drop_last()).push(fetches.last().source)
    } else {
        failed_sources(fetches.drop_last())
    }
}

/// Per-source store of the items fetched so far.
pub struct PostCache {
    map: DashMap<String, Vec<QuickPost>>,
}

impl View for PostCache {
    type V = Map<Seq<char>, Seq<PostView>>;

    closed spec fn view(&self) -> Map<Seq<char>, Seq<PostView>> {
        source_entries(self.map)
    }
}

impl PostCache {
    #[verifier::type_invariant]
    spec fn finite(self) -> bool {
        source_entries(self.map).dom().finite()
    }

    /// An empty cache with room for `capacity` sources, or for
    /// `CAPACITY_MAX` where more is asked for; it grows as it is filled.
    pub fn with_capacity(capacity: usize) -> (cache: PostCache)
        ensures
            cache@ == Map::<Seq<char>, Seq<PostView>>::empty(),
    {
        let room = if capacity <= CAPACITY_MAX {
            capacity
        } else {
            CAPACITY_MAX
        };
        PostCache { map: sources_with_capacity(room) }
    }

    /// The number of sources that have an entry.
    pub fn len(&self) -> (n: usize)
        ensures
            self@.dom().finite(),
            n == self@.dom().len(),
    {
        proof {
            use_type_invariant(self);
        }
        sources_len(&self.map)
    }

    /// Whether `source` has an entry.
    pub fn contains(&self, source: &String) -> (present: bool)
        ensures
            present == self@.contains_key(source@),
    {
        sources_get(&self.map, source).is_some()
    }

    /// The items cached for `source`, in order; none where it has no entry.
    pub fn get(&self, source: &String) -> (items: Vec<QuickPost>)
        ensures
            post_views(items@) == cached(self@, source@),
    {
        match sources_get(&self.map, source) {
            Some(items) => items,
            None => {
                let items: Vec<QuickPost> = Vec::new();
                assert(post_views(items@) =~= Seq::<PostView>::empty());
                items
            },
        }
    }

    /// Appends `items` to the entry of `source`, which is made if it is missing.
    /// No other entry changes.
    pub fn append(&mut self, source: String, items: Vec<QuickPost>)
        ensures
            final(self)@ == appended(old(self)@, source@, post_views(items@)),
    {
        proof {
            use_type_invariant(&*self);
        }
        let mut items = items;
        let ghost new_items = items@;
        let mut list: Vec<QuickPost> = match sources_remove(&mut self.map, &source) {
            Some(list) => list,
            None => Vec::new(),
        };
        let ghost before = list@;
        assert(post_views(before) =~= cached(old(self)@, source@));
        list.append(&mut items);
        proof {
            lemma_post_views_concat(before, new_items);
        }
        sources_insert(&mut self.map, source, list);
        assert(final(self)@ =~= appended(old(self)@, source@, post_views(new_items)));
    }

    /// Takes in what came of fetching one source: the items of a successful
    /// fetch are appended to the source's entry, a failed fetch leaves the
    /// cache as it was. Returns whether the fetch had succeeded.
    pub fn store_fetched(&mut self, fetch: Fetch) -> (taken: bool)
        ensures
            final(self)@ == stored(old(self)@, fetch@),
            taken == fetch@.items is Some,
    {
        match fetch.outcome {
            Some(submissions) => {
                let items = submissions_to_quickposts(submissions);
                self.append(fetch.source, items);
                true
            },
            None => false,
        }
    }

    /// Takes in a batch of fetches in order, each as `store_fetched` does, so
    /// that a source whose fetch failed keeps the entry it had. Returns the
    /// names of the sources whose fetch failed, in order.
    pub fn refresh(&mut self, fetches: Vec<Fetch>) -> (failed: Vec<String>)
        ensures
            final(self)@ == refreshed(old(self)@, fetch_views(fetches@)),
            names(failed@) == failed_sources(fetch_views(fetches@)),
    {
        let mut failed: Vec<String> = Vec::new();
        assert(names(failed@) =~= Seq::<Seq<char>>::empty());
        let ghost all = fetches@;
        for fetch in it: fetches
            invariant
                it.seq() == all,
                self@ == refreshed(old(self)@, fetch_views(it.seq().take(it.index() as int))),
                names(failed@) == failed_sources(fetch_views(it.seq().take(it.index() as int))),
        {
            let ghost done = it.seq().take(it.index() as int);
            let ghost next = it.seq().take(it.index() + 1);
            let ghost failed_before = failed@;
            proof {
                assert(next.drop_last() =~= done);
                assert(fetch_views(next).drop_last() =~= fetch_views(done));
                assert(fetch_views(next).last() == fetch@);
            }
            let source = fetch.source.clone();
            if !self.store_fetched(fetch) {
                failed.push(source);
                assert(names(failed@) =~= names(failed_before).push(source@));
            }
        }
        assert(all.take(all.len() as int) =~= all);
        failed
    }
}

/// A batch in which every fetch of `source` failed leaves what is cached for
/// `source` as it was: absent if it was absent, the same list otherwise.
pub proof fn lemma_refresh_keeps_failed(
    cache: Map<Seq<char>, Seq<PostView>>,
    fetches: Seq<FetchView>,
    source: Seq<char>,
)
    requires
        forall|i: int|
            0 <= i < fetches.len() && (#[trigger] fetches[i]).source == source
                ==> fetches[i].items is None,
    ensures
        refreshed(cache, fetches).contains_key(source) == cache.contains_key(source),
        cached(refreshed(cache, fetches), source) == cached(cache, source),
    decreases fetches.len(),
{
    if fetches.len() > 0 {
        let rest = fetches.drop_last();
        assert forall|i: int|
            0 <= i < rest.len() && (#[trigger] rest[i]).source == source implies rest[i].items
            is None by {
            assert(rest[i] == fetches[i]);
        }
        lemma_refresh_keeps_failed(cache, rest, source);
        assert(fetches.last() == fetches[fetches.len() - 1]);
    }
}

/// A batch with one successful fetch of a source, and no other but failed
/// ones of the same source, leaves under that source what was cached before
/// followed by the fetch's items, whatever became of the other sources.
pub proof fn lemma_refresh_appends_once(
    cache: Map<Seq<char>, Seq<PostView>>,
    fetches: Seq<FetchView>,
    at: int,
)
    requires
        0 <= at < fetches.len(),
        fetches[at].items is Some,
        forall|i: int|
            0 <= i < fetches.len() && i != at && (#[trigger] fetches[i]).source
                == fetches[at].source ==> fetches[i].items is None,
    ensures
        refreshed(cache, fetches).contains_key(fetches[at].source),
        refreshed(cache, fetches)[fetches[at].source] == cached(cache, fetches[at].source)
            + fetches[at].items->0,
    decreases fetches.len(),
{
    let source = fetches[at].source;
    let rest = fetches.drop_last();
    if at == fetches.len() - 1 {
        assert forall|i: int|
            0 <= i < rest.len() && (#[trigger] rest[i]).source == source implies rest[i].items
            is None by {
            assert(rest[i] == fetches[i]);
        }
        lemma_refresh_keeps_failed(cache, rest, source);
    } else {
        assert(rest[at] == fetches[at]);
        assert forall|i: int|
            0 <= i < rest.len() && i != at && (#[trigger] rest[i]).source
                == rest[at].source implies rest[i].items is None by {
            assert(rest[i] == fetches[i]);
        }
        lemma_refresh_appends_once(cache, rest, at);
        assert(fetches.last() == fetches[fetches.len() - 1]);
    }
}

/// Of two sources fetched in one batch, in either order, one failing and the
/// other succeeding, the one that failed keeps what it had, absent if it was
/// absent, and the other has what it had followed by the items returned for
/// it.
pub proof fn lemma_refresh_failure_is_isolated(
    cache: Map<Seq<char>, Seq<PostView>>,
    failing: Seq<char>,
    succeeding: Seq<char>,
    items: Seq<PostView>,
    failing_first: bool,
)
    requires
        failing != succeeding,
    ensures
        ({
            let failed = FetchView { source: failing, items: None };
            let fetched = FetchView { source: succeeding, items: Some(items) };
            let after = refreshed(
                cache,
                if failing_first {
                    seq![failed, fetched]
                } else {
                    seq![fetched, failed]
                },
            );
            &&& after.contains_key(failing) == cache.contains_key(failing)
            &&& cached(after, failing) == cached(cache, failing)
            &&& after.contains_key(succeeding)
            &&& after[succeeding] == cached(cache, succeeding) + items
        }),
{
    let failed = FetchView { source: failing, items: None };
    let fetched = FetchView { source: succeeding, items: Some(items) };
    if failing_first {
        lemma_refresh_keeps_failed(cache, seq![failed, fetched], failing);
        lemma_refresh_appends_once(cache, seq![failed, fetched], 1);
    } else {
        lemma_refresh_keeps_failed(cache, seq![fetched, failed], failing);
        lemma_refresh_appends_once(cache, seq![fetched, failed], 0);
    }
}

} // verus!
