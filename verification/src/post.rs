//! Content items and the submissions they are made from.

use vstd::prelude::*;

verus! {

/// The rank of an item, held as the bit pattern of the IEEE-754 double that the
/// source reported. The library carries it and never computes with it.
#[derive(Clone, Copy, Debug, PartialEq, Eq, Structural)]
pub struct Score {
    pub bits: u64,
}

/// One cached content item. Immutable once made.
#[derive(Debug, PartialEq, Eq)]
pub struct QuickPost {
    pub title: String,
    pub score: Score,
    /// The linked URL where the submission had one, else its body text.
    pub content: String,
    pub nsfw: bool,
    /// Identifies the item within its source.
    pub permalink: String,
    pub sub: String,
}

/// What a [`QuickPost`] holds, as mathematical values.
pub struct PostView {
    pub title: Seq<char>,
    pub score: u64,
    pub content: Seq<char>,
    pub nsfw: bool,
    pub permalink: Seq<char>,
    pub sub: Seq<char>,
}

impl View for QuickPost {
    type V = PostView;

    open spec fn view(&self) -> PostView {
        PostView {
            title: self.title@,
            score: self.score.bits,
            content: self.content@,
            nsfw: self.nsfw,
            permalink: self.permalink@,
            sub: self.sub@,
        }
    }
}

impl Clone for QuickPost {
    fn clone(&self) -> (r: Self)
        ensures
            r@ == self@,
    {
        QuickPost {
            title: self.title.clone(),
            score: self.score,
            content: self.content.clone(),
            nsfw: self.nsfw,
            permalink: self.permalink.clone(),
            sub: self.sub.clone(),
        }
    }
}

/// The views of a sequence of items, in order.
pub open spec fn post_views(posts: Seq<QuickPost>) -> Seq<PostView> {
    posts.map_values(|p: QuickPost| p@)
}

/// `post_views` distributes over concatenation.
pub proof fn lemma_post_views_concat(a: Seq<QuickPost>, b: Seq<QuickPost>)
    ensures
        post_views(a + b) == post_views(a) + post_views(b),
{
    assert(post_views(a + b) =~= post_views(a) + post_views(b));
}

/// `post_views` of a sequence with one more item.
pub proof fn lemma_post_views_push(a: Seq<QuickPost>, p: QuickPost)
    ensures
        post_views(a.push(p)) == post_views(a).push(p@),
{
    assert(post_views(a.push(p)) =~= post_views(a).push(p@));
}

/// One ranked submission as a content source reports it.
#[derive(Debug, PartialEq, Eq)]
pub struct Submission {
    pub title: String,
    pub score: Score,
    /// The linked URL of a link or media submission.
    pub url: Option<String>,
    /// The body text of a text submission.
    pub selftext: String,
    pub over_18: bool,
    pub permalink: String,
    pub subreddit: String,
}

/// What a [`Submission`] holds, as mathematical values.
pub struct SubmissionView {
    pub title: Seq<char>,
    pub score: u64,
    pub url: Option<Seq<char>>,
    pub selftext: Seq<char>,
    pub over_18: bool,
    pub permalink: Seq<char>,
    pub subreddit: Seq<char>,
}

impl View for Submission {
    type V = SubmissionView;

    open spec fn view(&self) -> SubmissionView {
        SubmissionView {
            title: self.title@,
            score: self.score.bits,
            url: match self.url {
                Some(u) => Some(u@),
                None => None,
            },
            selftext: self.selftext@,
            over_18: self.over_18,
            permalink: self.permalink@,
            subreddit: self.subreddit@,
        }
    }
}

/// The item that a submission becomes: its URL is the content where it has
/// one, its body text otherwise.
pub open spec fn quickpost_of(s: SubmissionView) -> PostView {
    PostView {
        title: s.title,
        score: s.score,
        content: match s.url {
            Some(u) => u,
            None => s.selftext,
        },
        nsfw: s.over_18,
        permalink: s.permalink,
        sub: s.subreddit,
    }
}

/// Converts one submission.
pub fn submission_to_quickpost(submission: Submission) -> (post: QuickPost)
    ensures
        post@ == quickpost_of(submission@),
{
    let content = match submission.url {
        Some(url) => url,
        None => submission.selftext,
    };
    QuickPost {
        title: submission.title,
        score: submission.score,
        content,
        nsfw: submission.over_18,
        permalink: submission.permalink,
        sub: submission.subreddit,
    }
}

/// The items that a sequence of submissions becomes, in order.
pub open spec fn quickposts_of(submissions: Seq<Submission>) -> Seq<PostView> {
    submissions.map_values(|s: Submission| quickpost_of(s@))
}

/// Converts submissions to items, one for one and in order.
pub fn submissions_to_quickposts(submissions: Vec<Submission>) -> (posts: Vec<QuickPost>)
    ensures
        post_views(posts@) == quickposts_of(submissions@),
{
    let mut posts: Vec<QuickPost> = Vec::new();
    for submission in it: submissions
        invariant
            post_views(posts@) == quickposts_of(it.seq().take(it.index() as int)),
    {
        let ghost before = posts@;
        let post = submission_to_quickpost(submission);
        posts.push(post);
        proof {
            lemma_post_views_push(before, post);
            assert(it.seq().take(it.index() + 1) =~= it.seq().take(it.index() as int).push(
                submission,
            ));
            assert(quickposts_of(it.seq().take(it.index() + 1)) =~= quickposts_of(
                it.seq().take(it.index() as int),
            ).push(quickpost_of(submission@)));
        }
    }
    posts
}

} // verus!
