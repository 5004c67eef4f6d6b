//! The delivery coordinator for one feed and one cycle.
//!
//! A [`FeedRun`] holds the posts selected by the watermark policy and
//! walks them oldest first. The unverified layer performs the actual
//! HTTP work and reports each outcome back; the run decides what that
//! outcome means. A confirmed delivery advances the watermark to the
//! delivered post's timestamp; a failed delivery halts the run with
//! the watermark untouched, so the watermark only ever covers a
//! contiguous prefix of confirmed deliveries. Media outcomes never
//! influence progress.

use vstd::prelude::*;
use crate::post::Post;
use crate::source::FeedSource;
use crate::source::spec_should_process;
use crate::watermark::all_above;
use crate::watermark::select_new;
use crate::watermark::sorted_by_timestamp;
use crate::watermark::spec_select_new;

verus! {

/// The state of one feed's cycle: the selected posts in delivery
/// order, the index of the next post to attempt, the watermark as it
/// stands, the watermark the cycle started from, and whether a failed
/// delivery has halted the run.
pub struct FeedRun {
    pub posts: Vec<Post>,
    pub next: usize,
    pub watermark: i64,
    pub start_watermark: i64,
    pub halted: bool,
}

impl FeedRun {
    /// The run's internal invariant: posts ascend by timestamp and all
    /// lie strictly above the starting watermark; the watermark equals
    /// the starting one until a post is confirmed and from then on the
    /// timestamp of the last confirmed post.
    pub open spec fn inv(self) -> bool {
        &&& self.next <= self.posts@.len()
        &&& sorted_by_timestamp(self.posts@)
        &&& all_above(self.posts@, self.start_watermark)
        &&& self.watermark >= self.start_watermark
        &&& (self.next == 0 ==> self.watermark == self.start_watermark)
        &&& (self.next > 0 ==> self.watermark == self.posts@[self.next - 1].timestamp)
    }

    /// Whether another post is to be attempted.
    pub open spec fn spec_active(self) -> bool {
        !self.halted && self.next < self.posts@.len()
    }

    /// The confirmed-delivery transition: the post under `next` was
    /// delivered (or the feed has no endpoint and the post counts as
    /// handled), so the watermark advances to its timestamp.
    pub open spec fn step_delivered(pre: FeedRun, post: FeedRun) -> bool {
        &&& pre.spec_active()
        &&& post.posts == pre.posts
        &&& post.start_watermark == pre.start_watermark
        &&& post.halted == pre.halted
        &&& post.next == pre.next + 1
        &&& post.watermark == pre.posts@[pre.next as int].timestamp
    }

    /// The failed-delivery transition: the attempt on the post under
    /// `next` failed, the run halts, and nothing else changes — in
    /// particular the watermark stays on the last confirmed post.
    pub open spec fn step_failed(pre: FeedRun, post: FeedRun) -> bool {
        &&& pre.spec_active()
        &&& post == (FeedRun { halted: true, ..pre })
    }

    /// Begins one cycle for `feed` over the posts parsed from its
    /// document. Returns `None` exactly when the feed has neither a
    /// delivery endpoint nor a save directory configured: such a feed
    /// is skipped outright — no payload is rendered, nothing is
    /// delivered or written, and the watermark is left as it was
    /// loaded.
    pub fn begin(feed: &FeedSource, posts: Vec<Post>) -> (r: Option<FeedRun>)
        ensures
            r is Some <==> spec_should_process(*feed),
            r matches Some(run) ==> {
                &&& run.inv()
                &&& run.posts@ == spec_select_new(posts@, feed.time_last_post_sent)
                &&& run.next == 0
                &&& run.watermark == feed.time_last_post_sent
                &&& run.start_watermark == feed.time_last_post_sent
                &&& !run.halted
            },
    {
        if feed.webhook_url.is_none() && feed.save_path.is_none() {
            return None;
        }
        let selected = select_new(posts, feed.time_last_post_sent);
        Some(
            FeedRun {
                posts: selected,
                next: 0,
                watermark: feed.time_last_post_sent,
                start_watermark: feed.time_last_post_sent,
                halted: false,
            },
        )
    }

    /// Whether another post is to be attempted this cycle.
    pub fn active(&self) -> (r: bool)
        ensures
            r == self.spec_active(),
    {
        !self.halted && self.next < self.posts.len()
    }

    /// The post to attempt next.
    pub fn current(&self) -> (r: Option<&Post>)
        requires
            self.inv(),
        ensures
            r is Some <==> self.spec_active(),
            r matches Some(p) ==> *p == self.posts@[self.next as int],
    {
        if !self.halted && self.next < self.posts.len() {
            Some(&self.posts[self.next])
        } else {
            None
        }
    }

    /// Records that the current post was confirmed delivered (or that
    /// the feed has no endpoint, in which case the post counts as
    /// handled once rendered and saved): the watermark advances to its
    /// timestamp, never downward, and the run moves to the next post.
    pub fn mark_delivered(&mut self)
        requires
            old(self).inv(),
            old(self).spec_active(),
        ensures
            final(self).inv(),
            Self::step_delivered(*old(self), *final(self)),
            final(self).watermark >= old(self).watermark,
    {
        proof {
            lemma_delivery_monotonic(*self);
        }
        let n = self.posts.len();
        assert(self.next < n);
        self.watermark = self.posts[self.next].timestamp;
        self.next = self.next + 1;
    }

    /// Records that delivering the current post failed (a non-success
    /// response or a transport error): the run halts — no later post of
    /// this feed is attempted this cycle — and the watermark stays on
    /// the last confirmed post.
    pub fn mark_failed(&mut self)
        requires
            old(self).inv(),
            old(self).spec_active(),
        ensures
            final(self).inv(),
            Self::step_failed(*old(self), *final(self)),
            final(self).watermark == old(self).watermark,
            !final(self).spec_active(),
    {
        self.halted = true;
    }

    /// Records the outcome of the best-effort media fetch for the post
    /// just handled. Success or failure, it changes nothing: the
    /// watermark keeps the value the confirmed delivery gave it and
    /// later posts are processed as if the fetch had not happened.
    pub fn record_media(&mut self, ok: bool)
        ensures
            *final(self) == *old(self),
    {
        let _ = ok;
    }

    /// The watermark as of this point of the cycle: what
    /// `time_last_post_sent` must be persisted as.
    pub fn watermark(&self) -> (r: i64)
        ensures
            r == self.watermark,
    {
        self.watermark
    }

    /// Writes the run's watermark back into the feed record, changing
    /// nothing else, so the unverified layer can persist it after each
    /// confirmed post.
    pub fn commit_watermark(&self, feed: &mut FeedSource)
        ensures
            *final(feed) == (FeedSource { time_last_post_sent: self.watermark, ..*old(feed) }),
    {
        feed.time_last_post_sent = self.watermark;
    }
}

/// The watermark never moves downward: a confirmed delivery raises it
/// to the delivered post's timestamp, which lies at or above whatever
/// the watermark held (the starting value, or an earlier post of the
/// ascending selection), and every other step leaves it unchanged. As
/// a later run starts from the persisted value, the watermark is
/// monotonically non-decreasing across runs as well.
pub proof fn lemma_delivery_monotonic(pre: FeedRun)
    requires
        pre.inv(),
        pre.spec_active(),
    ensures
        pre.posts@[pre.next as int].timestamp >= pre.watermark,
        pre.posts@[pre.next as int].timestamp > pre.start_watermark,
{
    if pre.next > 0 {
        assert(pre.posts@[pre.next - 1].timestamp <= pre.posts@[pre.next as int].timestamp);
    }
}

/// No post at or below the cycle-start watermark is ever attempted:
/// every post the run can hand out lies strictly above it.
pub proof fn lemma_attempted_above_start(r: FeedRun, i: int)
    requires
        r.inv(),
        0 <= i < r.posts@.len(),
    ensures
        r.posts@[i].timestamp > r.start_watermark,
{
}

/// Of two new posts, the one with the smaller timestamp is attempted
/// first: the run attempts posts in index order, and a strictly
/// smaller timestamp means a strictly smaller index.
pub proof fn lemma_smaller_timestamp_first(r: FeedRun, i: int, j: int)
    requires
        r.inv(),
        0 <= i < r.posts@.len(),
        0 <= j < r.posts@.len(),
        r.posts@[i].timestamp < r.posts@[j].timestamp,
    ensures
        i < j,
{
    if i >= j {
        assert(r.posts@[j].timestamp <= r.posts@[i].timestamp);
    }
}

/// If post A was confirmed and delivering the next post B then failed,
/// the watermark holds A's timestamp — not B's — and the halted run
/// attempts nothing further this cycle. B stays strictly above the
/// persisted watermark, so the next run's selection picks it up again
/// (see `lemma_select_new_contains`).
pub proof fn lemma_failure_keeps_last_confirmed(r0: FeedRun, r1: FeedRun, r2: FeedRun)
    requires
        r0.inv(),
        FeedRun::step_delivered(r0, r1),
        FeedRun::step_failed(r1, r2),
    ensures
        r2.watermark == r0.posts@[r0.next as int].timestamp,
        r0.posts@[r0.next + 1].timestamp > r0.posts@[r0.next as int].timestamp ==> r2.watermark
            < r0.posts@[r0.next + 1].timestamp,
        !r2.spec_active(),
{
}

} // verus!
