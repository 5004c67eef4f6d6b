//! The configuration-level identity of one feed, as the pipeline sees
//! it: fetch URL, optional delivery endpoint, optional save directory,
//! presentation options, and the persisted watermark.

use vstd::prelude::*;

verus! {

/// One configured feed. `time_last_post_sent` is the watermark: the
/// timestamp of the most recently confirmed-delivered post, the only
/// field the pipeline ever changes. The unverified layer owns loading
/// and saving this record; the library only reads it and emits an
/// updated copy through [`crate::run::FeedRun::commit_watermark`].
pub struct FeedSource {
    pub name: String,
    pub rss_url: String,
    pub webhook_url: Option<String>,
    pub time_last_post_sent: i64,
    pub color: Option<u32>,
    pub title: Option<String>,
    pub title_url: Option<String>,
    pub webhook_user_name: Option<String>,
    pub webhook_avatar_url: Option<String>,
    pub save_path: Option<String>,
}

/// Whether this cycle has anything to do for the feed: a feed with
/// neither a delivery endpoint nor a save directory is skipped
/// outright.
pub open spec fn spec_should_process(feed: FeedSource) -> bool {
    feed.webhook_url is Some || feed.save_path is Some
}

/// Decides whether the feed is processed this cycle. A `false` answer
/// means the whole cycle for this feed is a no-op: nothing is fetched,
/// rendered, delivered or written, and the watermark stays as loaded.
pub fn should_process(feed: &FeedSource) -> (r: bool)
    ensures
        r == spec_should_process(*feed),
{
    feed.webhook_url.is_some() || feed.save_path.is_some()
}

} // verus!
