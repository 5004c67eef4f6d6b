//! The normalized feed entry that the parser produces and the rest of
//! the pipeline consumes.

use vstd::prelude::*;

verus! {

/// One normalized feed entry. `timestamp` (seconds since the epoch,
/// taken from the feed's publish field) is the sole ordering and
/// deduplication key; every other field is presentation data. Fields
/// that the source feed did not carry are `None`; a missing title or
/// link was already resolved to its documented placeholder by the
/// parser.
#[derive(Debug)]
pub struct Post {
    pub timestamp: i64,
    pub title: String,
    pub url: String,
    pub author: Option<String>,
    pub author_url: Option<String>,
    pub image_url: Option<String>,
    pub thumbnail_url: Option<String>,
}

} // verus!
