//! A feed-to-webhook bridge library: parses Atom and RSS/MRSS feed
//! documents into normalized posts, selects the posts that are new
//! relative to a persisted watermark, renders each as a notification
//! payload, and tracks per-post delivery so that the watermark only
//! ever advances over a contiguous prefix of confirmed deliveries.
//!
//! The modules, leaves first:
//! - [`text`], [`numfmt`]: character-sequence and decimal helpers.
//! - [`xml`]: the plain-value XML tree and the trusted boundary to
//!   `roxmltree` that produces it.
//! - [`dates`]: the two publish-timestamp grammars, evaluated to UTC
//!   epoch seconds.
//! - [`post`], [`source`]: the normalized feed entry and the
//!   configured feed with its watermark.
//! - [`feed`]: dialect detection and entry extraction.
//! - [`watermark`]: which posts are new, and in what order.
//! - [`render`]: post plus presentation settings to payload.
//! - [`run`]: the per-feed delivery coordinator and its laws.
//! - [`media`]: filename sanitizing and the media-save decision.

pub mod dates;
pub mod feed;
pub mod media;
pub mod numfmt;
pub mod post;
pub mod render;
pub mod run;
pub mod source;
pub mod text;
pub mod watermark;
pub mod xml;
