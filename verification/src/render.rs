//! The notification renderer: a pure, total map from one post and its
//! feed's presentation settings to a wire-ready payload. Every missing
//! setting means "omit the field" or "use no override", never an
//! error.

use vstd::prelude::*;
use crate::numfmt::i64_to_dec;
use crate::numfmt::spec_i64_dec;
use crate::post::Post;
use crate::source::FeedSource;

verus! {

/// One free-form field of the rendered embed.
pub struct EmbedField {
    pub name: String,
    pub value: String,
    pub inline: bool,
}

/// A rendered, delivery-ready notification: the webhook display
/// overrides and one embedded block with title, link, accent color,
/// image and free-form fields. `image_url` is empty when the post
/// carries no media link.
pub struct NotificationPayload {
    pub username: Option<String>,
    pub avatar_url: Option<String>,
    pub color: Option<u32>,
    pub author_name: Option<String>,
    pub author_link: Option<String>,
    pub fields: Vec<EmbedField>,
    pub title: String,
    pub url: String,
    pub image_url: String,
}

/// Author attribution: a markdown-style link when both name and
/// profile link are present, the bare name when only the name is, and
/// an explicit placeholder otherwise.
pub open spec fn spec_attribution(post: Post) -> Seq<char> {
    match (post.author, post.author_url) {
        (Some(name), Some(url)) => "["@ + name@ + "]("@ + url@ + ")"@,
        (Some(name), None) => name@,
        _ => "[Unknown]"@,
    }
}

/// The post-time marker the delivery endpoint renders as a
/// locale-aware date and time.
pub open spec fn spec_time_marker(ts: i64) -> Seq<char> {
    "<t:"@ + spec_i64_dec(ts as int) + ":D>\n<t:"@ + spec_i64_dec(ts as int) + ":t>"@
}

/// The embedded image link: the direct image over the thumbnail when
/// both are present, whichever exists otherwise, and empty when
/// neither does.
pub open spec fn spec_embed_image(post: Post) -> Seq<char> {
    match (post.image_url, post.thumbnail_url) {
        (Some(image), _) => image@,
        (None, Some(thumb)) => thumb@,
        _ => Seq::<char>::empty(),
    }
}

/// The webhook display-name override: an empty configured name counts
/// as no override.
pub open spec fn spec_username(feed: FeedSource) -> Option<String> {
    match feed.webhook_user_name {
        Some(s) => if s@.len() == 0 {
            None
        } else {
            Some(s)
        },
        None => None,
    }
}

fn attribution(post: &Post) -> (r: String)
    ensures
        r@ == spec_attribution(*post),
{
    match (&post.author, &post.author_url) {
        (Some(name), Some(url)) => {
            let mut s = String::from_str("[");
            s.append(name.as_str());
            s.append("](");
            s.append(url.as_str());
            s.append(")");
            proof {
                assert(s@ =~= spec_attribution(*post));
            }
            s
        },
        (Some(name), None) => name.clone(),
        _ => String::from_str("[Unknown]"),
    }
}

fn time_marker(ts: i64) -> (r: String)
    ensures
        r@ == spec_time_marker(ts),
{
    let dec = i64_to_dec(ts);
    let mut s = String::from_str("<t:");
    s.append(dec.as_str());
    s.append(":D>\n<t:");
    s.append(dec.as_str());
    s.append(":t>");
    proof {
        assert(s@ =~= spec_time_marker(ts));
    }
    s
}

fn embed_image(post: &Post) -> (r: String)
    ensures
        r@ == spec_embed_image(*post),
{
    match (&post.image_url, &post.thumbnail_url) {
        (Some(image), _) => image.clone(),
        (None, Some(thumb)) => thumb.clone(),
        _ => String::new(),
    }
}

/// Renders one post under its feed's presentation settings. Pure and
/// total: every combination of present and absent settings yields a
/// payload.
pub fn render(post: &Post, feed: &FeedSource) -> (r: NotificationPayload)
    ensures
        r.username == spec_username(*feed),
        r.avatar_url == feed.webhook_avatar_url,
        r.color == feed.color,
        r.author_name == feed.title,
        r.author_link == feed.title_url,
        r.title == post.title,
        r.url == post.url,
        r.image_url@ == spec_embed_image(*post),
        r.fields@.len() == 2,
        r.fields@[0].name@ == "Author"@,
        r.fields@[0].value@ == spec_attribution(*post),
        r.fields@[0].inline,
        r.fields@[1].name@ == "Time posted"@,
        r.fields@[1].value@ == spec_time_marker(post.timestamp),
        r.fields@[1].inline,
{
    let username = match &feed.webhook_user_name {
        Some(s) => if s.unicode_len() == 0 {
            None
        } else {
            Some(s.clone())
        },
        None => None,
    };
    let mut fields: Vec<EmbedField> = Vec::new();
    fields.push(
        EmbedField { name: String::from_str("Author"), value: attribution(post), inline: true },
    );
    fields.push(
        EmbedField {
            name: String::from_str("Time posted"),
            value: time_marker(post.timestamp),
            inline: true,
        },
    );
    NotificationPayload {
        username,
        avatar_url: clone_opt(&feed.webhook_avatar_url),
        color: feed.color,
        author_name: clone_opt(&feed.title),
        author_link: clone_opt(&feed.title_url),
        fields,
        title: post.title.clone(),
        url: post.url.clone(),
        image_url: embed_image(post),
    }
}

fn clone_opt(o: &Option<String>) -> (r: Option<String>)
    ensures
        r == *o,
{
    match o {
        Some(s) => Some(s.clone()),
        None => None,
    }
}

} // verus!
