//! Renderer tests: attribution forms, image choice, display
//! overrides, and the time marker.

use feedbridge::post::Post;
use feedbridge::render::render;
use feedbridge::source::FeedSource;

fn post() -> Post {
    Post {
        timestamp: 1706778000,
        title: String::from("a post"),
        url: String::from("https://example.org/p/1"),
        author: None,
        author_url: None,
        image_url: None,
        thumbnail_url: None,
    }
}

fn feed() -> FeedSource {
    FeedSource {
        name: String::from("a feed"),
        rss_url: String::from("https://example.org/feed.rss"),
        webhook_url: Some(String::from("https://hooks.example.org/h")),
        time_last_post_sent: 0,
        color: Some(0x00ff00),
        title: Some(String::from("Feed Title")),
        title_url: Some(String::from("https://example.org")),
        webhook_user_name: Some(String::from("poster")),
        webhook_avatar_url: Some(String::from("https://example.org/a.png")),
        save_path: None,
    }
}

#[test]
fn author_name_without_url_renders_bare_name() {
    let mut p = post();
    p.author = Some(String::from("alice"));
    let payload = render(&p, &feed());
    assert_eq!(payload.fields[0].name, "Author");
    assert_eq!(payload.fields[0].value, "alice");
}

#[test]
fn author_name_and_url_render_as_link() {
    let mut p = post();
    p.author = Some(String::from("alice"));
    p.author_url = Some(String::from("https://example.org/u/alice"));
    let payload = render(&p, &feed());
    assert_eq!(payload.fields[0].value, "[alice](https://example.org/u/alice)");
}

#[test]
fn absent_author_renders_placeholder() {
    let payload = render(&post(), &feed());
    assert_eq!(payload.fields[0].value, "[Unknown]");
    // A URL without a name is not an attribution either.
    let mut p = post();
    p.author_url = Some(String::from("https://example.org/u/alice"));
    assert_eq!(render(&p, &feed()).fields[0].value, "[Unknown]");
}

#[test]
fn time_marker_shape() {
    let payload = render(&post(), &feed());
    assert_eq!(payload.fields[1].name, "Time posted");
    assert!(payload.fields[1].inline);
    assert_eq!(payload.fields[1].value, "<t:1706778000:D>\n<t:1706778000:t>");
}

#[test]
fn time_marker_negative_timestamp() {
    let mut p = post();
    p.timestamp = -14182940;
    let payload = render(&p, &feed());
    assert_eq!(payload.fields[1].value, "<t:-14182940:D>\n<t:-14182940:t>");
}

#[test]
fn time_marker_extreme_timestamps() {
    let mut p = post();
    p.timestamp = i64::MIN;
    let payload = render(&p, &feed());
    assert_eq!(
        payload.fields[1].value,
        "<t:-9223372036854775808:D>\n<t:-9223372036854775808:t>"
    );
    p.timestamp = 0;
    assert_eq!(render(&p, &feed()).fields[1].value, "<t:0:D>\n<t:0:t>");
}

#[test]
fn image_prefers_direct_over_thumbnail() {
    let mut p = post();
    p.image_url = Some(String::from("https://img.example.org/full.jpg"));
    p.thumbnail_url = Some(String::from("https://img.example.org/small.jpg"));
    assert_eq!(render(&p, &feed()).image_url, "https://img.example.org/full.jpg");
}

#[test]
fn image_falls_back_to_thumbnail() {
    let mut p = post();
    p.thumbnail_url = Some(String::from("https://img.example.org/small.jpg"));
    assert_eq!(render(&p, &feed()).image_url, "https://img.example.org/small.jpg");
}

#[test]
fn image_empty_when_post_has_none() {
    assert_eq!(render(&post(), &feed()).image_url, "");
}

#[test]
fn presentation_settings_pass_through() {
    let payload = render(&post(), &feed());
    assert_eq!(payload.username.as_deref(), Some("poster"));
    assert_eq!(payload.avatar_url.as_deref(), Some("https://example.org/a.png"));
    assert_eq!(payload.color, Some(0x00ff00));
    assert_eq!(payload.author_name.as_deref(), Some("Feed Title"));
    assert_eq!(payload.author_link.as_deref(), Some("https://example.org"));
    assert_eq!(payload.title, "a post");
    assert_eq!(payload.url, "https://example.org/p/1");
}

#[test]
fn empty_username_means_no_override() {
    let mut f = feed();
    f.webhook_user_name = Some(String::new());
    assert!(render(&post(), &f).username.is_none());
    f.webhook_user_name = None;
    assert!(render(&post(), &f).username.is_none());
}

#[test]
fn missing_settings_render_as_absent() {
    let f = FeedSource {
        name: String::from("bare"),
        rss_url: String::from("https://example.org/feed.rss"),
        webhook_url: None,
        time_last_post_sent: 0,
        color: None,
        title: None,
        title_url: None,
        webhook_user_name: None,
        webhook_avatar_url: None,
        save_path: None,
    };
    let payload = render(&post(), &f);
    assert!(payload.username.is_none());
    assert!(payload.avatar_url.is_none());
    assert!(payload.color.is_none());
    assert!(payload.author_name.is_none());
    assert!(payload.author_link.is_none());
}
