//! Filename sanitizing, stem/extension derivation, and the media-save
//! decision.

use feedbridge::media::media_filename;
use feedbridge::media::plan_media;
use feedbridge::media::sanitize_filename;
use feedbridge::media::split_stem_ext;
use feedbridge::media::MediaPlan;
use feedbridge::post::Post;
use feedbridge::source::FeedSource;

fn post_with(image: Option<&str>, thumb: Option<&str>) -> Post {
    Post {
        timestamp: 1,
        title: String::from("My Post"),
        url: String::from("https://example.org/p"),
        author: None,
        author_url: None,
        image_url: image.map(String::from),
        thumbnail_url: thumb.map(String::from),
    }
}

fn feed_with_save(save: Option<&str>) -> FeedSource {
    FeedSource {
        name: String::from("f"),
        rss_url: String::from("https://example.org/feed.rss"),
        webhook_url: None,
        time_last_post_sent: 0,
        color: None,
        title: None,
        title_url: None,
        webhook_user_name: None,
        webhook_avatar_url: None,
        save_path: save.map(String::from),
    }
}

#[test]
fn sanitize_slash_colon_quote() {
    assert_eq!(sanitize_filename("a/b:c\"d"), "a_b_c'd");
}

#[test]
fn sanitize_all_illegal_chars() {
    assert_eq!(sanitize_filename("<>:\"/\\|?*"), "___'_____");
    assert_eq!(sanitize_filename("plain-name.jpg"), "plain-name.jpg");
    assert_eq!(sanitize_filename(""), "");
}

#[test]
fn stem_and_extension_from_url() {
    assert_eq!(
        split_stem_ext("https://i.redd.it/abc123.png"),
        Some((String::from("abc123"), String::from("png")))
    );
    assert_eq!(
        split_stem_ext("https://example.org/dir/two.dots.jpeg"),
        Some((String::from("two.dots"), String::from("jpeg")))
    );
    assert_eq!(split_stem_ext("plain.gif"), Some((String::from("plain"), String::from("gif"))));
}

#[test]
fn underivable_extension() {
    assert_eq!(split_stem_ext("https://example.org/noext"), None);
    assert_eq!(split_stem_ext("https://example.org/.hidden"), None);
    assert_eq!(split_stem_ext(""), None);
}

#[test]
fn media_filename_shape() {
    assert_eq!(
        media_filename("My Post", "https://i.redd.it/abc123.png").as_deref(),
        Some("My Post - [abc123].png")
    );
    // The composed name is sanitized as a whole.
    assert_eq!(
        media_filename("a/b", "https://i.redd.it/x\"y.png").as_deref(),
        Some("a_b - [x'y].png")
    );
    assert_eq!(media_filename("t", "https://example.org/noext"), None);
}

#[test]
fn plan_media_not_configured() {
    let plan = plan_media(&feed_with_save(None), &post_with(Some("https://x.org/a.png"), None));
    assert!(matches!(plan, MediaPlan::NotConfigured));
}

#[test]
fn plan_media_no_media_url() {
    let plan = plan_media(&feed_with_save(Some("/tmp/media")), &post_with(None, None));
    assert!(matches!(plan, MediaPlan::NoMediaUrl));
}

#[test]
fn plan_media_no_usable_name() {
    let plan = plan_media(&feed_with_save(Some("/tmp/media")), &post_with(
        Some("https://x.org/noext"),
        None,
    ));
    assert!(matches!(plan, MediaPlan::NoUsableName));
}

#[test]
fn plan_media_fetch_prefers_image() {
    let plan = plan_media(&feed_with_save(Some("/tmp/media")), &post_with(
        Some("https://x.org/full.jpg"),
        Some("https://x.org/small.jpg"),
    ));
    match plan {
        MediaPlan::Fetch { url, dir, filename } => {
            assert_eq!(url, "https://x.org/full.jpg");
            assert_eq!(dir, "/tmp/media");
            assert_eq!(filename, "My Post - [full].jpg");
        },
        _ => panic!("expected a fetch"),
    }
}

#[test]
fn plan_media_falls_back_to_thumbnail() {
    let plan = plan_media(&feed_with_save(Some("/tmp/media")), &post_with(
        None,
        Some("https://x.org/small.webp"),
    ));
    match plan {
        MediaPlan::Fetch { url, filename, .. } => {
            assert_eq!(url, "https://x.org/small.webp");
            assert_eq!(filename, "My Post - [small].webp");
        },
        _ => panic!("expected a fetch"),
    }
}
