//! Watermark policy and delivery-coordinator tests: selection,
//! ordering, fail-fast, and the crash-safety shape of the watermark.

use feedbridge::post::Post;
use feedbridge::run::FeedRun;
use feedbridge::source::should_process;
use feedbridge::source::FeedSource;
use feedbridge::watermark::select_new;

fn post(ts: i64, title: &str) -> Post {
    Post {
        timestamp: ts,
        title: String::from(title),
        url: String::from("https://example.org/p"),
        author: None,
        author_url: None,
        image_url: None,
        thumbnail_url: None,
    }
}

fn feed_with(webhook: Option<&str>, save: Option<&str>) -> FeedSource {
    FeedSource {
        name: String::from("a feed"),
        rss_url: String::from("https://example.org/feed.rss"),
        webhook_url: webhook.map(String::from),
        time_last_post_sent: 100,
        color: None,
        title: None,
        title_url: None,
        webhook_user_name: None,
        webhook_avatar_url: None,
        save_path: save.map(String::from),
    }
}

#[test]
fn select_new_filters_at_or_below_watermark() {
    let posts = vec![post(99, "old"), post(100, "boundary"), post(101, "new")];
    let r = select_new(posts, 100);
    assert_eq!(r.len(), 1);
    assert_eq!(r[0].title, "new");
}

#[test]
fn select_new_sorts_ascending() {
    let posts = vec![post(5, "e"), post(3, "c"), post(4, "d"), post(1, "a")];
    let r = select_new(posts, 0);
    let ts: Vec<i64> = r.iter().map(|p| p.timestamp).collect();
    assert_eq!(ts, vec![1, 3, 4, 5]);
}

#[test]
fn select_new_is_stable_for_equal_timestamps() {
    let posts = vec![post(2, "first"), post(1, "x"), post(2, "second"), post(2, "third")];
    let r = select_new(posts, 0);
    let titles: Vec<&str> = r.iter().map(|p| p.title.as_str()).collect();
    assert_eq!(titles, vec!["x", "first", "second", "third"]);
}

#[test]
fn select_new_empty_input() {
    let r = select_new(Vec::new(), 7);
    assert!(r.is_empty());
}

#[test]
fn skip_feed_with_neither_webhook_nor_save_path() {
    let feed = feed_with(None, None);
    assert!(!should_process(&feed));
    let run = FeedRun::begin(&feed, vec![post(200, "p")]);
    assert!(run.is_none());
    // Nothing was rendered or delivered and the watermark is untouched.
    assert_eq!(feed.time_last_post_sent, 100);
}

#[test]
fn save_path_alone_is_processed() {
    let feed = feed_with(None, Some("/tmp/media"));
    assert!(should_process(&feed));
    assert!(FeedRun::begin(&feed, vec![post(200, "p")]).is_some());
}

#[test]
fn deliveries_advance_watermark_in_order() {
    let feed = feed_with(Some("https://hooks.example.org/h"), None);
    let mut run = FeedRun::begin(&feed, vec![post(300, "b"), post(200, "a"), post(50, "stale")])
        .unwrap();
    assert_eq!(run.watermark(), 100);

    let first = run.current().unwrap();
    assert_eq!(first.timestamp, 200);
    run.mark_delivered();
    assert_eq!(run.watermark(), 200);

    let second = run.current().unwrap();
    assert_eq!(second.timestamp, 300);
    run.mark_delivered();
    assert_eq!(run.watermark(), 300);

    assert!(!run.active());
    assert!(run.current().is_none());
}

#[test]
fn failed_delivery_keeps_watermark_and_halts() {
    let feed = feed_with(Some("https://hooks.example.org/h"), None);
    let mut run = FeedRun::begin(&feed, vec![post(200, "a"), post(300, "b"), post(400, "c")])
        .unwrap();
    run.mark_delivered();
    assert_eq!(run.watermark(), 200);

    // Delivering B fails: the watermark stays at A's timestamp and the
    // remaining posts are not attempted this cycle.
    run.mark_failed();
    assert_eq!(run.watermark(), 200);
    assert!(!run.active());
    assert!(run.current().is_none());

    // A later run starting from the persisted watermark selects B again.
    let mut feed2 = feed_with(Some("https://hooks.example.org/h"), None);
    run.commit_watermark(&mut feed2);
    assert_eq!(feed2.time_last_post_sent, 200);
    let run2 = FeedRun::begin(&feed2, vec![post(200, "a"), post(300, "b"), post(400, "c")])
        .unwrap();
    let ts: Vec<i64> = run2.posts.iter().map(|p| p.timestamp).collect();
    assert_eq!(ts, vec![300, 400]);
}

#[test]
fn media_outcome_never_affects_progress() {
    let feed = feed_with(Some("https://hooks.example.org/h"), Some("/tmp/media"));
    let mut run = FeedRun::begin(&feed, vec![post(200, "a"), post(300, "b")]).unwrap();
    run.mark_delivered();
    run.record_media(false);
    assert_eq!(run.watermark(), 200);
    assert!(run.active());
    run.mark_delivered();
    run.record_media(true);
    assert_eq!(run.watermark(), 300);
}

#[test]
fn commit_watermark_changes_only_the_watermark() {
    let feed = feed_with(Some("https://hooks.example.org/h"), Some("/tmp/media"));
    let mut run = FeedRun::begin(&feed, vec![post(200, "a")]).unwrap();
    run.mark_delivered();

    let mut out = feed_with(Some("https://hooks.example.org/h"), Some("/tmp/media"));
    out.color = Some(0xffaa00);
    run.commit_watermark(&mut out);
    assert_eq!(out.time_last_post_sent, 200);
    assert_eq!(out.name, "a feed");
    assert_eq!(out.rss_url, "https://example.org/feed.rss");
    assert_eq!(out.color, Some(0xffaa00));
    assert_eq!(out.save_path.as_deref(), Some("/tmp/media"));
}

#[test]
fn watermark_never_decreases_across_runs() {
    let mut feed = feed_with(Some("https://hooks.example.org/h"), None);
    let mut seen: Vec<i64> = vec![feed.time_last_post_sent];
    for batch in [vec![post(150, "x"), post(120, "y")], vec![post(110, "late")], vec![
        post(180, "z"),
    ]] {
        let mut run = FeedRun::begin(&feed, batch).unwrap();
        while run.active() {
            run.mark_delivered();
        }
        run.commit_watermark(&mut feed);
        seen.push(feed.time_last_post_sent);
    }
    for w in seen.windows(2) {
        assert!(w[0] <= w[1]);
    }
    assert_eq!(feed.time_last_post_sent, 180);
}
