//! End-to-end parsing tests: real XML through the real `roxmltree`
//! boundary, date-time parsing, and the image-link scan.

use feedbridge::dates::parse_rfc3339;
use feedbridge::dates::parse_rfc822;
use feedbridge::feed::find_image_link;
use feedbridge::feed::parse_feed;
use feedbridge::feed::ParseError;

#[test]
fn rfc3339_with_positive_offset() {
    assert_eq!(parse_rfc3339("2024-02-01T10:00:00+01:00"), Some(1706778000));
}

#[test]
fn rfc3339_utc_z() {
    assert_eq!(parse_rfc3339("2024-02-01T09:00:00Z"), Some(1706778000));
    assert_eq!(parse_rfc3339("2024-02-01T09:00:00z"), Some(1706778000));
    assert_eq!(parse_rfc3339("1970-01-01T00:00:00Z"), Some(0));
}

#[test]
fn rfc3339_negative_offset() {
    assert_eq!(parse_rfc3339("2005-12-31T18:30:02-05:00"), Some(1136071802));
}

#[test]
fn rfc3339_fractional_seconds_ignored() {
    assert_eq!(parse_rfc3339("2024-02-01T09:00:00.25Z"), Some(1706778000));
    assert_eq!(parse_rfc3339("2024-02-01T09:00:00.Z"), None);
}

#[test]
fn rfc3339_before_epoch() {
    assert_eq!(parse_rfc3339("1969-07-20T20:17:40Z"), Some(-14182940));
}

#[test]
fn rfc3339_leap_day() {
    assert_eq!(parse_rfc3339("2024-02-29T23:59:59Z"), Some(1709251199));
    assert_eq!(parse_rfc3339("2023-02-29T00:00:00Z"), None);
}

#[test]
fn rfc3339_rejects_out_of_range() {
    assert_eq!(parse_rfc3339("2024-13-01T00:00:00Z"), None);
    assert_eq!(parse_rfc3339("2024-00-01T00:00:00Z"), None);
    assert_eq!(parse_rfc3339("2024-01-32T00:00:00Z"), None);
    assert_eq!(parse_rfc3339("2024-01-01T24:00:00Z"), None);
    assert_eq!(parse_rfc3339("2024-01-01T00:60:00Z"), None);
    assert_eq!(parse_rfc3339("2024-01-01 00:00:00Z"), None);
    assert_eq!(parse_rfc3339("2024-01-01T00:00:00"), None);
    assert_eq!(parse_rfc3339("not a date"), None);
    assert_eq!(parse_rfc3339(""), None);
}

#[test]
fn rfc822_with_offset() {
    assert_eq!(parse_rfc822("Mon, 05 Feb 2024 10:00:00 +0100"), Some(1707123600));
    assert_eq!(parse_rfc822("Tue, 10 Jun 2003 04:00:00 +0000"), Some(1055217600));
}

#[test]
fn rfc822_offset_shapes() {
    assert_eq!(parse_rfc822("Mon, 05 Feb 2024 09:00:00 Z"), Some(1707123600));
    assert_eq!(parse_rfc822("Mon, 05 Feb 2024 10:00:00 +01:00"), Some(1707123600));
    assert_eq!(parse_rfc822("Mon, 05 Feb 2024 04:00:00 -0500"), Some(1707123600));
}

#[test]
fn rfc822_rejects_malformed() {
    assert_eq!(parse_rfc822("Xyz, 05 Feb 2024 10:00:00 +0100"), None);
    assert_eq!(parse_rfc822("Mon, 05 Xxx 2024 10:00:00 +0100"), None);
    assert_eq!(parse_rfc822("Mon, 32 Feb 2024 10:00:00 +0100"), None);
    assert_eq!(parse_rfc822("Mon, 05 Feb 2024 10:00:00"), None);
    assert_eq!(parse_rfc822(""), None);
}

#[test]
fn atom_entry_published_yields_utc_epoch() {
    let body = r#"<?xml version="1.0" encoding="utf-8"?>
<feed xmlns="http://www.w3.org/2005/Atom">
  <title>example feed</title>
  <entry>
    <title>hello</title>
    <link href="https://example.org/posts/1"/>
    <published>2024-02-01T10:00:00+01:00</published>
  </entry>
</feed>"#;
    let posts = parse_feed(body).unwrap();
    assert_eq!(posts.len(), 1);
    assert_eq!(posts[0].timestamp, 1706778000);
    assert_eq!(posts[0].title, "hello");
    assert_eq!(posts[0].url, "https://example.org/posts/1");
}

#[test]
fn atom_entry_full_fields() {
    let body = r#"<feed xmlns="http://www.w3.org/2005/Atom" xmlns:media="http://search.yahoo.com/mrss/">
  <entry>
    <author><name>alice</name><uri>https://example.org/user/alice</uri></author>
    <title>a post</title>
    <link href="https://example.org/p/9"/>
    <published>2024-02-01T09:00:00Z</published>
    <media:thumbnail url="https://thumbs.example.org/t9.jpg"/>
    <content>look at https://i.redd.it/abc123.png here</content>
  </entry>
</feed>"#;
    let posts = parse_feed(body).unwrap();
    assert_eq!(posts.len(), 1);
    let p = &posts[0];
    assert_eq!(p.author.as_deref(), Some("alice"));
    assert_eq!(p.author_url.as_deref(), Some("https://example.org/user/alice"));
    assert_eq!(p.title, "a post");
    assert_eq!(p.url, "https://example.org/p/9");
    assert_eq!(p.timestamp, 1706778000);
    assert_eq!(p.thumbnail_url.as_deref(), Some("https://thumbs.example.org/t9.jpg"));
    assert_eq!(p.image_url.as_deref(), Some("https://i.redd.it/abc123.png"));
}

#[test]
fn atom_first_link_wins() {
    // An entry regularly carries several link elements; the first one
    // carrying a target attribute names the post.
    let body = r#"<feed xmlns="http://www.w3.org/2005/Atom">
  <entry>
    <link href="https://example.org/alternate"/>
    <link href="https://example.org/self"/>
  </entry>
</feed>"#;
    let posts = parse_feed(body).unwrap();
    assert_eq!(posts[0].url, "https://example.org/alternate");
}

#[test]
fn atom_first_link_must_carry_href() {
    let body = r#"<feed xmlns="http://www.w3.org/2005/Atom">
  <entry>
    <link rel="enclosure"/>
    <link href="https://example.org/p/2"/>
  </entry>
</feed>"#;
    let posts = parse_feed(body).unwrap();
    assert_eq!(posts[0].url, "https://example.org/p/2");
}

#[test]
fn atom_missing_fields_get_defaults() {
    let body = r#"<feed xmlns="http://www.w3.org/2005/Atom"><entry></entry></feed>"#;
    let posts = parse_feed(body).unwrap();
    assert_eq!(posts.len(), 1);
    let p = &posts[0];
    assert_eq!(p.title, "[Kein Titel]");
    assert_eq!(p.url, "");
    assert_eq!(p.timestamp, 0);
    assert!(p.author.is_none());
    assert!(p.author_url.is_none());
    assert!(p.image_url.is_none());
    assert!(p.thumbnail_url.is_none());
}

#[test]
fn mrss_item_full_fields() {
    let body = r#"<rss version="2.0" xmlns:media="http://search.yahoo.com/mrss/" xmlns:dc="http://purl.org/dc/elements/1.1/">
<channel>
  <title>a channel</title>
  <item>
    <title>first</title>
    <link>https://example.org/r/1</link>
    <pubDate>Mon, 05 Feb 2024 10:00:00 +0100</pubDate>
    <dc:creator>https://example.org/user/bob_42</dc:creator>
    <media:content url="https://img.example.org/full.jpg"/>
    <media:thumbnail url="https://img.example.org/small.jpg"/>
  </item>
</channel>
</rss>"#;
    let posts = parse_feed(body).unwrap();
    assert_eq!(posts.len(), 1);
    let p = &posts[0];
    assert_eq!(p.title, "first");
    assert_eq!(p.url, "https://example.org/r/1");
    assert_eq!(p.timestamp, 1707123600);
    assert_eq!(p.author_url.as_deref(), Some("https://example.org/user/bob_42"));
    assert_eq!(p.author.as_deref(), Some("bob_42"));
    assert_eq!(p.image_url.as_deref(), Some("https://img.example.org/full.jpg"));
    assert_eq!(p.thumbnail_url.as_deref(), Some("https://img.example.org/small.jpg"));
}

#[test]
fn mrss_creator_without_word_segment_gives_no_author() {
    let body = r#"<rss xmlns:dc="http://purl.org/dc/elements/1.1/">
<channel><item><dc:creator>https://example.org/user/a-b</dc:creator></item></channel></rss>"#;
    let posts = parse_feed(body).unwrap();
    assert_eq!(posts[0].author_url.as_deref(), Some("https://example.org/user/a-b"));
    assert!(posts[0].author.is_none());
}

#[test]
fn namespace_prefixes_are_not_assumed() {
    // The media namespace bound to an unusual prefix is still found by
    // its prefix name `media` only; another prefix is not.
    let body = r#"<rss xmlns:media="urn:other"><channel>
  <item><media:content url="https://img.example.org/x.png"/></item>
</channel></rss>"#;
    let posts = parse_feed(body).unwrap();
    assert_eq!(posts[0].image_url.as_deref(), Some("https://img.example.org/x.png"));

    let body2 = r#"<rss xmlns:m="http://search.yahoo.com/mrss/"><channel>
  <item><m:content url="https://img.example.org/x.png"/></item>
</channel></rss>"#;
    let posts2 = parse_feed(body2).unwrap();
    assert!(posts2[0].image_url.is_none());
}

#[test]
fn multiple_items_in_feed_order() {
    let body = r#"<rss><channel>
  <item><title>one</title></item>
  <item><title>two</title></item>
  <item><title>three</title></item>
</channel></rss>"#;
    let posts = parse_feed(body).unwrap();
    let titles: Vec<&str> = posts.iter().map(|p| p.title.as_str()).collect();
    assert_eq!(titles, vec!["one", "two", "three"]);
}

#[test]
fn malformed_xml_is_not_xml() {
    assert_eq!(parse_feed("<rss><channel>").unwrap_err(), ParseError::NotXml);
    assert_eq!(parse_feed("").unwrap_err(), ParseError::NotXml);
}

#[test]
fn unsupported_root_is_rejected() {
    assert_eq!(parse_feed("<html></html>").unwrap_err(), ParseError::UnsupportedRoot);
}

#[test]
fn rss_without_channel_is_rejected() {
    assert_eq!(parse_feed("<rss version=\"2.0\"></rss>").unwrap_err(), ParseError::MissingChannel);
}

#[test]
fn image_link_scan_finds_known_hosts() {
    assert_eq!(
        find_image_link("look at https://i.redd.it/abc123.png here").as_deref(),
        Some("https://i.redd.it/abc123.png")
    );
    assert_eq!(
        find_image_link("x https://i.imgur.com/q.jpeg y").as_deref(),
        Some("https://i.imgur.com/q.jpeg")
    );
}

#[test]
fn image_link_scan_is_greedy_within_a_line() {
    // The match stretches to the last image extension on the line.
    assert_eq!(
        find_image_link("https://i.redd.it/a.jpg and b.png").as_deref(),
        Some("https://i.redd.it/a.jpg and b.png")
    );
    // A newline bounds the match.
    assert_eq!(
        find_image_link("https://i.redd.it/a.jpg\nand b.png").as_deref(),
        Some("https://i.redd.it/a.jpg")
    );
}

#[test]
fn image_link_scan_misses() {
    assert!(find_image_link("no links here").is_none());
    assert!(find_image_link("https://example.org/a.jpg").is_none());
    assert!(find_image_link("https://i.redd.it/noext").is_none());
    assert!(find_image_link("https://i.redd.it/.jpg").is_none());
}
