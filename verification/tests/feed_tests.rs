use rss_tui::feed::{get_default_feeds, parse_feed};
use rss_tui::feed_guard::admits_feed_bytes;

#[test]
fn default_feeds_are_the_three_built_in_ones() {
    let feeds = get_default_feeds();
    assert_eq!(feeds.len(), 3);
    assert_eq!(feeds[0].name, "Muhammad's Blog (75-Day)");
    assert_eq!(feeds[0].url, "https://blog.usmanity.com/tag/75-day-challenge/rss");
    assert_eq!(feeds[1].name, "The Go Programming Language Blog");
    assert_eq!(feeds[1].url, "https://go.dev/blog/feed.atom");
    assert_eq!(feeds[2].name, "Hacker News");
    assert_eq!(feeds[2].url, "https://news.ycombinator.com/rss");
}

const RSS: &str = r#"<?xml version="1.0" encoding="UTF-8"?>
<rss version="2.0">
<channel>
  <title>Example Feed</title>
  <link>https://example.com/</link>
  <description>An example</description>
  <item>
    <title>First post</title>
    <link>https://example.com/first</link>
    <description>Short summary</description>
    <pubDate>Tue, 05 Mar 2024 14:30:00 GMT</pubDate>
  </item>
  <item>
    <title>Second post</title>
    <description>Only a summary</description>
  </item>
</channel>
</rss>"#;

#[test]
fn rss_items_are_read_in_order() {
    let (title, items) = parse_feed(RSS.as_bytes()).unwrap();
    assert_eq!(title, "Example Feed");
    assert_eq!(items.len(), 2);
    assert_eq!(items[0].title, "First post");
    assert_eq!(items[0].link, "https://example.com/first");
    assert_eq!(items[0].description, "Short summary");
    assert_eq!(items[0].content, "Short summary");
    assert_eq!(items[0].published, "Mar 05, 2024 • 14:30");
    assert_eq!(items[1].title, "Second post");
    assert_eq!(items[1].link, "");
    assert_eq!(items[1].published, "");
}

const ATOM: &str = r#"<?xml version="1.0" encoding="utf-8"?>
<feed xmlns="http://www.w3.org/2005/Atom">
  <id>urn:example</id>
  <updated>2024-01-02T03:04:05Z</updated>
  <entry>
    <id>urn:example:1</id>
    <title>Atom entry</title>
    <link href="https://example.org/a"/>
    <link rel="alternate" href="https://example.org/b"/>
    <updated>2023-12-25T08:09:00Z</updated>
    <summary>Summary text</summary>
    <content type="html">&lt;p&gt;Body&lt;/p&gt;</content>
  </entry>
</feed>"#;

#[test]
fn atom_without_title_gets_default_title_and_update_date() {
    let (title, items) = parse_feed(ATOM.as_bytes()).unwrap();
    assert_eq!(title, "New Feed");
    assert_eq!(items.len(), 1);
    assert_eq!(items[0].title, "Atom entry");
    assert_eq!(items[0].link, "https://example.org/a");
    assert_eq!(items[0].published, "Dec 25, 2023 • 08:09");
    assert_eq!(items[0].description, "Summary text");
    assert_eq!(items[0].content, "<p>Body</p>");
}

#[test]
fn garbage_is_a_parse_error() {
    let err = parse_feed(b"this is not a feed").unwrap_err();
    assert_eq!(err, "unable to parse feed: no root element");
}

const REFUSED: &str = "unable to parse feed: unsupported encoding or podcast or media time out of range";

fn podcast(duration: &str) -> String {
    format!(
        r#"<?xml version="1.0" encoding="UTF-8"?>
<rss version="2.0" xmlns:itunes="http://www.itunes.com/dtds/podcast-1.0.dtd">
<channel>
  <title>Podcast</title>
  <item>
    <title>Episode 1</title>
    <itunes:duration>{}</itunes:duration>
  </item>
</channel>
</rss>"#,
        duration
    )
}

#[test]
fn podcast_with_ordinary_duration_is_parsed() {
    let (title, items) = parse_feed(podcast("01:02:03").as_bytes()).unwrap();
    assert_eq!(title, "Podcast");
    assert_eq!(items.len(), 1);
    assert_eq!(items[0].title, "Episode 1");
}

#[test]
fn podcast_with_fifteen_digit_duration_is_parsed() {
    let (_, items) = parse_feed(podcast("999999999999999:59:59.999999999999999").as_bytes()).unwrap();
    assert_eq!(items.len(), 1);
}

#[test]
fn duration_too_large_for_u64_is_refused() {
    let err = parse_feed(podcast("99999999999999999999999").as_bytes()).unwrap_err();
    assert_eq!(err, REFUSED);
}

#[test]
fn hours_that_overflow_when_multiplied_are_refused() {
    let err = parse_feed(podcast("9999999999999999:00:00").as_bytes()).unwrap_err();
    assert_eq!(err, REFUSED);
}

#[test]
fn arabic_indic_digits_in_duration_are_refused() {
    let err = parse_feed(podcast("\u{663}").as_bytes()).unwrap_err();
    assert_eq!(err, REFUSED);
}

#[test]
fn character_reference_to_a_digit_is_refused() {
    let err = parse_feed(podcast("&#1635;").as_bytes()).unwrap_err();
    assert_eq!(err, REFUSED);
    let err = parse_feed(podcast("&#x30;").as_bytes()).unwrap_err();
    assert_eq!(err, REFUSED);
}

#[test]
fn media_rss_time_too_large_is_refused() {
    let doc = r#"<rss version="2.0" xmlns:media="http://search.yahoo.com/mrss/"><channel><title>M</title>
<item><title>A</title><media:content url="https://example.com/v.mp4"><media:text start="123456789012345678901234">x</media:text></media:content></item>
</channel></rss>"#;
    assert_eq!(parse_feed(doc.as_bytes()).unwrap_err(), REFUSED);
}

#[test]
fn long_digit_runs_without_those_namespaces_are_parsed() {
    let doc = r#"<rss version="2.0"><channel><title>Numbers</title>
<item><title>99999999999999999999999</title><description>&#x663;</description></item>
</channel></rss>"#;
    let (title, items) = parse_feed(doc.as_bytes()).unwrap();
    assert_eq!(title, "Numbers");
    assert_eq!(items[0].title, "99999999999999999999999");
}

#[test]
fn json_feed_is_parsed() {
    let doc = r#"{"version": "https://jsonfeed.org/version/1.1", "title": "Json Feed",
"items": [{"id": "1", "title": "Item one", "url": "https://example.com/1", "content_text": "Hello"}]}"#;
    let (title, items) = parse_feed(doc.as_bytes()).unwrap();
    assert_eq!(title, "Json Feed");
    assert_eq!(items.len(), 1);
    assert_eq!(items[0].title, "Item one");
    assert_eq!(items[0].link, "https://example.com/1");
}

#[test]
fn digit_runs_are_joined_across_comments_but_not_across_tags() {
    let ns = r#"<rss xmlns:itunes="http://www.itunes.com/dtds/podcast-1.0.dtd">"#;
    let joined = format!("{}<a>12345678<!-- c -->12345678<![CDATA[]]></a></rss>", ns);
    assert!(!admits_feed_bytes(joined.as_bytes()));
    let split = format!("{}<a>12345678<b/>12345678</a></rss>", ns);
    assert!(admits_feed_bytes(split.as_bytes()));
    let quoted = format!("{}<a t='1234567890>1234567890'/></rss>", ns);
    assert!(admits_feed_bytes(quoted.as_bytes()));
    let attribute = format!("{}<a t='1234567890123456'/></rss>", ns);
    assert!(!admits_feed_bytes(attribute.as_bytes()));
    let after_quote = format!("{}<a t='x>y'>12345678<!---->12345678</a></rss>", ns);
    assert!(!admits_feed_bytes(after_quote.as_bytes()));
}

#[test]
fn podcast_in_another_encoding_or_with_doctype_is_refused() {
    let japanese = podcast("1").replace("UTF-8", "Shift_JIS");
    assert_eq!(parse_feed(japanese.as_bytes()).unwrap_err(), REFUSED);
    let wide = podcast("1").replace("UTF-8", "UTF-16");
    assert_eq!(parse_feed(wide.as_bytes()).unwrap_err(), REFUSED);
    let doctype = podcast("1").replace("<rss", "<!DOCTYPE rss>\n<rss");
    assert_eq!(parse_feed(doctype.as_bytes()).unwrap_err(), REFUSED);
}

#[test]
fn latin1_feeds_are_parsed() {
    let doc = podcast("00:10").replace("UTF-8", "iso-8859-1").replace("Episode 1", "Caf\u{e9}");
    let mut bytes = Vec::new();
    for c in doc.chars() {
        bytes.push(c as u32 as u8);
    }
    let (title, items) = parse_feed(&bytes).unwrap();
    assert_eq!(title, "Podcast");
    assert_eq!(items[0].title, "Caf\u{e9}");
}
