use hls_bot::feed::{
    append_to_document, build_feed_item, build_feed_item_now, empty_document, render_item,
    FeedError, FeedItem,
};
use hls_bot::metadata::metadata_from_json;
use hls_bot::wire::Job;

const HEADER: &str = "<?xml version=\"1.0\" encoding=\"UTF-8\"?>\n<rss version=\"2.0\" xmlns:itunes=\"http://www.itunes.com/dtds/podcast-1.0.dtd\" xmlns:content=\"http://purl.org/rss/1.0/modules/content/\">\n<channel>\n    <title>YouTube Podcast</title>\n    <description>Downloaded YouTube Videos as Podcast</description>\n    <language>en-us</language>\n    <itunes:author>YouTube Downloader</itunes:author>\n    <itunes:summary>YouTube videos converted to podcast format</itunes:summary>\n    <itunes:owner>\n        <itunes:name>YouTube Downloader</itunes:name>\n        <itunes:email>noreply@example.com</itunes:email>\n    </itunes:owner>\n    <itunes:explicit>no</itunes:explicit>\n    <itunes:category text=\"Technology\"/>\n    <itunes:image href=\"https://example.com/podcast.jpg\"/>\n";

const FOOTER: &str = "</channel>\n</rss>";

fn item(title: &str) -> FeedItem {
    FeedItem {
        title: String::from(title),
        author: String::from("Bob"),
        summary: String::from(title),
        enclosure_url: String::from("file.mp4"),
        enclosure_length: 9,
        guid: String::from("https://youtube.com/w"),
        published_at: String::from("Thu, 01 Jan 1970 00:00:00 +0000"),
        duration_seconds: 30,
    }
}

#[test]
fn empty_document_is_the_canonical_template() {
    let d = empty_document();
    assert_eq!(d, format!("{}{}", HEADER, FOOTER));
}

#[test]
fn first_append_yields_exactly_one_verbatim_item() {
    let it = item("Sample");
    let d = append_to_document(None, &it).unwrap();
    let expected_item = "\n    <item>\n        <title>Sample</title>\n        <itunes:author>Bob</itunes:author>\n        <itunes:summary>Sample</itunes:summary>\n        <enclosure url=\"file.mp4\" type=\"video/mp4\" length=\"9\"/>\n        <guid>https://youtube.com/w</guid>\n        <pubDate>Thu, 01 Jan 1970 00:00:00 +0000</pubDate>\n        <itunes:duration>30</itunes:duration>\n        <itunes:explicit>no</itunes:explicit>\n    </item>\n    ";
    assert_eq!(d, format!("{}{}{}", HEADER, expected_item, FOOTER));
    assert_eq!(render_item(&it), expected_item);
}

#[test]
fn appends_are_newest_first() {
    let a = append_to_document(None, &item("A")).unwrap();
    let b = append_to_document(Some(&a), &item("B")).unwrap();
    let c = append_to_document(Some(&b), &item("C")).unwrap();
    let ic = c.find("<title>C</title>").unwrap();
    let ia = c.find("<title>A</title>").unwrap();
    let ib = c.find("<title>B</title>").unwrap();
    assert!(ic < ib && ib < ia, "items must read [C, B, A], newest first");
}

#[test]
fn repeated_appends_never_corrupt_the_document() {
    let mut d = empty_document();
    for i in 0..5u64 {
        d = append_to_document(Some(&d), &item(&format!("t{}", i))).unwrap();
        assert!(d.starts_with(HEADER), "header intact after {} appends", i + 1);
        assert!(d.ends_with(FOOTER), "footer intact after {} appends", i + 1);
        assert_eq!(d.matches("<item>").count(), (i + 1) as usize);
        assert_eq!(d.matches("</item>").count(), (i + 1) as usize);
        assert_eq!(d.matches("</channel>").count(), 1);
    }
}

#[test]
fn document_without_the_anchor_is_refused() {
    let r = append_to_document(Some("<rss><channel></channel></rss>"), &item("A"));
    assert!(matches!(r, Err(FeedError::MalformedDocument)));
    let r2 = append_to_document(Some(""), &item("A"));
    assert!(matches!(r2, Err(FeedError::MalformedDocument)));
}

#[test]
fn feed_item_is_derived_from_job_and_metadata() {
    let job = Job {
        url: String::from("https://www.youtube.com/watch?v=abc123"),
        user_id: String::from("42"),
    };
    let meta = metadata_from_json("{\"title\":\"Sample\",\"uploader\":\"Bob\"}").unwrap();
    let it = build_feed_item(&job, &meta, "Sample.mp4", "Thu, 01 Jan 1970 00:00:00 +0000");
    assert_eq!(it.title, "Sample");
    assert_eq!(it.author, "Bob");
    assert_eq!(it.summary, "Sample");
    assert_eq!(it.enclosure_url, "Sample.mp4");
    assert_eq!(it.enclosure_length, 0);
    assert_eq!(it.guid, "https://www.youtube.com/watch?v=abc123");
    assert_eq!(it.published_at, "Thu, 01 Jan 1970 00:00:00 +0000");
    assert_eq!(it.duration_seconds, 0);
}

#[test]
fn stamped_feed_item_carries_a_real_timestamp() {
    let job = Job { url: String::from("u"), user_id: String::from("1") };
    let meta = metadata_from_json("{}").unwrap();
    let it = build_feed_item_now(&job, &meta, "Untitled.mp4");
    assert!(!it.published_at.is_empty());
    assert!(it.published_at.contains(","), "an RFC 2822 stamp names the weekday");
}
