//! The Feed Document Store's document logic: one structured feed document
//! per requester, a fixed channel header as the insertion anchor, items
//! spliced in newest-first right after the header. Reading and atomically
//! rewriting the file is the caller's part; every document transformation
//! happens here and keeps the document well-formed.

use vstd::prelude::*;

verus! {

use crate::metadata::Metadata;
use crate::text::dec_rep;
use crate::text::is_prefix_of;
use crate::text::starts_with_str;
use crate::text::u64_to_string;
use crate::wire::Job;
use vstd::string::StrSliceExecFns;
use vstd::string::StringExecFns;

/// One entry of a feed document. Once written it is never edited or removed.
pub struct FeedItem {
    pub title: String,
    pub author: String,
    pub summary: String,
    pub enclosure_url: String,
    pub enclosure_length: u64,
    pub guid: String,
    pub published_at: String,
    pub duration_seconds: u64,
}

/// Why an append was refused.
#[derive(Debug)]
pub enum FeedError {
    /// The existing document does not begin with the channel header, so the
    /// insertion anchor cannot be located; the document is left as it is.
    MalformedDocument,
}

/// The channel header: everything of the canonical empty document up to the
/// insertion anchor. New items go immediately after it.
pub open spec fn feed_header() -> Seq<char> {
    "<?xml version=\"1.0\" encoding=\"UTF-8\"?>\n<rss version=\"2.0\" xmlns:itunes=\"http://www.itunes.com/dtds/podcast-1.0.dtd\" xmlns:content=\"http://purl.org/rss/1.0/modules/content/\">\n<channel>\n    <title>YouTube Podcast</title>\n    <description>Downloaded YouTube Videos as Podcast</description>\n    <language>en-us</language>\n    <itunes:author>YouTube Downloader</itunes:author>\n    <itunes:summary>YouTube videos converted to podcast format</itunes:summary>\n    <itunes:owner>\n        <itunes:name>YouTube Downloader</itunes:name>\n        <itunes:email>noreply@example.com</itunes:email>\n    </itunes:owner>\n    <itunes:explicit>no</itunes:explicit>\n    <itunes:category text=\"Technology\"/>\n    <itunes:image href=\"https://example.com/podcast.jpg\"/>\n"@
}

/// What closes every document, after the items.
pub open spec fn feed_footer() -> Seq<char> {
    "</channel>\n</rss>"@
}

/// The serialized form of one item.
pub open spec fn item_text(it: FeedItem) -> Seq<char> {
    "\n    <item>\n        <title>"@ + it.title@
        + "</title>\n        <itunes:author>"@ + it.author@
        + "</itunes:author>\n        <itunes:summary>"@ + it.summary@
        + "</itunes:summary>\n        <enclosure url=\""@ + it.enclosure_url@
        + "\" type=\"video/mp4\" length=\""@ + dec_rep(it.enclosure_length as nat)
        + "\"/>\n        <guid>"@ + it.guid@
        + "</guid>\n        <pubDate>"@ + it.published_at@
        + "</pubDate>\n        <itunes:duration>"@ + dec_rep(it.duration_seconds as nat)
        + "</itunes:duration>\n        <itunes:explicit>no</itunes:explicit>\n    </item>\n    "@
}

/// The items' serialized forms, in document order.
pub open spec fn items_text(items: Seq<FeedItem>) -> Seq<char>
    decreases items.len(),
{
    if items.len() == 0 {
        Seq::<char>::empty()
    } else {
        item_text(items[0]) + items_text(items.skip(1))
    }
}

/// The document that holds exactly `items`, in that order, newest first.
pub open spec fn doc_of(items: Seq<FeedItem>) -> Seq<char> {
    feed_header() + items_text(items) + feed_footer()
}

/// A well-formed document: the header, some items, the footer.
pub open spec fn valid_doc(d: Seq<char>) -> bool {
    exists|items: Seq<FeedItem>| d == doc_of(items)
}

/// The text the store holds after one more successful append to `d`.
pub open spec fn spliced(d: Seq<char>, it: FeedItem) -> Seq<char> {
    feed_header() + item_text(it) + d.skip(feed_header().len() as int)
}

/// Renders one item.
pub fn render_item(it: &FeedItem) -> (r: String)
    ensures
        r@ == item_text(*it),
{
    let mut s = "\n    <item>\n        <title>".to_owned();
    s.append(it.title.as_str());
    s.append("</title>\n        <itunes:author>");
    s.append(it.author.as_str());
    s.append("</itunes:author>\n        <itunes:summary>");
    s.append(it.summary.as_str());
    s.append("</itunes:summary>\n        <enclosure url=\"");
    s.append(it.enclosure_url.as_str());
    s.append("\" type=\"video/mp4\" length=\"");
    s.append(u64_to_string(it.enclosure_length).as_str());
    s.append("\"/>\n        <guid>");
    s.append(it.guid.as_str());
    s.append("</guid>\n        <pubDate>");
    s.append(it.published_at.as_str());
    s.append("</pubDate>\n        <itunes:duration>");
    s.append(u64_to_string(it.duration_seconds).as_str());
    s.append("</itunes:duration>\n        <itunes:explicit>no</itunes:explicit>\n    </item>\n    ");
    s
}

/// The canonical empty-channel document: the creation default where a
/// requester has no document yet.
pub fn empty_document() -> (r: String)
    ensures
        r@ == doc_of(Seq::<FeedItem>::empty()),
{
    let mut s = "<?xml version=\"1.0\" encoding=\"UTF-8\"?>\n<rss version=\"2.0\" xmlns:itunes=\"http://www.itunes.com/dtds/podcast-1.0.dtd\" xmlns:content=\"http://purl.org/rss/1.0/modules/content/\">\n<channel>\n    <title>YouTube Podcast</title>\n    <description>Downloaded YouTube Videos as Podcast</description>\n    <language>en-us</language>\n    <itunes:author>YouTube Downloader</itunes:author>\n    <itunes:summary>YouTube videos converted to podcast format</itunes:summary>\n    <itunes:owner>\n        <itunes:name>YouTube Downloader</itunes:name>\n        <itunes:email>noreply@example.com</itunes:email>\n    </itunes:owner>\n    <itunes:explicit>no</itunes:explicit>\n    <itunes:category text=\"Technology\"/>\n    <itunes:image href=\"https://example.com/podcast.jpg\"/>\n".to_owned();
    s.append("</channel>\n</rss>");
    assert(s@ =~= doc_of(Seq::<FeedItem>::empty()));
    s
}

/// One append: synthesizes the canonical empty document where none exists;
/// otherwise locates the anchor (the channel header, at the document's
/// front) and splices the new item in immediately after it. A document
/// without the anchor is refused untouched, never merged blindly.
pub fn append_to_document(existing: Option<&str>, it: &FeedItem) -> (r: Result<String, FeedError>)
    ensures
        match r {
            Ok(nd) => match existing {
                None => nd@ == doc_of(seq![*it]),
                Some(d) => is_prefix_of(feed_header(), d@) && nd@ == spliced(d@, *it),
            },
            Err(e) => e is MalformedDocument && (match existing {
                None => false,
                Some(d) => !is_prefix_of(feed_header(), d@),
            }),
        },
{
    let header = "<?xml version=\"1.0\" encoding=\"UTF-8\"?>\n<rss version=\"2.0\" xmlns:itunes=\"http://www.itunes.com/dtds/podcast-1.0.dtd\" xmlns:content=\"http://purl.org/rss/1.0/modules/content/\">\n<channel>\n    <title>YouTube Podcast</title>\n    <description>Downloaded YouTube Videos as Podcast</description>\n    <language>en-us</language>\n    <itunes:author>YouTube Downloader</itunes:author>\n    <itunes:summary>YouTube videos converted to podcast format</itunes:summary>\n    <itunes:owner>\n        <itunes:name>YouTube Downloader</itunes:name>\n        <itunes:email>noreply@example.com</itunes:email>\n    </itunes:owner>\n    <itunes:explicit>no</itunes:explicit>\n    <itunes:category text=\"Technology\"/>\n    <itunes:image href=\"https://example.com/podcast.jpg\"/>\n";
    match existing {
        None => {
            let mut s = header.to_owned();
            s.append(render_item(it).as_str());
            s.append("</channel>\n</rss>");
            proof {
                assert(items_text(seq![*it]) =~= item_text(*it) + items_text(
                    seq![*it].skip(1)));
                assert(seq![*it].skip(1) =~= Seq::<FeedItem>::empty());
                assert(s@ =~= doc_of(seq![*it]));
            }
            Ok(s)
        },
        Some(d) => {
            if !starts_with_str(d, header) {
                return Err(FeedError::MalformedDocument);
            }
            let hlen = header.unicode_len();
            let dlen = d.unicode_len();
            let rest = d.substring_char(hlen, dlen);
            let mut s = header.to_owned();
            s.append(render_item(it).as_str());
            s.append(rest);
            proof {
                assert(rest@ =~= d@.skip(feed_header().len() as int));
                assert(s@ =~= feed_header() + item_text(*it) + d@.skip(
                    feed_header().len() as int));
            }
            Ok(s)
        },
    }
}

/// Splicing after the anchor of a well-formed document inserts the new item
/// before every existing item and keeps everything else: the document that
/// held `items` holds exactly the new item followed by `items`.
pub proof fn lemma_append_on_valid(d: Seq<char>, items: Seq<FeedItem>, it: FeedItem)
    requires
        d == doc_of(items),
    ensures
        is_prefix_of(feed_header(), d),
        spliced(d, it) == doc_of(seq![it] + items),
{
    assert(d.take(feed_header().len() as int) =~= feed_header());
    assert(d.skip(feed_header().len() as int) =~= items_text(items) + feed_footer());
    assert((seq![it] + items).skip(1) =~= items);
    assert(items_text(seq![it] + items) == item_text(it) + items_text(items));
    assert(feed_header() + item_text(it) + (items_text(items) + feed_footer()) =~= doc_of(
        seq![it] + items));
}

/// Appending never corrupts: a well-formed document stays well-formed under
/// every successful append, however many have gone before.
pub proof fn lemma_append_preserves_validity(d: Seq<char>, it: FeedItem)
    requires
        valid_doc(d),
    ensures
        is_prefix_of(feed_header(), d),
        valid_doc(spliced(d, it)),
{
    let items = choose|items: Seq<FeedItem>| d == doc_of(items);
    lemma_append_on_valid(d, items, it);
}

/// The document after appending `items`, one at a time and in order, to the
/// canonical empty document.
pub open spec fn doc_after_appends(items: Seq<FeedItem>) -> Seq<char>
    decreases items.len(),
{
    if items.len() == 0 {
        doc_of(Seq::<FeedItem>::empty())
    } else {
        spliced(doc_after_appends(items.drop_last()), items.last())
    }
}

/// However many appends have gone before: the document reached from the
/// fresh document by any number of successful appends holds exactly the
/// appended items, newest first, and is well-formed at every step along the
/// way (each prefix of the chain is itself such a document).
pub proof fn lemma_chain_of_appends(items: Seq<FeedItem>)
    ensures
        doc_after_appends(items) == doc_of(items.reverse()),
        valid_doc(doc_after_appends(items)),
    decreases items.len(),
{
    if items.len() == 0 {
        assert(items.reverse() =~= Seq::<FeedItem>::empty());
    } else {
        lemma_chain_of_appends(items.drop_last());
        lemma_append_on_valid(
            doc_after_appends(items.drop_last()),
            items.drop_last().reverse(),
            items.last(),
        );
        assert(seq![items.last()] + items.drop_last().reverse() =~= items.reverse());
    }
}

/// The empty document is well-formed.
pub proof fn lemma_empty_doc_valid()
    ensures
        valid_doc(doc_of(Seq::<FeedItem>::empty())),
{
}

/// The item a completed job contributes to the requester's document: the
/// fields of job and metadata verbatim, the title doubling as the summary,
/// the local media file as the enclosure, the job's url as the identifier.
pub fn build_feed_item(job: &Job, meta: &Metadata, media_file: &str, published_at: &str) -> (r:
    FeedItem)
    ensures
        r.title@ == meta.title@,
        r.author@ == meta.uploader@,
        r.summary@ == meta.title@,
        r.enclosure_url@ == media_file@,
        r.enclosure_length == meta.filesize_bytes,
        r.guid@ == job.url@,
        r.published_at@ == published_at@,
        r.duration_seconds == meta.duration_seconds,
{
    FeedItem {
        title: meta.title.clone(),
        author: meta.uploader.clone(),
        summary: meta.title.clone(),
        enclosure_url: media_file.to_owned(),
        enclosure_length: meta.filesize_bytes,
        guid: job.url.clone(),
        published_at: published_at.to_owned(),
        duration_seconds: meta.duration_seconds,
    }
}

/// Relies on chrono's `Utc::now` and `DateTime::to_rfc2822`: the current
/// moment as an RFC 2822 timestamp, never empty. Which moment comes back is
/// the clock's affair; nothing more is assumed of it.
#[verifier::external_body]
fn now_rfc2822() -> (r: String)
    ensures
        r@.len() > 0,
{
    chrono::Utc::now().to_rfc2822()
}

/// `build_feed_item` stamped with the present moment: every field as there,
/// the publish timestamp from the clock, nonempty but otherwise unknown.
pub fn build_feed_item_now(job: &Job, meta: &Metadata, media_file: &str) -> (r: FeedItem)
    ensures
        r.title@ == meta.title@,
        r.author@ == meta.uploader@,
        r.summary@ == meta.title@,
        r.enclosure_url@ == media_file@,
        r.enclosure_length == meta.filesize_bytes,
        r.guid@ == job.url@,
        r.published_at@.len() > 0,
        r.duration_seconds == meta.duration_seconds,
{
    let stamp = now_rfc2822();
    build_feed_item(job, meta, media_file, stamp.as_str())
}

} // verus!
