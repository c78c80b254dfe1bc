//! Feed subscriptions and the articles read from a feed document.

use vstd::prelude::*;
use crate::feed_guard::{admits_feed_bytes, feed_bytes_admitted};

verus! {

/// A subscribed feed: its display name and the address it is fetched from.
#[derive(Clone, Debug)]
pub struct FeedSource {
    pub name: String,
    pub url: String,
}

pub struct FeedSourceView {
    pub name: Seq<char>,
    pub url: Seq<char>,
}

impl View for FeedSource {
    type V = FeedSourceView;

    open spec fn view(&self) -> FeedSourceView {
        FeedSourceView { name: self.name@, url: self.url@ }
    }
}

/// One article of a feed, as the reader shows it.
#[derive(Clone, Debug)]
pub struct FeedItem {
    pub title: String,
    pub description: String,
    pub content: String,
    pub link: String,
    pub published: String,
}

pub struct FeedItemView {
    pub title: Seq<char>,
    pub description: Seq<char>,
    pub content: Seq<char>,
    pub link: Seq<char>,
    pub published: Seq<char>,
}

impl View for FeedItem {
    type V = FeedItemView;

    open spec fn view(&self) -> FeedItemView {
        FeedItemView {
            title: self.title@,
            description: self.description@,
            content: self.content@,
            link: self.link@,
            published: self.published@,
        }
    }
}

/// The views of a list of feed sources.
pub open spec fn sources_view(v: Seq<FeedSource>) -> Seq<FeedSourceView> {
    v.map_values(|f: FeedSource| f@)
}

/// The views of a list of feed items.
pub open spec fn items_view(v: Seq<FeedItem>) -> Seq<FeedItemView> {
    v.map_values(|f: FeedItem| f@)
}

/// The subscriptions a reader starts with when none are stored.
pub open spec fn default_feeds() -> Seq<FeedSourceView> {
    seq![
        FeedSourceView {
            name: "Muhammad's Blog (75-Day)"@,
            url: "https://blog.usmanity.com/tag/75-day-challenge/rss"@,
        },
        FeedSourceView {
            name: "The Go Programming Language Blog"@,
            url: "https://go.dev/blog/feed.atom"@,
        },
        FeedSourceView { name: "Hacker News"@, url: "https://news.ycombinator.com/rss"@ },
    ]
}

/// The built-in subscriptions.
pub fn get_default_feeds() -> (feeds: Vec<FeedSource>)
    ensures
        sources_view(feeds@) == default_feeds(),
{
    let mut feeds: Vec<FeedSource> = Vec::new();
    feeds.push(
        FeedSource {
            name: String::from_str("Muhammad's Blog (75-Day)"),
            url: String::from_str("https://blog.usmanity.com/tag/75-day-challenge/rss"),
        },
    );
    feeds.push(
        FeedSource {
            name: String::from_str("The Go Programming Language Blog"),
            url: String::from_str("https://go.dev/blog/feed.atom"),
        },
    );
    feeds.push(
        FeedSource {
            name: String::from_str("Hacker News"),
            url: String::from_str("https://news.ycombinator.com/rss"),
        },
    );
    assert(sources_view(feeds@) =~= default_feeds());
    feeds
}


/// What the reader takes from one entry of a parsed feed document: its
/// title, the addresses of its links in document order, its publication and
/// update dates already rendered as text, its summary and its content body.
pub struct DocumentEntry {
    pub title: Option<String>,
    pub links: Vec<String>,
    pub published: Option<String>,
    pub updated: Option<String>,
    pub summary: Option<String>,
    pub body: Option<String>,
}

pub struct DocumentEntryView {
    pub title: Option<Seq<char>>,
    pub links: Seq<Seq<char>>,
    pub published: Option<Seq<char>>,
    pub updated: Option<Seq<char>>,
    pub summary: Option<Seq<char>>,
    pub body: Option<Seq<char>>,
}

pub open spec fn opt_string_view(o: Option<String>) -> Option<Seq<char>> {
    match o {
        Some(s) => Some(s@),
        None => None,
    }
}

impl View for DocumentEntry {
    type V = DocumentEntryView;

    open spec fn view(&self) -> DocumentEntryView {
        DocumentEntryView {
            title: opt_string_view(self.title),
            links: self.links@.map_values(|l: String| l@),
            published: opt_string_view(self.published),
            updated: opt_string_view(self.updated),
            summary: opt_string_view(self.summary),
            body: opt_string_view(self.body),
        }
    }
}

/// What the reader takes from a parsed feed document: its title and entries.
pub struct FeedDocument {
    pub title: Option<String>,
    pub entries: Vec<DocumentEntry>,
}

pub struct FeedDocumentView {
    pub title: Option<Seq<char>>,
    pub entries: Seq<DocumentEntryView>,
}

impl View for FeedDocument {
    type V = FeedDocumentView;

    open spec fn view(&self) -> FeedDocumentView {
        FeedDocumentView {
            title: opt_string_view(self.title),
            entries: self.entries@.map_values(|e: DocumentEntry| e@),
        }
    }
}

pub open spec fn document_result_view(r: Result<FeedDocument, String>) -> Result<
    FeedDocumentView,
    Seq<char>,
> {
    match r {
        Ok(d) => Ok(d@),
        Err(e) => Err(e@),
    }
}

/// How entry dates are shown: e.g. `Mar 05, 2024 • 14:30`.
pub open spec fn published_date_format() -> Seq<char> {
    "%b %d, %Y • %H:%M"@
}

/// What `feed_rs::parser::parse` makes of `bytes`, taken down to a
/// `FeedDocument` with dates rendered in `date_format`; or the text of its
/// error.
pub uninterp spec fn parsed_feed_document(bytes: Seq<u8>, date_format: Seq<char>) -> Result<
    FeedDocumentView,
    Seq<char>,
>;

/// Calls `feed_rs::parser::parse` on `bytes` and copies out, for the feed and
/// each entry in document order, the fields the reader uses; dates go
/// through chrono's `DateTime::format` with `date_format`, errors through
/// their `Display`. The contract only names the result: it is a function of
/// the bytes and the format alone (feed-rs reads no clock and no locale for
/// these fields, and the random ids it gives entries without one are not
/// copied out). chrono is reached only through feed-rs's dates, so its
/// `format` stands behind the same name. The format is held to the one this
/// library uses, which chrono accepts; chrono's `to_string` panics on a
/// format it rejects.
///
/// The bytes are held to `feed_bytes_admitted`, which leaves out every
/// document on which feed-rs panics. Its time parser
/// (`parser::util::parse_npt`, reached from an iTunes `duration` element and
/// from the Media RSS `start`, `end` and `time` attributes) matches numbers
/// with the Unicode-aware `\d` and then unwraps `parse::<u64>()` and
/// `parse::<f32>()`, multiplies the hours by 3600 and adds the parts and the
/// fraction to a `Duration`. So it panics on a decimal digit outside ASCII
/// (written directly or as a character reference), on a number too large for
/// `u64`, and on hours or sums that overflow. With at most 15 ASCII digits in
/// a row none of this happens: hours stay below 10^15, so `hours * 3600` plus
/// minutes, seconds and at most one second of fraction stays far below
/// `u64::MAX`.
#[verifier::external_body]
fn parse_feed_document(bytes: &[u8], date_format: &str) -> (res: Result<FeedDocument, String>)
    requires
        feed_bytes_admitted(bytes@),
        date_format@ == published_date_format(),
    ensures
        document_result_view(res) == parsed_feed_document(bytes@, date_format@),
{
    match feed_rs::parser::parse(bytes) {
        Ok(feed) => Ok(FeedDocument {
            title: feed.title.map(|t| t.content),
            entries: feed.entries.into_iter().map(|e| DocumentEntry {
                title: e.title.map(|t| t.content),
                links: e.links.into_iter().map(|l| l.href).collect(),
                published: e.published.map(|d| d.format(date_format).to_string()),
                updated: e.updated.map(|d| d.format(date_format).to_string()),
                summary: e.summary.map(|t| t.content),
                body: e.content.and_then(|c| c.body),
            }).collect(),
        }),
        Err(e) => Err(e.to_string()),
    }
}


/// The text, or the empty text when there is none.
pub open spec fn or_empty(o: Option<Seq<char>>) -> Seq<char> {
    match o {
        Some(s) => s,
        None => Seq::empty(),
    }
}

/// The article made from one document entry: missing title, summary and
/// date become empty, the link is the first link (or empty), the content is
/// the body or else the summary, the date is the publication date or else
/// the update date.
pub open spec fn entry_item(e: DocumentEntryView) -> FeedItemView {
    let description = or_empty(e.summary);
    FeedItemView {
        title: or_empty(e.title),
        description: description,
        content: match e.body {
            Some(b) => b,
            None => description,
        },
        link: if e.links.len() > 0 {
            e.links[0]
        } else {
            Seq::empty()
        },
        published: match e.published {
            Some(p) => p,
            None => or_empty(e.updated),
        },
    }
}

/// The feed's title, or `New Feed` when the document has none.
pub open spec fn document_title(d: FeedDocumentView) -> Seq<char> {
    match d.title {
        Some(t) => t,
        None => "New Feed"@,
    }
}

/// The articles of a document, one per entry, in document order.
pub open spec fn document_items(d: FeedDocumentView) -> Seq<FeedItemView> {
    d.entries.map_values(|e: DocumentEntryView| entry_item(e))
}

fn text_or_empty(o: &Option<String>) -> (s: String)
    ensures
        s@ == or_empty(opt_string_view(*o)),
{
    match o {
        Some(t) => t.clone(),
        None => String::new(),
    }
}

fn item_from_entry(e: &DocumentEntry) -> (item: FeedItem)
    ensures
        item@ == entry_item(e@),
{
    let title = text_or_empty(&e.title);
    let link = if e.links.len() > 0 {
        e.links[0].clone()
    } else {
        String::new()
    };
    let published = match &e.published {
        Some(p) => p.clone(),
        None => text_or_empty(&e.updated),
    };
    let description = text_or_empty(&e.summary);
    let content = match &e.body {
        Some(b) => b.clone(),
        None => description.clone(),
    };
    FeedItem { title, description, content, link, published }
}

/// The feed's title and its articles, from a parsed document.
pub fn feed_contents(doc: &FeedDocument) -> (res: (String, Vec<FeedItem>))
    ensures
        res.0@ == document_title(doc@),
        items_view(res.1@) == document_items(doc@),
{
    let title = match &doc.title {
        Some(t) => t.clone(),
        None => String::from_str("New Feed"),
    };
    let mut items: Vec<FeedItem> = Vec::new();
    let mut i: usize = 0;
    while i < doc.entries.len()
        invariant
            i <= doc.entries.len(),
            items_view(items@) == document_items(doc@).take(i as int),
        decreases doc.entries.len() - i,
    {
        let item = item_from_entry(&doc.entries[i]);
        let ghost before = items@;
        items.push(item);
        proof {
            assert(items_view(items@) =~= items_view(before).push(item@));
            assert(document_items(doc@).take(i + 1) =~= document_items(doc@).take(i as int).push(
                entry_item(doc@.entries[i as int]),
            ));
        }
        i = i + 1;
    }
    proof {
        assert(document_items(doc@).take(doc.entries@.len() as int) =~= document_items(doc@));
    }
    (title, items)
}

/// The error given for a document that is not handed to the parser.
pub open spec fn refused_feed_message() -> Seq<char> {
    "unable to parse feed: unsupported encoding or podcast or media time out of range"@
}

/// Parses a feed document (RSS, Atom or JSON Feed) and returns its title and
/// articles, or the parser's error text.
///
/// A document outside `feed_bytes_admitted` is refused with
/// `refused_feed_message` without being parsed: feed-rs could panic on it
/// (see `parse_feed_document`). Such a document binds the iTunes or Media RSS
/// namespace and writes a decimal digit outside ASCII, a character reference
/// to a digit, 16 ASCII digits in a row in a text or attribute value, or a
/// document type declaration; or it starts as UTF-16 or declares an
/// encoding other than UTF-8, windows-1252 or ISO-8859-15.
pub fn parse_feed(bytes: &[u8]) -> (res: Result<(String, Vec<FeedItem>), String>)
    ensures
        !feed_bytes_admitted(bytes@) ==> res is Err && res->Err_0@ == refused_feed_message(),
        feed_bytes_admitted(bytes@) ==> match parsed_feed_document(bytes@, published_date_format()) {
            Ok(d) => res is Ok && res->Ok_0.0@ == document_title(d) && items_view(res->Ok_0.1@)
                == document_items(d),
            Err(e) => res is Err && res->Err_0@ == e,
        },
{
    if !admits_feed_bytes(bytes) {
        return Err(String::from_str("unable to parse feed: unsupported encoding or podcast or media time out of range"));
    }
    match parse_feed_document(bytes, "%b %d, %Y • %H:%M") {
        Ok(doc) => Ok(feed_contents(&doc)),
        Err(e) => Err(e),
    }
}

/// Law: the article made from an entry takes the entry's title, its first
/// link, its summary as description, its body as content (the summary when
/// it has none), and its publication date; the update date only stands in
/// when there is no publication date. Whatever is missing is empty.
pub proof fn lemma_entry_item_fields(e: DocumentEntryView)
    ensures
        ({
            let item = entry_item(e);
            &&& e.title matches Some(t) ==> item.title == t
            &&& e.title is None ==> item.title.len() == 0
            &&& e.links.len() > 0 ==> item.link == e.links[0]
            &&& e.links.len() == 0 ==> item.link.len() == 0
            &&& e.summary matches Some(d) ==> item.description == d
            &&& e.summary is None ==> item.description.len() == 0
            &&& e.body matches Some(b) ==> item.content == b
            &&& e.body is None ==> item.content == item.description
            &&& e.published matches Some(p) ==> item.published == p
            &&& e.published is None ==> (e.updated matches Some(u) ==> item.published == u)
            &&& e.published is None && e.updated is None ==> item.published.len() == 0
        }),
{
}

/// Law: a parsed document gives one article per entry, in document order,
/// and its own title, or `New Feed` when it has none.
pub proof fn lemma_document_items_in_order(d: FeedDocumentView)
    ensures
        document_items(d).len() == d.entries.len(),
        forall|i: int| 0 <= i < d.entries.len() ==> #[trigger] document_items(d)[i] == entry_item(d.entries[i]),
        d.title matches Some(t) ==> document_title(d) == t,
        d.title is None ==> document_title(d) == "New Feed"@,
{
}

} // verus!
