//! What the screen shows for a state: either the reader view of the active
//! article or the feed and article lists, then the status line and the key
//! help, and the address prompt while a feed is being added. The terminal
//! front end only draws these texts.

use vstd::prelude::*;
use crate::feed::{FeedItem, FeedItemView, FeedSourceView};
use crate::html::{clean_html, clean_html_text};
use crate::state::{ActivePanel, App, AppView};

verus! {

/// One row of the article list: the title, and the publication line below it.
pub struct ArticleRow {
    pub title: String,
    pub published_line: String,
}

pub struct ArticleRowView {
    pub title: Seq<char>,
    pub published_line: Seq<char>,
}

impl View for ArticleRow {
    type V = ArticleRowView;

    open spec fn view(&self) -> ArticleRowView {
        ArticleRowView { title: self.title@, published_line: self.published_line@ }
    }
}

/// The main area: the reader view (block title, text, scroll offset) or the
/// two lists (feed labels, article rows, list title, which one has focus).
pub enum Body {
    Reader { title: String, text: String, scroll: u16 },
    Lists {
        feed_labels: Vec<String>,
        feeds_focused: bool,
        articles_title: String,
        article_rows: Vec<ArticleRow>,
        articles_focused: bool,
    },
}

pub enum BodyView {
    Reader { title: Seq<char>, text: Seq<char>, scroll: u16 },
    Lists {
        feed_labels: Seq<Seq<char>>,
        feeds_focused: bool,
        articles_title: Seq<char>,
        article_rows: Seq<ArticleRowView>,
        articles_focused: bool,
    },
}

impl View for Body {
    type V = BodyView;

    open spec fn view(&self) -> BodyView {
        match self {
            Body::Reader { title, text, scroll } => BodyView::Reader {
                title: title@,
                text: text@,
                scroll: *scroll,
            },
            Body::Lists {
                feed_labels,
                feeds_focused,
                articles_title,
                article_rows,
                articles_focused,
            } => BodyView::Lists {
                feed_labels: feed_labels@.map_values(|l: String| l@),
                feeds_focused: *feeds_focused,
                articles_title: articles_title@,
                article_rows: article_rows@.map_values(|r: ArticleRow| r@),
                articles_focused: *articles_focused,
            },
        }
    }
}

/// Everything the screen shows.
pub struct Screen {
    pub body: Body,
    pub status: String,
    pub help: String,
    pub add_prompt: Option<String>,
}

pub struct ScreenView {
    pub body: BodyView,
    pub status: Seq<char>,
    pub help: Seq<char>,
    pub add_prompt: Option<Seq<char>>,
}

impl View for Screen {
    type V = ScreenView;

    open spec fn view(&self) -> ScreenView {
        ScreenView {
            body: self.body@,
            status: self.status@,
            help: self.help@,
            add_prompt: match self.add_prompt {
                Some(p) => Some(p@),
                None => None,
            },
        }
    }
}

/// The reader view's block title.
pub open spec fn reader_title(item: FeedItemView) -> Seq<char> {
    " Reading: "@ + item.title + " "@
}

/// The reader view's text: title, date and link, a blank line, then the
/// cleaned article content.
pub open spec fn reader_text(item: FeedItemView) -> Seq<char> {
    "Title: "@ + item.title + "\nPublished: "@ + item.published + "\nLink: "@ + item.link
        + "\n\n"@ + clean_html_text(item.content)
}

/// A row of the feed list.
pub open spec fn feed_label(f: FeedSourceView) -> Seq<char> {
    "• "@ + f.name
}

/// The article list's title, naming the active feed.
pub open spec fn articles_title(v: AppView) -> Seq<char> {
    " Articles in "@ + (if v.feeds.len() > 0 {
        v.feeds[v.active_feed_idx as int].name
    } else {
        "None"@
    }) + " "@
}

/// A row of the article list.
pub open spec fn article_row(item: FeedItemView) -> ArticleRowView {
    ArticleRowView { title: item.title, published_line: "  Published: "@ + item.published + "  "@ }
}

/// The status line: loading, else the last error, else ready.
pub open spec fn status_line(v: AppView) -> Seq<char> {
    " "@ + (if v.is_loading {
        "⠋ Loading feed data..."@
    } else {
        match v.error_msg {
            Some(e) => "❌ Error: "@ + e,
            None => "✓ Ready"@,
        }
    }) + "  "@
}

/// The keys that the focused panel takes.
pub open spec fn help_text(p: ActivePanel) -> Seq<char> {
    match p {
        ActivePanel::Feeds => "Tab: Switch focus • a: Add feed • d: Delete feed • r: Refresh • q: Quit"@,
        ActivePanel::Articles => "Tab: Feeds • Enter: Read article • o: Open link • r: Refresh • q: Quit"@,
        ActivePanel::Reading => "Esc: Back • j/k: Scroll • o: Open link • q: Quit"@,
        ActivePanel::Adding => "Esc: Cancel • Enter: Save feed • q: Quit"@,
    }
}

/// The address prompt with the address typed so far.
pub open spec fn add_prompt(input: Seq<char>) -> Seq<char> {
    "\n Input Feed URL:\n "@ + input + "\n\n Press Enter to add, Esc to cancel"@
}

/// The whole screen for a state.
pub open spec fn screen_of(v: AppView) -> ScreenView {
    ScreenView {
        body: if v.active_panel == ActivePanel::Reading {
            let item = v.articles[v.active_article_idx as int];
            BodyView::Reader {
                title: reader_title(item),
                text: reader_text(item),
                scroll: v.reading_scroll_y,
            }
        } else {
            BodyView::Lists {
                feed_labels: v.feeds.map_values(|f: FeedSourceView| feed_label(f)),
                feeds_focused: v.active_panel == ActivePanel::Feeds,
                articles_title: articles_title(v),
                article_rows: v.articles.map_values(|i: FeedItemView| article_row(i)),
                articles_focused: v.active_panel == ActivePanel::Articles,
            }
        },
        status: status_line(v),
        help: help_text(v.active_panel),
        add_prompt: if v.active_panel == ActivePanel::Adding {
            Some(add_prompt(v.input_url))
        } else {
            None
        },
    }
}

fn reader_body(item: &FeedItem, scroll: u16) -> (b: Body)
    ensures
        b@ == (BodyView::Reader {
            title: reader_title(item@),
            text: reader_text(item@),
            scroll: scroll,
        }),
{
    let mut title = String::from_str(" Reading: ");
    title.append(item.title.as_str());
    title.append(" ");
    let mut text = String::from_str("Title: ");
    text.append(item.title.as_str());
    text.append("\nPublished: ");
    text.append(item.published.as_str());
    text.append("\nLink: ");
    text.append(item.link.as_str());
    text.append("\n\n");
    let cleaned = clean_html(item.content.as_str());
    text.append(cleaned.as_str());
    Body::Reader { title, text, scroll }
}

fn lists_body(app: &App) -> (b: Body)
    requires
        app@.wf(),
    ensures
        b@ == (BodyView::Lists {
            feed_labels: app@.feeds.map_values(|f: FeedSourceView| feed_label(f)),
            feeds_focused: app@.active_panel == ActivePanel::Feeds,
            articles_title: articles_title(app@),
            article_rows: app@.articles.map_values(|i: FeedItemView| article_row(i)),
            articles_focused: app@.active_panel == ActivePanel::Articles,
        }),
{
    let v = Ghost(app@);
    let mut feed_labels: Vec<String> = Vec::new();
    let mut i: usize = 0;
    while i < app.feeds.len()
        invariant
            i <= app.feeds.len(),
            v@ == app@,
            feed_labels@.map_values(|l: String| l@) == v@.feeds.take(i as int).map_values(
                |f: FeedSourceView| feed_label(f),
            ),
        decreases app.feeds.len() - i,
    {
        let mut label = String::from_str("• ");
        label.append(app.feeds[i].name.as_str());
        let ghost before = feed_labels@;
        feed_labels.push(label);
        proof {
            assert(v@.feeds[i as int] == app.feeds@[i as int]@);
            assert(feed_labels@.map_values(|l: String| l@) =~= before.map_values(|l: String| l@).push(label@));
            assert(v@.feeds.take(i + 1) =~= v@.feeds.take(i as int).push(v@.feeds[i as int]));
            assert(feed_labels@.map_values(|l: String| l@) =~= v@.feeds.take(i + 1).map_values(
                |f: FeedSourceView| feed_label(f),
            ));
        }
        i = i + 1;
    }
    let mut article_rows: Vec<ArticleRow> = Vec::new();
    let mut j: usize = 0;
    while j < app.articles.len()
        invariant
            j <= app.articles.len(),
            v@ == app@,
            article_rows@.map_values(|r: ArticleRow| r@) == v@.articles.take(j as int).map_values(
                |i: FeedItemView| article_row(i),
            ),
        decreases app.articles.len() - j,
    {
        let item = &app.articles[j];
        let mut line = String::from_str("  Published: ");
        line.append(item.published.as_str());
        line.append("  ");
        let row = ArticleRow { title: item.title.clone(), published_line: line };
        let ghost before = article_rows@;
        article_rows.push(row);
        proof {
            assert(v@.articles[j as int] == app.articles@[j as int]@);
            assert(article_rows@.map_values(|r: ArticleRow| r@) =~= before.map_values(|r: ArticleRow| r@).push(row@));
            assert(v@.articles.take(j + 1) =~= v@.articles.take(j as int).push(v@.articles[j as int]));
            assert(article_rows@.map_values(|r: ArticleRow| r@) =~= v@.articles.take(
                j + 1,
            ).map_values(|i: FeedItemView| article_row(i)));
        }
        j = j + 1;
    }
    let mut articles_title = String::from_str(" Articles in ");
    if app.feeds.len() > 0 {
        articles_title.append(app.feeds[app.active_feed_idx].name.as_str());
    } else {
        articles_title.append("None");
    }
    articles_title.append(" ");
    proof {
        assert(v@.feeds.take(v@.feeds.len() as int) =~= v@.feeds);
        assert(v@.articles.take(v@.articles.len() as int) =~= v@.articles);
    }
    Body::Lists {
        feed_labels,
        feeds_focused: app.active_panel == ActivePanel::Feeds,
        articles_title,
        article_rows,
        articles_focused: app.active_panel == ActivePanel::Articles,
    }
}

fn status_line_text(app: &App) -> (s: String)
    ensures
        s@ == status_line(app@),
{
    let mut s = String::from_str(" ");
    if app.is_loading {
        s.append("⠋ Loading feed data...");
    } else {
        match &app.error_msg {
            Some(e) => {
                s.append("❌ Error: ");
                s.append(e.as_str());
            },
            None => {
                s.append("✓ Ready");
            },
        }
    }
    s.append("  ");
    s
}

fn help_line(p: ActivePanel) -> (s: String)
    ensures
        s@ == help_text(p),
{
    match p {
        ActivePanel::Feeds => String::from_str(
            "Tab: Switch focus • a: Add feed • d: Delete feed • r: Refresh • q: Quit",
        ),
        ActivePanel::Articles => String::from_str(
            "Tab: Feeds • Enter: Read article • o: Open link • r: Refresh • q: Quit",
        ),
        ActivePanel::Reading => String::from_str("Esc: Back • j/k: Scroll • o: Open link • q: Quit"),
        ActivePanel::Adding => String::from_str("Esc: Cancel • Enter: Save feed • q: Quit"),
    }
}

impl App {
    /// The screen contents for this state. The reader view needs an article
    /// to show.
    pub fn screen(&self) -> (s: Screen)
        requires
            self@.wf(),
            self.active_panel == ActivePanel::Reading ==> self.articles.len() > 0,
        ensures
            s@ == screen_of(self@),
    {
        let body = if self.active_panel == ActivePanel::Reading {
            reader_body(&self.articles[self.active_article_idx], self.reading_scroll_y)
        } else {
            lists_body(self)
        };
        let add_prompt = if self.active_panel == ActivePanel::Adding {
            let mut p = String::from_str("\n Input Feed URL:\n ");
            p.append(self.input_url.as_str());
            p.append("\n\n Press Enter to add, Esc to cancel");
            Some(p)
        } else {
            None
        };
        let s = Screen {
            body,
            status: status_line_text(self),
            help: help_line(self.active_panel),
            add_prompt,
        };
        proof {
            assert(s@ =~= screen_of(self@));
        }
        s
    }
}

/// Law: in the reader the screen shows the highlighted article
/// (`articles[active_article_idx]`, wherever it stands in the list): its
/// title in the block title, then its title, date and link and its cleaned
/// content, at the reader's scroll offset.
pub proof fn lemma_reader_shows_highlighted_article(v: AppView)
    requires
        v.active_panel == ActivePanel::Reading,
    ensures
        ({
            let item = v.articles[v.active_article_idx as int];
            screen_of(v).body == (BodyView::Reader {
                title: " Reading: "@ + item.title + " "@,
                text: "Title: "@ + item.title + "\nPublished: "@ + item.published + "\nLink: "@
                    + item.link + "\n\n"@ + clean_html_text(item.content),
                scroll: v.reading_scroll_y,
            })
        }),
{
}

/// Law: outside the reader the screen shows one label per feed (its name
/// after a bullet) and one row per article (its title and its date), in
/// list order, names the active feed above the articles, and marks the
/// focused list.
pub proof fn lemma_lists_show_feeds_and_articles(v: AppView)
    requires
        v.active_panel != ActivePanel::Reading,
    ensures
        screen_of(v).body matches BodyView::Lists {
            feed_labels,
            feeds_focused,
            articles_title,
            article_rows,
            articles_focused,
        } && {
            &&& feed_labels.len() == v.feeds.len()
            &&& forall|i: int| 0 <= i < v.feeds.len() ==> #[trigger] feed_labels[i] == "• "@ + v.feeds[i].name
            &&& article_rows.len() == v.articles.len()
            &&& forall|i: int| 0 <= i < v.articles.len() ==> (#[trigger] article_rows[i]).title == v.articles[i].title
                && article_rows[i].published_line == "  Published: "@ + v.articles[i].published + "  "@
            &&& v.feeds.len() > 0 ==> articles_title == " Articles in "@ + v.feeds[v.active_feed_idx as int].name + " "@
            &&& feeds_focused == (v.active_panel == ActivePanel::Feeds)
            &&& articles_focused == (v.active_panel == ActivePanel::Articles)
        },
{
}

/// Law: the status line shows loading while a fetch is in flight, else the
/// last error, else that the reader is ready; the address prompt shows the
/// address typed so far, and only while a feed is being added.
pub proof fn lemma_status_and_prompt(v: AppView)
    ensures
        v.is_loading ==> screen_of(v).status == " "@ + "⠋ Loading feed data..."@ + "  "@,
        !v.is_loading ==> (v.error_msg matches Some(e) ==> screen_of(v).status == " "@ + ("❌ Error: "@ + e) + "  "@),
        !v.is_loading && v.error_msg is None ==> screen_of(v).status == " "@ + "✓ Ready"@ + "  "@,
        v.active_panel == ActivePanel::Adding ==> screen_of(v).add_prompt == Some(
            "\n Input Feed URL:\n "@ + v.input_url + "\n\n Press Enter to add, Esc to cancel"@,
        ),
        v.active_panel != ActivePanel::Adding ==> screen_of(v).add_prompt is None,
{
}

/// Law: the key help names the keys of the focused panel.
pub proof fn lemma_help_names_panel_keys(v: AppView)
    ensures
        v.active_panel == ActivePanel::Feeds ==> screen_of(v).help
            == "Tab: Switch focus • a: Add feed • d: Delete feed • r: Refresh • q: Quit"@,
        v.active_panel == ActivePanel::Articles ==> screen_of(v).help
            == "Tab: Feeds • Enter: Read article • o: Open link • r: Refresh • q: Quit"@,
        v.active_panel == ActivePanel::Reading ==> screen_of(v).help
            == "Esc: Back • j/k: Scroll • o: Open link • q: Quit"@,
        v.active_panel == ActivePanel::Adding ==> screen_of(v).help
            == "Esc: Cancel • Enter: Save feed • q: Quit"@,
{
}

} // verus!
