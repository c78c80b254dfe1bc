//! The reader's state machine. The terminal front end feeds it key presses
//! and the results of background fetches; it answers with the next state and
//! the commands to carry out (fetch a feed, store the feed list, open a link,
//! quit).

use vstd::prelude::*;
use crate::feed::{
    default_feeds, get_default_feeds, items_view, sources_view, FeedItem, FeedItemView,
    FeedSource, FeedSourceView,
};
use crate::text::{trim, trim_str};

verus! {

/// The part of the screen that has the keyboard.
#[derive(Clone, Copy, PartialEq, Eq, Structural, Debug)]
pub enum ActivePanel {
    Feeds,
    Articles,
    Reading,
    Adding,
}

/// The keys the reader tells apart.
#[derive(Clone, Copy, PartialEq, Eq, Structural, Debug)]
pub enum KeyCode {
    Tab,
    Down,
    Up,
    Enter,
    Esc,
    Backspace,
    Char(char),
    Other,
}

/// A key event: the key, whether Control was held, and whether it is a
/// release (releases are ignored).
#[derive(Clone, Copy, PartialEq, Eq, Structural, Debug)]
pub struct KeyPress {
    pub code: KeyCode,
    pub ctrl: bool,
    pub release: bool,
}

/// The result of a background fetch.
pub enum Msg {
    FeedLoaded { feed_idx: usize, items: Vec<FeedItem> },
    FeedFetchFailed { feed_idx: usize, error: String },
    FeedAdded { source: FeedSource, items: Vec<FeedItem> },
    FeedAddFailed { error: String },
}

pub enum MsgView {
    FeedLoaded { feed_idx: usize, items: Seq<FeedItemView> },
    FeedFetchFailed { feed_idx: usize, error: Seq<char> },
    FeedAdded { source: FeedSourceView, items: Seq<FeedItemView> },
    FeedAddFailed { error: Seq<char> },
}

impl View for Msg {
    type V = MsgView;

    open spec fn view(&self) -> MsgView {
        match self {
            Msg::FeedLoaded { feed_idx, items } => MsgView::FeedLoaded {
                feed_idx: *feed_idx,
                items: items_view(items@),
            },
            Msg::FeedFetchFailed { feed_idx, error } => MsgView::FeedFetchFailed {
                feed_idx: *feed_idx,
                error: error@,
            },
            Msg::FeedAdded { source, items } => MsgView::FeedAdded {
                source: source@,
                items: items_view(items@),
            },
            Msg::FeedAddFailed { error } => MsgView::FeedAddFailed { error: error@ },
        }
    }
}

/// Work for the front end: fetch the feed at `url` for the feed at index
/// `feed_idx`; fetch `url` as a new subscription; store the feed list; open
/// a link in the browser; leave.
pub enum Command {
    Fetch { feed_idx: usize, url: String },
    AddFeed { url: String },
    SaveFeeds,
    OpenLink { url: String },
    Quit,
}

pub enum CommandView {
    Fetch { feed_idx: usize, url: Seq<char> },
    AddFeed { url: Seq<char> },
    SaveFeeds,
    OpenLink { url: Seq<char> },
    Quit,
}

impl View for Command {
    type V = CommandView;

    open spec fn view(&self) -> CommandView {
        match self {
            Command::Fetch { feed_idx, url } => CommandView::Fetch { feed_idx: *feed_idx, url: url@ },
            Command::AddFeed { url } => CommandView::AddFeed { url: url@ },
            Command::SaveFeeds => CommandView::SaveFeeds,
            Command::OpenLink { url } => CommandView::OpenLink { url: url@ },
            Command::Quit => CommandView::Quit,
        }
    }
}

pub open spec fn commands_view(v: Seq<Command>) -> Seq<CommandView> {
    v.map_values(|c: Command| c@)
}

/// The reader's state. `feed_selected` and `article_selected` are the
/// highlighted rows of the two lists.
pub struct App {
    pub feeds: Vec<FeedSource>,
    pub articles: Vec<FeedItem>,
    pub active_feed_idx: usize,
    pub active_article_idx: usize,
    pub active_panel: ActivePanel,
    pub feed_selected: Option<usize>,
    pub article_selected: Option<usize>,
    pub reading_scroll_y: u16,
    pub input_url: String,
    pub is_loading: bool,
    pub error_msg: Option<String>,
}

#[verifier::ext_equal]
pub struct AppView {
    pub feeds: Seq<FeedSourceView>,
    pub articles: Seq<FeedItemView>,
    pub active_feed_idx: usize,
    pub active_article_idx: usize,
    pub active_panel: ActivePanel,
    pub feed_selected: Option<usize>,
    pub article_selected: Option<usize>,
    pub reading_scroll_y: u16,
    pub input_url: Seq<char>,
    pub is_loading: bool,
    pub error_msg: Option<Seq<char>>,
}

impl View for App {
    type V = AppView;

    open spec fn view(&self) -> AppView {
        AppView {
            feeds: sources_view(self.feeds@),
            articles: items_view(self.articles@),
            active_feed_idx: self.active_feed_idx,
            active_article_idx: self.active_article_idx,
            active_panel: self.active_panel,
            feed_selected: self.feed_selected,
            article_selected: self.article_selected,
            reading_scroll_y: self.reading_scroll_y,
            input_url: self.input_url@,
            is_loading: self.is_loading,
            error_msg: match self.error_msg {
                Some(e) => Some(e@),
                None => None,
            },
        }
    }
}

impl AppView {
    /// The state's invariant: the active feed is a feed of the list whenever
    /// there is one, and it is the highlighted one; when there are articles,
    /// the active article is one of them and it is the highlighted one.
    pub open spec fn wf(self) -> bool {
        &&& self.feeds.len() > 0 ==> self.active_feed_idx < self.feeds.len()
        &&& self.feed_selected == (if self.feeds.len() > 0 {
            Some(self.active_feed_idx)
        } else {
            None::<usize>
        })
        &&& self.articles.len() > 0 ==> self.active_article_idx < self.articles.len()
            && self.article_selected == Some(self.active_article_idx)
    }
}

/// The state a reader starts in: the stored feed list, or the built-in one
/// when none could be loaded; the first feed highlighted; no articles yet.
pub open spec fn initial_state(loaded: Option<Seq<FeedSourceView>>) -> AppView {
    let feeds = match loaded {
        Some(f) => f,
        None => default_feeds(),
    };
    AppView {
        feeds: feeds,
        articles: Seq::empty(),
        active_feed_idx: 0,
        active_article_idx: 0,
        active_panel: ActivePanel::Feeds,
        feed_selected: if feeds.len() > 0 {
            Some(0usize)
        } else {
            None
        },
        article_selected: None,
        reading_scroll_y: 0,
        input_url: Seq::empty(),
        is_loading: false,
        error_msg: None,
    }
}

/// The row after `sel` in a list of `len` rows, wrapping to the top; the
/// top row when nothing is highlighted.
pub open spec fn next_index(sel: Option<usize>, len: nat) -> usize {
    match sel {
        Some(i) => if i >= len - 1 {
            0
        } else {
            (i + 1) as usize
        },
        None => 0,
    }
}

/// The row before `sel` in a list of `len` rows, wrapping to the bottom;
/// the top row when nothing is highlighted.
pub open spec fn prev_index(sel: Option<usize>, len: nat) -> usize {
    match sel {
        Some(i) => if i == 0 {
            (len - 1) as usize
        } else {
            (i - 1) as usize
        },
        None => 0,
    }
}

pub open spec fn opt_seq(c: Option<CommandView>) -> Seq<CommandView> {
    match c {
        Some(c) => seq![c],
        None => Seq::empty(),
    }
}

/// Starting to fetch the feed at `idx`: the article list is emptied and
/// unhighlighted, the error cleared, loading shown, and the feed's address
/// handed out. With no feeds nothing happens.
pub open spec fn start_fetch(v: AppView, idx: usize) -> (AppView, Option<CommandView>) {
    if v.feeds.len() == 0 {
        (v, None)
    } else {
        (
            AppView {
                is_loading: true,
                articles: Seq::empty(),
                article_selected: None,
                error_msg: None,
                ..v
            },
            Some(CommandView::Fetch { feed_idx: idx, url: v.feeds[idx as int].url }),
        )
    }
}

/// Starting to fetch `url` as a new subscription.
pub open spec fn start_add(v: AppView, url: Seq<char>) -> (AppView, CommandView) {
    (AppView { is_loading: true, error_msg: None, ..v }, CommandView::AddFeed { url: url })
}

/// Fetching the feed at `idx` after making it the active, highlighted feed.
pub open spec fn select_and_fetch(v: AppView, idx: usize) -> (AppView, Seq<CommandView>) {
    let (w, c) = start_fetch(
        AppView { active_feed_idx: idx, feed_selected: Some(idx), ..v },
        idx,
    );
    (w, opt_seq(c))
}

/// Shows `items` as the article list, highlighting the first one if any.
pub open spec fn show_articles(v: AppView, items: Seq<FeedItemView>) -> AppView {
    if items.len() > 0 {
        AppView { articles: items, article_selected: Some(0usize), active_article_idx: 0, ..v }
    } else {
        AppView { articles: items, ..v }
    }
}

/// Handling the result of a background fetch. A result for a feed other than
/// the active one is ignored; a new subscription is appended, stored, made
/// active and shown; a failed subscription returns to the address prompt.
pub open spec fn apply_msg(v: AppView, m: MsgView) -> (AppView, Seq<CommandView>) {
    match m {
        MsgView::FeedLoaded { feed_idx, items } => if v.active_feed_idx == feed_idx {
            (
                show_articles(AppView { is_loading: false, error_msg: None, ..v }, items),
                Seq::empty(),
            )
        } else {
            (v, Seq::empty())
        },
        MsgView::FeedFetchFailed { feed_idx, error } => if v.active_feed_idx == feed_idx {
            (AppView { is_loading: false, error_msg: Some(error), ..v }, Seq::empty())
        } else {
            (v, Seq::empty())
        },
        MsgView::FeedAdded { source, items } => {
            let new_idx = v.feeds.len() as usize;
            (
                show_articles(
                    AppView {
                        is_loading: false,
                        error_msg: None,
                        feeds: v.feeds.push(source),
                        active_feed_idx: new_idx,
                        feed_selected: Some(new_idx),
                        active_panel: ActivePanel::Articles,
                        ..v
                    },
                    items,
                ),
                seq![CommandView::SaveFeeds],
            )
        },
        MsgView::FeedAddFailed { error } => (
            AppView {
                is_loading: false,
                error_msg: Some(error),
                active_panel: ActivePanel::Adding,
                ..v
            },
            Seq::empty(),
        ),
    }
}

/// Deleting the active feed: the list is stored; when it becomes empty the
/// articles and highlights are cleared, else the feed now at the active
/// position (or the last one) is made active and fetched.
pub open spec fn delete_active_feed(v: AppView) -> (AppView, Seq<CommandView>) {
    let feeds = v.feeds.remove(v.active_feed_idx as int);
    if feeds.len() == 0 {
        (
            AppView {
                feeds: feeds,
                feed_selected: None,
                articles: Seq::empty(),
                article_selected: None,
                ..v
            },
            seq![CommandView::SaveFeeds],
        )
    } else {
        let idx = if v.active_feed_idx >= feeds.len() {
            (feeds.len() - 1) as usize
        } else {
            v.active_feed_idx
        };
        let (w, c) = start_fetch(
            AppView { feeds: feeds, active_feed_idx: idx, feed_selected: Some(idx), ..v },
            idx,
        );
        (w, seq![CommandView::SaveFeeds] + opt_seq(c))
    }
}

/// Keys in the feed list.
pub open spec fn feeds_key(v: AppView, code: KeyCode) -> (AppView, Seq<CommandView>) {
    match code {
        KeyCode::Tab => if v.articles.len() > 0 {
            (AppView { active_panel: ActivePanel::Articles, ..v }, Seq::empty())
        } else {
            (v, Seq::empty())
        },
        KeyCode::Down | KeyCode::Char('j') => if v.feeds.len() > 0 {
            select_and_fetch(v, next_index(v.feed_selected, v.feeds.len()))
        } else {
            (v, Seq::empty())
        },
        KeyCode::Up | KeyCode::Char('k') => if v.feeds.len() > 0 {
            select_and_fetch(v, prev_index(v.feed_selected, v.feeds.len()))
        } else {
            (v, Seq::empty())
        },
        KeyCode::Char('a') => (
            AppView {
                active_panel: ActivePanel::Adding,
                input_url: Seq::empty(),
                error_msg: None,
                ..v
            },
            Seq::empty(),
        ),
        KeyCode::Char('d') => if v.feeds.len() > 0 {
            delete_active_feed(v)
        } else {
            (v, Seq::empty())
        },
        KeyCode::Char('r') => {
            let (w, c) = start_fetch(v, v.active_feed_idx);
            (w, opt_seq(c))
        },
        _ => (v, Seq::empty()),
    }
}

/// Opening the active article's link, unless it is empty.
pub open spec fn open_active_link(v: AppView) -> Seq<CommandView> {
    let link = v.articles[v.active_article_idx as int].link;
    if link.len() > 0 {
        seq![CommandView::OpenLink { url: link }]
    } else {
        Seq::empty()
    }
}

/// Keys in the article list.
pub open spec fn articles_key(v: AppView, code: KeyCode) -> (AppView, Seq<CommandView>) {
    match code {
        KeyCode::Tab | KeyCode::Esc | KeyCode::Backspace => (
            AppView { active_panel: ActivePanel::Feeds, ..v },
            Seq::empty(),
        ),
        KeyCode::Down | KeyCode::Char('j') => if v.articles.len() > 0 {
            let i = next_index(v.article_selected, v.articles.len());
            (AppView { active_article_idx: i, article_selected: Some(i), ..v }, Seq::empty())
        } else {
            (v, Seq::empty())
        },
        KeyCode::Up | KeyCode::Char('k') => if v.articles.len() > 0 {
            let i = prev_index(v.article_selected, v.articles.len());
            (AppView { active_article_idx: i, article_selected: Some(i), ..v }, Seq::empty())
        } else {
            (v, Seq::empty())
        },
        KeyCode::Enter => if v.articles.len() > 0 {
            (
                AppView { active_panel: ActivePanel::Reading, reading_scroll_y: 0, ..v },
                Seq::empty(),
            )
        } else {
            (v, Seq::empty())
        },
        KeyCode::Char('o') => if v.articles.len() > 0 {
            (v, open_active_link(v))
        } else {
            (v, Seq::empty())
        },
        KeyCode::Char('r') => {
            let (w, c) = start_fetch(v, v.active_feed_idx);
            (w, opt_seq(c))
        },
        _ => (v, Seq::empty()),
    }
}

/// Keys in the reader view; scrolling stops at 0 and at `u16::MAX`.
pub open spec fn reading_key(v: AppView, code: KeyCode) -> (AppView, Seq<CommandView>) {
    match code {
        KeyCode::Esc | KeyCode::Backspace => (
            AppView { active_panel: ActivePanel::Articles, ..v },
            Seq::empty(),
        ),
        KeyCode::Down | KeyCode::Char('j') => (
            AppView {
                reading_scroll_y: if v.reading_scroll_y < u16::MAX {
                    (v.reading_scroll_y + 1) as u16
                } else {
                    v.reading_scroll_y
                },
                ..v
            },
            Seq::empty(),
        ),
        KeyCode::Up | KeyCode::Char('k') => (
            AppView {
                reading_scroll_y: if v.reading_scroll_y > 0 {
                    (v.reading_scroll_y - 1) as u16
                } else {
                    0
                },
                ..v
            },
            Seq::empty(),
        ),
        KeyCode::Char('o') => (v, open_active_link(v)),
        _ => (v, Seq::empty()),
    }
}

/// Keys in the address prompt: characters are typed in, Backspace removes
/// the last one, Enter subscribes to the trimmed address unless it is empty,
/// Esc cancels.
pub open spec fn adding_key(v: AppView, code: KeyCode) -> (AppView, Seq<CommandView>) {
    match code {
        KeyCode::Esc => (
            AppView { active_panel: ActivePanel::Feeds, error_msg: None, ..v },
            Seq::empty(),
        ),
        KeyCode::Char(c) => (AppView { input_url: v.input_url.push(c), ..v }, Seq::empty()),
        KeyCode::Backspace => (
            AppView {
                input_url: if v.input_url.len() > 0 {
                    v.input_url.drop_last()
                } else {
                    v.input_url
                },
                ..v
            },
            Seq::empty(),
        ),
        KeyCode::Enter => {
            let url = trim(v.input_url);
            if url.len() > 0 {
                let (w, c) = start_add(AppView { active_panel: ActivePanel::Feeds, ..v }, url);
                (w, seq![c])
            } else {
                (v, Seq::empty())
            }
        },
        _ => (v, Seq::empty()),
    }
}

/// `q`, or Control with `c`, leaves the reader from any panel.
pub open spec fn is_quit_key(k: KeyPress) -> bool {
    k.code == KeyCode::Char('q') || (k.code == KeyCode::Char('c') && k.ctrl)
}

/// Handling one key event.
pub open spec fn key_step(v: AppView, k: KeyPress) -> (AppView, Seq<CommandView>) {
    if k.release {
        (v, Seq::empty())
    } else if is_quit_key(k) {
        (v, seq![CommandView::Quit])
    } else {
        match v.active_panel {
            ActivePanel::Feeds => feeds_key(v, k.code),
            ActivePanel::Articles => articles_key(v, k.code),
            ActivePanel::Reading => reading_key(v, k.code),
            ActivePanel::Adding => adding_key(v, k.code),
        }
    }
}

/// Law: the invariant holds of every state a reader starts in.
pub proof fn lemma_initial_wf(loaded: Option<Seq<FeedSourceView>>)
    ensures
        initial_state(loaded).wf(),
{
}

/// Law: starting a fetch of an existing feed keeps the invariant.
pub proof fn lemma_start_fetch_wf(v: AppView, idx: usize)
    requires
        v.wf(),
    ensures
        start_fetch(v, idx).0.wf(),
{
}

/// Law: every fetch result keeps the invariant.
pub proof fn lemma_apply_msg_wf(v: AppView, m: MsgView)
    requires
        v.wf(),
        v.feeds.len() < usize::MAX,
    ensures
        apply_msg(v, m).0.wf(),
{
}

/// Law: every key event keeps the invariant.
pub proof fn lemma_key_step_wf(v: AppView, k: KeyPress)
    requires
        v.wf(),
    ensures
        key_step(v, k).0.wf(),
{
    if !k.release && !is_quit_key(k) && v.active_panel == ActivePanel::Feeds && v.feeds.len() > 0
    {
        match k.code {
            KeyCode::Char('d') => {
                let feeds = v.feeds.remove(v.active_feed_idx as int);
                assert(feeds.len() == v.feeds.len() - 1);
            },
            _ => {},
        }
    }
}

/// What `key_step` needs beyond the invariant: opening a link from the
/// reader view needs an article to read.
pub open spec fn key_allowed(v: AppView, k: KeyPress) -> bool {
    (!k.release && !is_quit_key(k) && v.active_panel == ActivePanel::Reading && k.code
        == KeyCode::Char('o')) ==> v.articles.len() > 0
}


pub open spec fn opt_command_view(c: Option<Command>) -> Option<CommandView> {
    match c {
        Some(c) => Some(c@),
        None => None,
    }
}

pub open spec fn loaded_view(loaded: Option<Vec<FeedSource>>) -> Option<Seq<FeedSourceView>> {
    match loaded {
        Some(f) => Some(sources_view(f@)),
        None => None,
    }
}

impl App {
    /// A reader over the stored feed list, or over the built-in feeds when
    /// it could not be loaded (`None`).
    pub fn new(loaded: Option<Vec<FeedSource>>) -> (app: App)
        ensures
            app@ == initial_state(loaded_view(loaded)),
            app@.wf(),
    {
        let feeds = match loaded {
            Some(f) => f,
            None => get_default_feeds(),
        };
        let feed_selected = if feeds.len() > 0 {
            Some(0usize)
        } else {
            None
        };
        let app = App {
            feeds,
            articles: Vec::new(),
            active_feed_idx: 0,
            active_article_idx: 0,
            active_panel: ActivePanel::Feeds,
            feed_selected,
            article_selected: None,
            reading_scroll_y: 0,
            input_url: String::new(),
            is_loading: false,
            error_msg: None,
        };
        assert(app@ =~= initial_state(loaded_view(loaded)));
        app
    }

    /// Starts fetching the feed at `idx` (see `start_fetch`).
    pub fn trigger_fetch(&mut self, idx: usize) -> (cmd: Option<Command>)
        requires
            old(self).feeds.len() > 0 ==> idx < old(self).feeds.len(),
        ensures
            final(self)@ == start_fetch(old(self)@, idx).0,
            opt_command_view(cmd) == start_fetch(old(self)@, idx).1,
            old(self)@.wf() ==> final(self)@.wf(),
    {
        if self.feeds.len() == 0 {
            return None;
        }
        self.is_loading = true;
        self.articles = Vec::new();
        self.article_selected = None;
        self.error_msg = None;
        let url = self.feeds[idx].url.clone();
        proof {
            assert(self@ =~= start_fetch(old(self)@, idx).0);
        }
        Some(Command::Fetch { feed_idx: idx, url })
    }

    /// Starts fetching `url` as a new subscription (see `start_add`).
    pub fn trigger_add_feed(&mut self, url: String) -> (cmd: Command)
        ensures
            final(self)@ == start_add(old(self)@, url@).0,
            cmd@ == start_add(old(self)@, url@).1,
            old(self)@.wf() ==> final(self)@.wf(),
    {
        self.is_loading = true;
        self.error_msg = None;
        proof {
            assert(self@ =~= start_add(old(self)@, url@).0);
        }
        Command::AddFeed { url }
    }

    fn show_articles(&mut self, items: Vec<FeedItem>)
        ensures
            final(self)@ == show_articles(old(self)@, items_view(items@)),
    {
        self.articles = items;
        if self.articles.len() > 0 {
            self.article_selected = Some(0);
            self.active_article_idx = 0;
        }
        proof {
            assert(self@ =~= show_articles(old(self)@, items_view(items@)));
        }
    }

    /// Takes in the result of a background fetch (see `apply_msg`).
    pub fn handle_message(&mut self, msg: Msg) -> (cmds: Vec<Command>)
        requires
            old(self).feeds.len() < usize::MAX,
        ensures
            final(self)@ == apply_msg(old(self)@, msg@).0,
            commands_view(cmds@) == apply_msg(old(self)@, msg@).1,
            old(self)@.wf() ==> final(self)@.wf(),
    {
        let ghost m = msg@;
        let mut cmds: Vec<Command> = Vec::new();
        match msg {
            Msg::FeedLoaded { feed_idx, items } => {
                if self.active_feed_idx == feed_idx {
                    self.is_loading = false;
                    self.error_msg = None;
                    self.show_articles(items);
                }
            },
            Msg::FeedFetchFailed { feed_idx, error } => {
                if self.active_feed_idx == feed_idx {
                    self.is_loading = false;
                    self.error_msg = Some(error);
                }
            },
            Msg::FeedAdded { source, items } => {
                self.is_loading = false;
                self.error_msg = None;
                let ghost before = self.feeds@;
                self.feeds.push(source);
                proof {
                    assert(sources_view(self.feeds@) =~= sources_view(before).push(source@));
                }
                cmds.push(Command::SaveFeeds);
                let new_idx = self.feeds.len() - 1;
                self.active_feed_idx = new_idx;
                self.feed_selected = Some(new_idx);
                self.active_panel = ActivePanel::Articles;
                self.show_articles(items);
            },
            Msg::FeedAddFailed { error } => {
                self.is_loading = false;
                self.error_msg = Some(error);
                self.active_panel = ActivePanel::Adding;
            },
        }
        proof {
            assert(self@ =~= apply_msg(old(self)@, m).0);
            assert(commands_view(cmds@) =~= apply_msg(old(self)@, m).1);
            if old(self)@.wf() {
                lemma_apply_msg_wf(old(self)@, m);
            }
        }
        cmds
    }

    fn select_and_fetch(&mut self, idx: usize) -> (cmds: Vec<Command>)
        requires
            idx < old(self).feeds.len(),
        ensures
            final(self)@ == select_and_fetch(old(self)@, idx).0,
            commands_view(cmds@) == select_and_fetch(old(self)@, idx).1,
    {
        self.active_feed_idx = idx;
        self.feed_selected = Some(idx);
        let ghost mid = self@;
        assert(mid =~= AppView { active_feed_idx: idx, feed_selected: Some(idx), ..old(self)@ });
        let mut cmds: Vec<Command> = Vec::new();
        match self.trigger_fetch(idx) {
            Some(c) => cmds.push(c),
            None => {},
        }
        proof {
            assert(commands_view(cmds@) =~= select_and_fetch(old(self)@, idx).1);
        }
        cmds
    }

    fn delete_active_feed(&mut self) -> (cmds: Vec<Command>)
        requires
            old(self)@.wf(),
            old(self).feeds.len() > 0,
        ensures
            final(self)@ == delete_active_feed(old(self)@).0,
            commands_view(cmds@) == delete_active_feed(old(self)@).1,
    {
        let ghost v = old(self)@;
        let ghost before = self.feeds@;
        self.feeds.remove(self.active_feed_idx);
        proof {
            assert(sources_view(self.feeds@) =~= sources_view(before).remove(
                v.active_feed_idx as int,
            ));
        }
        let mut cmds: Vec<Command> = Vec::new();
        cmds.push(Command::SaveFeeds);
        if self.feeds.len() == 0 {
            self.feed_selected = None;
            self.articles = Vec::new();
            self.article_selected = None;
            proof {
                assert(self@ =~= delete_active_feed(v).0);
            }
        } else {
            if self.active_feed_idx >= self.feeds.len() {
                self.active_feed_idx = self.feeds.len() - 1;
            }
            let idx = self.active_feed_idx;
            self.feed_selected = Some(idx);
            let ghost mid = self@;
            assert(mid =~= AppView {
                feeds: v.feeds.remove(v.active_feed_idx as int),
                active_feed_idx: idx,
                feed_selected: Some(idx),
                ..v
            });
            match self.trigger_fetch(idx) {
                Some(c) => cmds.push(c),
                None => {},
            }
        }
        proof {
            assert(commands_view(cmds@) =~= delete_active_feed(v).1);
        }
        cmds
    }

    fn feeds_key(&mut self, code: KeyCode) -> (cmds: Vec<Command>)
        requires
            old(self)@.wf(),
        ensures
            final(self)@ == feeds_key(old(self)@, code).0,
            commands_view(cmds@) == feeds_key(old(self)@, code).1,
    {
        let ghost v = old(self)@;
        let mut cmds: Vec<Command> = Vec::new();
        match code {
            KeyCode::Tab => {
                if self.articles.len() > 0 {
                    self.active_panel = ActivePanel::Articles;
                }
            },
            KeyCode::Down | KeyCode::Char('j') => {
                if self.feeds.len() > 0 {
                    let i = match self.feed_selected {
                        Some(i) => if i >= self.feeds.len() - 1 {
                            0
                        } else {
                            i + 1
                        },
                        None => 0,
                    };
                    cmds = self.select_and_fetch(i);
                }
            },
            KeyCode::Up | KeyCode::Char('k') => {
                if self.feeds.len() > 0 {
                    let i = match self.feed_selected {
                        Some(i) => if i == 0 {
                            self.feeds.len() - 1
                        } else {
                            i - 1
                        },
                        None => 0,
                    };
                    cmds = self.select_and_fetch(i);
                }
            },
            KeyCode::Char('a') => {
                self.active_panel = ActivePanel::Adding;
                self.input_url = String::new();
                self.error_msg = None;
            },
            KeyCode::Char('d') => {
                if self.feeds.len() > 0 {
                    cmds = self.delete_active_feed();
                }
            },
            KeyCode::Char('r') => {
                match self.trigger_fetch(self.active_feed_idx) {
                    Some(c) => cmds.push(c),
                    None => {},
                }
            },
            _ => {},
        }
        proof {
            assert(self@ =~= feeds_key(v, code).0);
            assert(commands_view(cmds@) =~= feeds_key(v, code).1);
        }
        cmds
    }

    fn open_active_link(&self) -> (cmds: Vec<Command>)
        requires
            self.active_article_idx < self.articles.len(),
        ensures
            commands_view(cmds@) == open_active_link(self@),
    {
        let link = self.articles[self.active_article_idx].link.clone();
        let mut cmds: Vec<Command> = Vec::new();
        if !link.as_str().is_empty() {
            cmds.push(Command::OpenLink { url: link });
        }
        proof {
            assert(commands_view(cmds@) =~= open_active_link(self@));
        }
        cmds
    }

    fn articles_key(&mut self, code: KeyCode) -> (cmds: Vec<Command>)
        requires
            old(self)@.wf(),
        ensures
            final(self)@ == articles_key(old(self)@, code).0,
            commands_view(cmds@) == articles_key(old(self)@, code).1,
    {
        let ghost v = old(self)@;
        let mut cmds: Vec<Command> = Vec::new();
        match code {
            KeyCode::Tab | KeyCode::Esc | KeyCode::Backspace => {
                self.active_panel = ActivePanel::Feeds;
            },
            KeyCode::Down | KeyCode::Char('j') => {
                if self.articles.len() > 0 {
                    let i = match self.article_selected {
                        Some(i) => if i >= self.articles.len() - 1 {
                            0
                        } else {
                            i + 1
                        },
                        None => 0,
                    };
                    self.active_article_idx = i;
                    self.article_selected = Some(i);
                }
            },
            KeyCode::Up | KeyCode::Char('k') => {
                if self.articles.len() > 0 {
                    let i = match self.article_selected {
                        Some(i) => if i == 0 {
                            self.articles.len() - 1
                        } else {
                            i - 1
                        },
                        None => 0,
                    };
                    self.active_article_idx = i;
                    self.article_selected = Some(i);
                }
            },
            KeyCode::Enter => {
                if self.articles.len() > 0 {
                    self.active_panel = ActivePanel::Reading;
                    self.reading_scroll_y = 0;
                }
            },
            KeyCode::Char('o') => {
                if self.articles.len() > 0 {
                    cmds = self.open_active_link();
                }
            },
            KeyCode::Char('r') => {
                match self.trigger_fetch(self.active_feed_idx) {
                    Some(c) => cmds.push(c),
                    None => {},
                }
            },
            _ => {},
        }
        proof {
            assert(self@ =~= articles_key(v, code).0);
            assert(commands_view(cmds@) =~= articles_key(v, code).1);
        }
        cmds
    }

    fn reading_key(&mut self, code: KeyCode) -> (cmds: Vec<Command>)
        requires
            old(self)@.wf(),
            code == KeyCode::Char('o') ==> old(self).articles.len() > 0,
        ensures
            final(self)@ == reading_key(old(self)@, code).0,
            commands_view(cmds@) == reading_key(old(self)@, code).1,
    {
        let ghost v = old(self)@;
        let mut cmds: Vec<Command> = Vec::new();
        match code {
            KeyCode::Esc | KeyCode::Backspace => {
                self.active_panel = ActivePanel::Articles;
            },
            KeyCode::Down | KeyCode::Char('j') => {
                self.reading_scroll_y = self.reading_scroll_y.saturating_add(1);
            },
            KeyCode::Up | KeyCode::Char('k') => {
                self.reading_scroll_y = self.reading_scroll_y.saturating_sub(1);
            },
            KeyCode::Char('o') => {
                cmds = self.open_active_link();
            },
            _ => {},
        }
        proof {
            assert(self@ =~= reading_key(v, code).0);
            assert(commands_view(cmds@) =~= reading_key(v, code).1);
        }
        cmds
    }

    fn adding_key(&mut self, code: KeyCode) -> (cmds: Vec<Command>)
        ensures
            final(self)@ == adding_key(old(self)@, code).0,
            commands_view(cmds@) == adding_key(old(self)@, code).1,
    {
        let ghost v = old(self)@;
        let mut cmds: Vec<Command> = Vec::new();
        match code {
            KeyCode::Esc => {
                self.active_panel = ActivePanel::Feeds;
                self.error_msg = None;
            },
            KeyCode::Char(c) => {
                self.input_url.push(c);
            },
            KeyCode::Backspace => {
                self.input_url.pop();
            },
            KeyCode::Enter => {
                let url = trim_str(self.input_url.as_str());
                if !url.as_str().is_empty() {
                    self.active_panel = ActivePanel::Feeds;
                    let ghost mid = self@;
                    assert(mid =~= AppView { active_panel: ActivePanel::Feeds, ..v });
                    let c = self.trigger_add_feed(url);
                    cmds.push(c);
                }
            },
            _ => {},
        }
        proof {
            assert(self@ =~= adding_key(v, code).0);
            assert(commands_view(cmds@) =~= adding_key(v, code).1);
        }
        cmds
    }

    /// Handles one key event (see `key_step`).
    pub fn handle_key(&mut self, key: KeyPress) -> (cmds: Vec<Command>)
        requires
            old(self)@.wf(),
            key_allowed(old(self)@, key),
        ensures
            final(self)@ == key_step(old(self)@, key).0,
            commands_view(cmds@) == key_step(old(self)@, key).1,
            final(self)@.wf(),
    {
        let ghost v = old(self)@;
        if key.release {
            let cmds: Vec<Command> = Vec::new();
            assert(commands_view(cmds@) =~= key_step(v, key).1);
            return cmds;
        }
        if key.code == KeyCode::Char('q') || (key.code == KeyCode::Char('c') && key.ctrl) {
            let mut cmds: Vec<Command> = Vec::new();
            cmds.push(Command::Quit);
            assert(commands_view(cmds@) =~= key_step(v, key).1);
            return cmds;
        }
        let cmds = match self.active_panel {
            ActivePanel::Feeds => self.feeds_key(key.code),
            ActivePanel::Articles => self.articles_key(key.code),
            ActivePanel::Reading => self.reading_key(key.code),
            ActivePanel::Adding => self.adding_key(key.code),
        };
        proof {
            lemma_key_step_wf(v, key);
        }
        cmds
    }
}

} // verus!
