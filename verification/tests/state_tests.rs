use rss_tui::feed::{FeedItem, FeedSource};
use rss_tui::state::{ActivePanel, App, Command, KeyCode, KeyPress, Msg};

fn key(code: KeyCode) -> KeyPress {
    KeyPress { code, ctrl: false, release: false }
}

fn source(name: &str, url: &str) -> FeedSource {
    FeedSource { name: name.to_string(), url: url.to_string() }
}

fn item(title: &str, link: &str) -> FeedItem {
    FeedItem {
        title: title.to_string(),
        description: String::new(),
        content: String::new(),
        link: link.to_string(),
        published: String::new(),
    }
}

fn three_feeds() -> App {
    App::new(Some(vec![source("A", "http://a"), source("B", "http://b"), source("C", "http://c")]))
}

fn fetch_url(cmds: &[Command]) -> Option<(usize, String)> {
    cmds.iter().find_map(|c| match c {
        Command::Fetch { feed_idx, url } => Some((*feed_idx, url.clone())),
        _ => None,
    })
}

#[test]
fn new_uses_defaults_when_nothing_loaded() {
    let app = App::new(None);
    assert_eq!(app.feeds.len(), 3);
    assert_eq!(app.feeds[2].name, "Hacker News");
    assert_eq!(app.feed_selected, Some(0));
    assert_eq!(app.active_panel, ActivePanel::Feeds);
    assert!(app.articles.is_empty());
    assert!(!app.is_loading);
}

#[test]
fn new_with_empty_list_selects_nothing() {
    let app = App::new(Some(Vec::new()));
    assert!(app.feeds.is_empty());
    assert_eq!(app.feed_selected, None);
}

#[test]
fn down_wraps_and_fetches() {
    let mut app = three_feeds();
    let cmds = app.handle_key(key(KeyCode::Down));
    assert_eq!(fetch_url(&cmds), Some((1, "http://b".to_string())));
    assert_eq!(app.active_feed_idx, 1);
    assert!(app.is_loading);
    app.handle_key(key(KeyCode::Char('j')));
    let cmds = app.handle_key(key(KeyCode::Down));
    assert_eq!(app.active_feed_idx, 0);
    assert_eq!(app.feed_selected, Some(0));
    assert_eq!(fetch_url(&cmds), Some((0, "http://a".to_string())));
}

#[test]
fn up_from_top_wraps_to_bottom() {
    let mut app = three_feeds();
    app.handle_key(key(KeyCode::Up));
    assert_eq!(app.active_feed_idx, 2);
    app.handle_key(key(KeyCode::Char('k')));
    assert_eq!(app.active_feed_idx, 1);
}

#[test]
fn loaded_articles_are_shown_only_for_the_active_feed() {
    let mut app = three_feeds();
    app.trigger_fetch(0);
    app.handle_message(Msg::FeedLoaded { feed_idx: 1, items: vec![item("x", "")] });
    assert!(app.articles.is_empty());
    assert!(app.is_loading);
    app.handle_message(Msg::FeedLoaded { feed_idx: 0, items: vec![item("x", ""), item("y", "")] });
    assert_eq!(app.articles.len(), 2);
    assert_eq!(app.article_selected, Some(0));
    assert!(!app.is_loading);
}

#[test]
fn fetch_failure_sets_error() {
    let mut app = three_feeds();
    app.trigger_fetch(0);
    app.handle_message(Msg::FeedFetchFailed { feed_idx: 0, error: "boom".to_string() });
    assert!(!app.is_loading);
    assert_eq!(app.error_msg.as_deref(), Some("boom"));
}

#[test]
fn article_navigation_reading_and_links() {
    let mut app = three_feeds();
    app.handle_message(Msg::FeedLoaded {
        feed_idx: 0,
        items: vec![item("x", "http://x"), item("y", "")],
    });
    app.handle_key(key(KeyCode::Tab));
    assert_eq!(app.active_panel, ActivePanel::Articles);
    let cmds = app.handle_key(key(KeyCode::Char('o')));
    assert!(matches!(&cmds[..], [Command::OpenLink { url }] if url == "http://x"));
    app.handle_key(key(KeyCode::Down));
    assert_eq!(app.active_article_idx, 1);
    let cmds = app.handle_key(key(KeyCode::Char('o')));
    assert!(cmds.is_empty());
    app.handle_key(key(KeyCode::Down));
    assert_eq!(app.active_article_idx, 0);
    app.handle_key(key(KeyCode::Enter));
    assert_eq!(app.active_panel, ActivePanel::Reading);
    app.handle_key(key(KeyCode::Down));
    app.handle_key(key(KeyCode::Down));
    app.handle_key(key(KeyCode::Up));
    assert_eq!(app.reading_scroll_y, 1);
    app.handle_key(key(KeyCode::Up));
    app.handle_key(key(KeyCode::Up));
    assert_eq!(app.reading_scroll_y, 0);
    app.handle_key(key(KeyCode::Esc));
    assert_eq!(app.active_panel, ActivePanel::Articles);
    app.handle_key(key(KeyCode::Backspace));
    assert_eq!(app.active_panel, ActivePanel::Feeds);
}

#[test]
fn tab_without_articles_stays_in_feeds() {
    let mut app = three_feeds();
    app.handle_key(key(KeyCode::Tab));
    assert_eq!(app.active_panel, ActivePanel::Feeds);
}

#[test]
fn reading_scroll_saturates() {
    let mut app = three_feeds();
    app.handle_message(Msg::FeedLoaded { feed_idx: 0, items: vec![item("x", "")] });
    app.active_panel = ActivePanel::Reading;
    app.reading_scroll_y = u16::MAX;
    app.handle_key(key(KeyCode::Char('j')));
    assert_eq!(app.reading_scroll_y, u16::MAX);
}

#[test]
fn delete_middle_and_last_feeds() {
    let mut app = three_feeds();
    app.handle_key(key(KeyCode::Down));
    let cmds = app.handle_key(key(KeyCode::Char('d')));
    assert!(matches!(cmds[0], Command::SaveFeeds));
    assert_eq!(fetch_url(&cmds), Some((1, "http://c".to_string())));
    assert_eq!(app.feeds.len(), 2);
    assert_eq!(app.feeds[1].name, "C");
    let cmds = app.handle_key(key(KeyCode::Char('d')));
    assert_eq!(fetch_url(&cmds), Some((0, "http://a".to_string())));
    assert_eq!(app.active_feed_idx, 0);
    let cmds = app.handle_key(key(KeyCode::Char('d')));
    assert_eq!(cmds.len(), 1);
    assert!(app.feeds.is_empty());
    assert_eq!(app.feed_selected, None);
    assert_eq!(app.article_selected, None);
    let cmds = app.handle_key(key(KeyCode::Char('d')));
    assert!(cmds.is_empty());
    let cmds = app.handle_key(key(KeyCode::Char('r')));
    assert!(cmds.is_empty());
}

#[test]
fn adding_a_feed() {
    let mut app = three_feeds();
    app.error_msg = Some("old".to_string());
    app.handle_key(key(KeyCode::Char('a')));
    assert_eq!(app.active_panel, ActivePanel::Adding);
    assert_eq!(app.error_msg, None);
    for c in "  http://new/xx".chars() {
        app.handle_key(key(KeyCode::Char(c)));
    }
    app.handle_key(key(KeyCode::Backspace));
    app.handle_key(key(KeyCode::Char(' ')));
    assert_eq!(app.input_url, "  http://new/x ");
    let cmds = app.handle_key(key(KeyCode::Enter));
    assert!(matches!(&cmds[..], [Command::AddFeed { url }] if url == "http://new/x"));
    assert_eq!(app.active_panel, ActivePanel::Feeds);
    assert!(app.is_loading);
    let cmds = app.handle_message(Msg::FeedAdded {
        source: source("New", "http://new/x"),
        items: vec![item("n", "")],
    });
    assert!(matches!(&cmds[..], [Command::SaveFeeds]));
    assert_eq!(app.feeds.len(), 4);
    assert_eq!(app.active_feed_idx, 3);
    assert_eq!(app.feed_selected, Some(3));
    assert_eq!(app.active_panel, ActivePanel::Articles);
    assert_eq!(app.articles.len(), 1);
}

#[test]
fn blank_address_is_not_submitted_and_failure_returns_to_prompt() {
    let mut app = three_feeds();
    app.handle_key(key(KeyCode::Char('a')));
    app.handle_key(key(KeyCode::Char(' ')));
    let cmds = app.handle_key(key(KeyCode::Enter));
    assert!(cmds.is_empty());
    assert_eq!(app.active_panel, ActivePanel::Adding);
    app.handle_message(Msg::FeedAddFailed { error: "bad".to_string() });
    assert_eq!(app.active_panel, ActivePanel::Adding);
    assert_eq!(app.error_msg.as_deref(), Some("bad"));
    app.handle_key(key(KeyCode::Esc));
    assert_eq!(app.active_panel, ActivePanel::Feeds);
    assert_eq!(app.error_msg, None);
}

#[test]
fn quit_keys_and_releases() {
    let mut app = three_feeds();
    let cmds = app.handle_key(key(KeyCode::Char('q')));
    assert!(matches!(&cmds[..], [Command::Quit]));
    let cmds = app.handle_key(KeyPress { code: KeyCode::Char('c'), ctrl: true, release: false });
    assert!(matches!(&cmds[..], [Command::Quit]));
    let cmds = app.handle_key(KeyPress { code: KeyCode::Down, ctrl: false, release: true });
    assert!(cmds.is_empty());
    assert_eq!(app.active_feed_idx, 0);
    // Plain `c` is not a quit key.
    let cmds = app.handle_key(key(KeyCode::Char('c')));
    assert!(cmds.is_empty());
}

fn invariant_holds(app: &App) -> bool {
    let feeds_ok = if app.feeds.is_empty() {
        app.feed_selected.is_none()
    } else {
        app.active_feed_idx < app.feeds.len() && app.feed_selected == Some(app.active_feed_idx)
    };
    let articles_ok = app.articles.is_empty()
        || (app.active_article_idx < app.articles.len()
            && app.article_selected == Some(app.active_article_idx));
    feeds_ok && articles_ok
}

#[test]
fn invariant_holds_along_a_sequence_of_events() {
    let mut app = three_feeds();
    assert!(invariant_holds(&app));
    app.handle_key(key(KeyCode::Down));
    assert!(invariant_holds(&app));
    app.handle_message(Msg::FeedLoaded { feed_idx: 1, items: vec![item("x", "http://x"), item("y", "http://y")] });
    assert!(invariant_holds(&app));
    app.handle_key(key(KeyCode::Char('d')));
    assert!(invariant_holds(&app));
    app.handle_message(Msg::FeedAdded { source: source("D", "http://d"), items: vec![item("z", "http://z")] });
    assert!(invariant_holds(&app));
    app.handle_key(key(KeyCode::Tab));
    app.handle_key(key(KeyCode::Up));
    assert!(invariant_holds(&app));
    app.handle_message(Msg::FeedFetchFailed { feed_idx: 0, error: "boom".to_string() });
    assert!(invariant_holds(&app));
    for _ in 0..3 {
        app.handle_key(key(KeyCode::Char('d')));
        assert!(invariant_holds(&app));
    }
}
