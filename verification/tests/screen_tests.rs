use rss_tui::feed::{FeedItem, FeedSource};
use rss_tui::screen::Body;
use rss_tui::state::{ActivePanel, App, KeyCode, KeyPress, Msg};

fn key(code: KeyCode) -> KeyPress {
    KeyPress { code, ctrl: false, release: false }
}

fn app_with_article() -> App {
    let mut app = App::new(Some(vec![FeedSource { name: "Blog".to_string(), url: "http://b".to_string() }]));
    app.handle_message(Msg::FeedLoaded {
        feed_idx: 0,
        items: vec![FeedItem {
            title: "Hello".to_string(),
            description: "d".to_string(),
            content: "<p>Body &amp; more</p>".to_string(),
            link: "http://b/1".to_string(),
            published: "Mar 05, 2024 • 14:30".to_string(),
        }],
    });
    app
}

#[test]
fn lists_screen() {
    let app = app_with_article();
    let s = app.screen();
    match s.body {
        Body::Lists { feed_labels, feeds_focused, articles_title, article_rows, articles_focused } => {
            assert_eq!(feed_labels, vec!["• Blog".to_string()]);
            assert!(feeds_focused);
            assert!(!articles_focused);
            assert_eq!(articles_title, " Articles in Blog ");
            assert_eq!(article_rows.len(), 1);
            assert_eq!(article_rows[0].title, "Hello");
            assert_eq!(article_rows[0].published_line, "  Published: Mar 05, 2024 • 14:30  ");
        }
        _ => panic!("expected the lists"),
    }
    assert_eq!(s.status, " ✓ Ready  ");
    assert_eq!(s.help, "Tab: Switch focus • a: Add feed • d: Delete feed • r: Refresh • q: Quit");
    assert!(s.add_prompt.is_none());
}

#[test]
fn reader_screen() {
    let mut app = app_with_article();
    app.handle_key(key(KeyCode::Tab));
    app.handle_key(key(KeyCode::Enter));
    let s = app.screen();
    match s.body {
        Body::Reader { title, text, scroll } => {
            assert_eq!(title, " Reading: Hello ");
            assert_eq!(
                text,
                "Title: Hello\nPublished: Mar 05, 2024 • 14:30\nLink: http://b/1\n\nBody & more"
            );
            assert_eq!(scroll, 0);
        }
        _ => panic!("expected the reader"),
    }
    assert_eq!(s.help, "Esc: Back • j/k: Scroll • o: Open link • q: Quit");
}

#[test]
fn status_loading_and_error() {
    let mut app = app_with_article();
    app.trigger_fetch(0);
    assert_eq!(app.screen().status, " ⠋ Loading feed data...  ");
    app.handle_message(Msg::FeedFetchFailed { feed_idx: 0, error: "timeout".to_string() });
    assert_eq!(app.screen().status, " ❌ Error: timeout  ");
}

#[test]
fn empty_feed_list_title_and_prompt() {
    let mut app = App::new(Some(Vec::new()));
    match app.screen().body {
        Body::Lists { articles_title, .. } => assert_eq!(articles_title, " Articles in None "),
        _ => panic!("expected the lists"),
    }
    app.handle_key(key(KeyCode::Char('a')));
    app.handle_key(key(KeyCode::Char('h')));
    assert_eq!(app.active_panel, ActivePanel::Adding);
    let s = app.screen();
    assert_eq!(
        s.add_prompt.as_deref(),
        Some("\n Input Feed URL:\n h\n\n Press Enter to add, Esc to cancel")
    );
    assert_eq!(s.help, "Esc: Cancel • Enter: Save feed • q: Quit");
}
