//! Laws relating several steps of the reader's state machine.

use vstd::prelude::*;
use crate::feed::{default_feeds, FeedItemView, FeedSourceView};
use crate::text::trim;
use crate::state::{
    apply_msg, articles_key, initial_state, start_add, start_fetch, feeds_key, is_quit_key, select_and_fetch, key_step, next_index, prev_index, lemma_apply_msg_wf, lemma_key_step_wf, ActivePanel, AppView,
    CommandView, KeyCode, KeyPress, MsgView,
};

verus! {

/// A plain press of `code`: no Control, not a release.
pub open spec fn press(code: KeyCode) -> KeyPress {
    KeyPress { code: code, ctrl: false, release: false }
}

/// Law: in the feed list, Down then Up comes back to the feed one started
/// from, highlighted and active.
pub proof fn lemma_feeds_down_then_up(v: AppView)
    requires
        v.wf(),
        v.active_panel == ActivePanel::Feeds,
        0 < v.feeds.len() <= usize::MAX,
    ensures
        ({
            let w = key_step(key_step(v, press(KeyCode::Down)).0, press(KeyCode::Up)).0;
            w.active_feed_idx == v.active_feed_idx && w.feed_selected == v.feed_selected
                && w.feeds == v.feeds && w.active_panel == ActivePanel::Feeds
        }),
{
    let k = press(KeyCode::Down);
    assert(!is_quit_key(k));
    let d = key_step(v, k).0;
    assert(d.feeds == v.feeds);
    assert(d.active_panel == ActivePanel::Feeds);
    assert(d.feed_selected == Some(d.active_feed_idx));
}

/// Law: in the feed list, Up then Down comes back to the feed one started
/// from, highlighted and active.
pub proof fn lemma_feeds_up_then_down(v: AppView)
    requires
        v.wf(),
        v.active_panel == ActivePanel::Feeds,
        0 < v.feeds.len() <= usize::MAX,
    ensures
        ({
            let w = key_step(key_step(v, press(KeyCode::Up)).0, press(KeyCode::Down)).0;
            w.active_feed_idx == v.active_feed_idx && w.feed_selected == v.feed_selected
                && w.feeds == v.feeds && w.active_panel == ActivePanel::Feeds
        }),
{
}

/// Law: in the article list, Down then Up comes back to the article one
/// started from, and Up then Down too; the articles stay as they are.
pub proof fn lemma_articles_down_up(v: AppView)
    requires
        v.wf(),
        v.active_panel == ActivePanel::Articles,
        0 < v.articles.len() <= usize::MAX,
    ensures
        key_step(key_step(v, press(KeyCode::Down)).0, press(KeyCode::Up)).0 == v,
        key_step(key_step(v, press(KeyCode::Up)).0, press(KeyCode::Down)).0 == v,
{
    let d = key_step(v, press(KeyCode::Down)).0;
    assert(key_step(d, press(KeyCode::Up)).0 =~= v);
    let u = key_step(v, press(KeyCode::Up)).0;
    assert(key_step(u, press(KeyCode::Down)).0 =~= v);
}

/// Law: pressing Down as many times as there are feeds comes back to the
/// feed one started from.
pub proof fn lemma_feeds_down_cycles(v: AppView, n: nat)
    requires
        v.wf(),
        v.active_panel == ActivePanel::Feeds,
        0 < v.feeds.len() <= usize::MAX,
        n <= v.feeds.len(),
    ensures
        repeat_down(v, n).active_feed_idx == (v.active_feed_idx + n) % (v.feeds.len() as int),
        repeat_down(v, n).wf(),
        repeat_down(v, n).feeds == v.feeds,
        repeat_down(v, n).active_panel == ActivePanel::Feeds,
        n == v.feeds.len() ==> repeat_down(v, n).active_feed_idx == v.active_feed_idx,
    decreases n,
{
    if n > 0 {
        lemma_feeds_down_cycles(v, (n - 1) as nat);
        let p = repeat_down(v, (n - 1) as nat);
        let len = v.feeds.len() as int;
        assert(p.feed_selected == Some(p.active_feed_idx));
        let a = v.active_feed_idx as int;
        assert(0 <= a < len);
        assert(p.active_feed_idx == (a + n - 1) % len);
        if p.active_feed_idx >= len - 1 {
            assert((a + n - 1) % len == len - 1);
            assert((a + n) % len == 0) by {
                vstd::arithmetic::div_mod::lemma_add_mod_noop(a + n - 1, 1, len);
                vstd::arithmetic::div_mod::lemma_mod_self_0(len);
                if len > 1 {
                    vstd::arithmetic::div_mod::lemma_small_mod(1, len as nat);
                }
            }
        } else {
            assert((a + n) % len == (a + n - 1) % len + 1) by {
                vstd::arithmetic::div_mod::lemma_add_mod_noop(a + n - 1, 1, len);
                vstd::arithmetic::div_mod::lemma_small_mod(1, len as nat);
                vstd::arithmetic::div_mod::lemma_small_mod(
                    ((a + n - 1) % len + 1) as nat,
                    len as nat,
                );
            }
        }
        let k = press(KeyCode::Down);
        assert(!is_quit_key(k));
        assert(repeat_down(v, n) == key_step(p, k).0);
        if n == len {
            vstd::arithmetic::div_mod::lemma_add_mod_noop(a, len, len);
            vstd::arithmetic::div_mod::lemma_mod_self_0(len);
            vstd::arithmetic::div_mod::lemma_small_mod(a as nat, len as nat);
        }
    } else {
        vstd::arithmetic::div_mod::lemma_small_mod(v.active_feed_idx as nat, v.feeds.len());
    }
}

/// The state after pressing Down `n` times.
pub open spec fn repeat_down(v: AppView, n: nat) -> AppView
    decreases n,
{
    if n == 0 {
        v
    } else {
        key_step(repeat_down(v, (n - 1) as nat), press(KeyCode::Down)).0
    }
}

/// Law: in the address prompt, typing a character and then Backspace gives
/// back the address as it was (`q` is not typed: it quits).
pub proof fn lemma_type_then_backspace(v: AppView, c: char)
    requires
        v.active_panel == ActivePanel::Adding,
        c != 'q',
    ensures
        key_step(key_step(v, press(KeyCode::Char(c))).0, press(KeyCode::Backspace)).0 == v,
{
    let t = key_step(v, press(KeyCode::Char(c))).0;
    assert(t.input_url.drop_last() =~= v.input_url);
    assert(key_step(t, press(KeyCode::Backspace)).0 =~= v);
}

/// Law: the quit keys and key releases never change the state; the quit
/// keys answer with the single command to quit.
pub proof fn lemma_quit_and_release_keep_state(v: AppView, k: KeyPress)
    ensures
        k.release ==> key_step(v, k) == (v, Seq::<CommandView>::empty()),
        !k.release && is_quit_key(k) ==> key_step(v, k) == (v, seq![CommandView::Quit]),
{
}

/// Law: a fetch result or failure for a feed that is no longer the active
/// one changes nothing.
pub proof fn lemma_stale_result_ignored(v: AppView, idx: usize, items: Seq<FeedItemView>, error: Seq<char>)
    requires
        idx != v.active_feed_idx,
    ensures
        apply_msg(v, MsgView::FeedLoaded { feed_idx: idx, items: items }) == (v, Seq::<CommandView>::empty()),
        apply_msg(v, MsgView::FeedFetchFailed { feed_idx: idx, error: error }) == (v, Seq::<CommandView>::empty()),
{
}

/// Law: a new subscription ends up last in the feed list, active and
/// highlighted, with its articles shown, and the list is stored.
pub proof fn lemma_added_feed_is_active(v: AppView, source: FeedSourceView, items: Seq<FeedItemView>)
    requires
        v.wf(),
        v.feeds.len() < usize::MAX,
    ensures
        ({
            let (w, cmds) = apply_msg(v, MsgView::FeedAdded { source: source, items: items });
            &&& w.feeds == v.feeds.push(source)
            &&& w.active_feed_idx == v.feeds.len()
            &&& w.feed_selected == Some(v.feeds.len() as usize)
            &&& w.articles == items
            &&& w.active_panel == ActivePanel::Articles
            &&& !w.is_loading
            &&& cmds == seq![CommandView::SaveFeeds]
            &&& w.wf()
        }),
{
}

/// Law: deleting the only feed leaves no feed, no article and no highlight,
/// and stores the empty list.
pub proof fn lemma_delete_only_feed(v: AppView)
    requires
        v.wf(),
        v.active_panel == ActivePanel::Feeds,
        v.feeds.len() == 1,
    ensures
        ({
            let (w, cmds) = key_step(v, press(KeyCode::Char('d')));
            &&& w.feeds.len() == 0
            &&& w.articles.len() == 0
            &&& w.feed_selected is None
            &&& w.article_selected is None
            &&& cmds == seq![CommandView::SaveFeeds]
        }),
{
}


/// Whether `c` asks for a fetch of a feed of `w`, by its address.
pub open spec fn fetch_names_feed(c: CommandView, w: AppView) -> bool {
    c matches CommandView::Fetch { feed_idx, url } ==> feed_idx < w.feeds.len() && url
        == w.feeds[feed_idx as int].url
}

/// Law: every fetch that a key asks for is of a feed in the resulting list,
/// by that feed's address, and that feed is the active one.
pub proof fn lemma_key_fetches_active_feed(v: AppView, k: KeyPress)
    requires
        v.wf(),
    ensures
        ({
            let (w, cmds) = key_step(v, k);
            forall|i: int|
                0 <= i < cmds.len() ==> fetch_names_feed(#[trigger] cmds[i], w) && (cmds[i] is Fetch
                    ==> cmds[i]->feed_idx == w.active_feed_idx)
        }),
{
    crate::state::lemma_key_step_wf(v, k);
}

/// What the event loop hands the state machine: a key, or the result of a
/// background fetch.
pub enum ReaderEvent {
    Key(KeyPress),
    Message(MsgView),
}

/// The state after one event.
pub open spec fn event_step(v: AppView, e: ReaderEvent) -> AppView {
    match e {
        ReaderEvent::Key(k) => key_step(v, k).0,
        ReaderEvent::Message(m) => apply_msg(v, m).0,
    }
}

/// The state after a sequence of events, handled in order.
pub open spec fn run_events(v: AppView, es: Seq<ReaderEvent>) -> AppView
    decreases es.len(),
{
    if es.len() == 0 {
        v
    } else {
        run_events(event_step(v, es[0]), es.drop_first())
    }
}

/// Law: the invariant holds after every sequence of keys and fetch results,
/// as long as the feed list cannot outgrow `usize` (each event adds at most
/// one feed).
pub proof fn lemma_events_keep_wf(v: AppView, es: Seq<ReaderEvent>)
    requires
        v.wf(),
        v.feeds.len() + es.len() < usize::MAX,
    ensures
        run_events(v, es).wf(),
    decreases es.len(),
{
    if es.len() > 0 {
        let w = event_step(v, es[0]);
        match es[0] {
            ReaderEvent::Key(k) => {
                lemma_key_step_wf(v, k);
                lemma_key_step_no_new_feed(v, k);
            },
            ReaderEvent::Message(m) => {
                lemma_apply_msg_wf(v, m);
            },
        }
        lemma_events_keep_wf(w, es.drop_first());
    }
}

proof fn lemma_key_step_no_new_feed(v: AppView, k: KeyPress)
    requires
        v.wf(),
    ensures
        key_step(v, k).0.feeds.len() <= v.feeds.len(),
{
}

/// Law: in the article list, Down (or `j`) highlights the next article, and
/// the first one after the last; nothing else changes and no command is
/// given.
pub proof fn lemma_articles_down_highlights_next(v: AppView, code: KeyCode)
    requires
        v.wf(),
        v.active_panel == ActivePanel::Articles,
        0 < v.articles.len() <= usize::MAX,
        code == KeyCode::Down || code == KeyCode::Char('j'),
    ensures
        ({
            let (w, cmds) = key_step(v, press(code));
            let i = v.active_article_idx;
            &&& i + 1 < v.articles.len() ==> w.active_article_idx == i + 1
            &&& i + 1 == v.articles.len() ==> w.active_article_idx == 0
            &&& w.article_selected == Some(w.active_article_idx)
            &&& w == (AppView { active_article_idx: w.active_article_idx, article_selected: w.article_selected, ..v })
            &&& cmds.len() == 0
        }),
{
    let k = press(code);
    assert(!is_quit_key(k));
    assert(v.article_selected == Some(v.active_article_idx));
    let n = next_index(v.article_selected, v.articles.len());
    assert(articles_key(v, code).0 == (AppView { active_article_idx: n, article_selected: Some(n), ..v }));
    assert(key_step(v, k) == articles_key(v, code));
}

/// Law: in the article list, Up (or `k`) highlights the previous article,
/// and the last one before the first; nothing else changes and no command
/// is given.
pub proof fn lemma_articles_up_highlights_previous(v: AppView, code: KeyCode)
    requires
        v.wf(),
        v.active_panel == ActivePanel::Articles,
        0 < v.articles.len() <= usize::MAX,
        code == KeyCode::Up || code == KeyCode::Char('k'),
    ensures
        ({
            let (w, cmds) = key_step(v, press(code));
            let i = v.active_article_idx;
            &&& i > 0 ==> w.active_article_idx == i - 1
            &&& i == 0 ==> w.active_article_idx == v.articles.len() - 1
            &&& w.article_selected == Some(w.active_article_idx)
            &&& w == (AppView { active_article_idx: w.active_article_idx, article_selected: w.article_selected, ..v })
            &&& cmds.len() == 0
        }),
{
    let k = press(code);
    assert(!is_quit_key(k));
    assert(v.article_selected == Some(v.active_article_idx));
    let n = prev_index(v.article_selected, v.articles.len());
    assert(articles_key(v, code).0 == (AppView { active_article_idx: n, article_selected: Some(n), ..v }));
    assert(key_step(v, k) == articles_key(v, code));
}

/// Law: in the feed list, Down (or `j`) makes the next feed active and
/// highlighted, the first one after the last, and fetches it: the articles
/// are cleared, loading is shown, and the one command fetches that feed's
/// address.
pub proof fn lemma_feeds_down_fetches_next(v: AppView, code: KeyCode)
    requires
        v.wf(),
        v.active_panel == ActivePanel::Feeds,
        0 < v.feeds.len() <= usize::MAX,
        code == KeyCode::Down || code == KeyCode::Char('j'),
    ensures
        ({
            let (w, cmds) = key_step(v, press(code));
            let i = v.active_feed_idx;
            &&& i + 1 < v.feeds.len() ==> w.active_feed_idx == i + 1
            &&& i + 1 == v.feeds.len() ==> w.active_feed_idx == 0
            &&& w.feed_selected == Some(w.active_feed_idx)
            &&& w.feeds == v.feeds
            &&& w.is_loading
            &&& w.articles.len() == 0
            &&& w.error_msg is None
            &&& cmds == seq![CommandView::Fetch { feed_idx: w.active_feed_idx, url: v.feeds[w.active_feed_idx as int].url }]
        }),
{
    let k = press(code);
    assert(!is_quit_key(k));
    assert(v.feed_selected == Some(v.active_feed_idx));
    let n = next_index(v.feed_selected, v.feeds.len());
    assert(n < v.feeds.len());
    assert(feeds_key(v, code) == select_and_fetch(v, n));
    assert(key_step(v, k) == feeds_key(v, code));
}

/// Law: in the feed list, Up (or `k`) makes the previous feed active and
/// highlighted, the last one before the first, and fetches it.
pub proof fn lemma_feeds_up_fetches_previous(v: AppView, code: KeyCode)
    requires
        v.wf(),
        v.active_panel == ActivePanel::Feeds,
        0 < v.feeds.len() <= usize::MAX,
        code == KeyCode::Up || code == KeyCode::Char('k'),
    ensures
        ({
            let (w, cmds) = key_step(v, press(code));
            let i = v.active_feed_idx;
            &&& i > 0 ==> w.active_feed_idx == i - 1
            &&& i == 0 ==> w.active_feed_idx == v.feeds.len() - 1
            &&& w.feed_selected == Some(w.active_feed_idx)
            &&& w.feeds == v.feeds
            &&& w.is_loading
            &&& w.articles.len() == 0
            &&& w.error_msg is None
            &&& cmds == seq![CommandView::Fetch { feed_idx: w.active_feed_idx, url: v.feeds[w.active_feed_idx as int].url }]
        }),
{
    let k = press(code);
    assert(!is_quit_key(k));
    assert(v.feed_selected == Some(v.active_feed_idx));
    let n = prev_index(v.feed_selected, v.feeds.len());
    assert(n < v.feeds.len());
    assert(feeds_key(v, code) == select_and_fetch(v, n));
    assert(key_step(v, k) == feeds_key(v, code));
}

/// Law: `r` in the feed list or the article list refreshes the active feed:
/// the one command fetches its address, loading is shown, the articles are
/// cleared and the error forgotten, and the feed list and the active feed
/// stay as they are. With no feed, `r` does nothing.
pub proof fn lemma_refresh_fetches_active_feed(v: AppView)
    requires
        v.wf(),
        v.active_panel == ActivePanel::Feeds || v.active_panel == ActivePanel::Articles,
    ensures
        ({
            let (w, cmds) = key_step(v, press(KeyCode::Char('r')));
            &&& v.feeds.len() > 0 ==> {
                &&& cmds == seq![CommandView::Fetch { feed_idx: v.active_feed_idx, url: v.feeds[v.active_feed_idx as int].url }]
                &&& w.is_loading
                &&& w.articles.len() == 0
                &&& w.article_selected is None
                &&& w.error_msg is None
                &&& w.feeds == v.feeds
                &&& w.active_feed_idx == v.active_feed_idx
                &&& w.feed_selected == v.feed_selected
                &&& w.active_panel == v.active_panel
            }
            &&& v.feeds.len() == 0 ==> w == v && cmds.len() == 0
        }),
{
}

/// Law: `a` in the feed list opens the address prompt, empty and without an
/// error, and gives no command.
pub proof fn lemma_add_key_opens_prompt(v: AppView)
    requires
        v.active_panel == ActivePanel::Feeds,
    ensures
        ({
            let (w, cmds) = key_step(v, press(KeyCode::Char('a')));
            &&& w.active_panel == ActivePanel::Adding
            &&& w.input_url.len() == 0
            &&& w.error_msg is None
            &&& w.feeds == v.feeds
            &&& cmds.len() == 0
        }),
{
}

/// Law: `d` in the feed list removes the active feed and stores the list;
/// when feeds remain, the feed now at the same position (or the last one)
/// becomes active and is fetched.
pub proof fn lemma_delete_removes_active_feed(v: AppView)
    requires
        v.wf(),
        v.active_panel == ActivePanel::Feeds,
        v.feeds.len() > 1,
    ensures
        ({
            let (w, cmds) = key_step(v, press(KeyCode::Char('d')));
            let j = if v.active_feed_idx + 1 == v.feeds.len() {
                v.active_feed_idx - 1
            } else {
                v.active_feed_idx as int
            };
            &&& w.feeds == v.feeds.remove(v.active_feed_idx as int)
            &&& w.active_feed_idx == j
            &&& w.feed_selected == Some(w.active_feed_idx)
            &&& w.is_loading
            &&& w.articles.len() == 0
            &&& cmds == seq![CommandView::SaveFeeds, CommandView::Fetch { feed_idx: w.active_feed_idx, url: w.feeds[j].url }]
        }),
{
}

/// Law: Tab in the feed list moves the focus to the article list when it has
/// articles, and does nothing otherwise.
pub proof fn lemma_tab_from_feeds(v: AppView)
    requires
        v.active_panel == ActivePanel::Feeds,
    ensures
        ({
            let (w, cmds) = key_step(v, press(KeyCode::Tab));
            &&& v.articles.len() > 0 ==> w == (AppView { active_panel: ActivePanel::Articles, ..v })
            &&& v.articles.len() == 0 ==> w == v
            &&& cmds.len() == 0
        }),
{
}

/// Law: in the article list, Tab, Esc and Backspace give the focus back to
/// the feed list, and Enter opens the highlighted article in the reader,
/// scrolled to the top; neither gives a command.
pub proof fn lemma_article_list_focus_keys(v: AppView, code: KeyCode)
    requires
        v.active_panel == ActivePanel::Articles,
        v.articles.len() > 0,
        code == KeyCode::Tab || code == KeyCode::Esc || code == KeyCode::Backspace || code == KeyCode::Enter,
    ensures
        ({
            let (w, cmds) = key_step(v, press(code));
            &&& code == KeyCode::Enter ==> w == (AppView { active_panel: ActivePanel::Reading, reading_scroll_y: 0, ..v })
            &&& code != KeyCode::Enter ==> w == (AppView { active_panel: ActivePanel::Feeds, ..v })
            &&& cmds.len() == 0
        }),
{
}

/// Law: `o` in the article list or the reader opens the link of the
/// highlighted article, when it has one, and changes nothing.
pub proof fn lemma_open_key_opens_active_link(v: AppView)
    requires
        v.active_panel == ActivePanel::Articles || v.active_panel == ActivePanel::Reading,
        v.articles.len() > 0,
    ensures
        ({
            let (w, cmds) = key_step(v, press(KeyCode::Char('o')));
            let link = v.articles[v.active_article_idx as int].link;
            &&& w == v
            &&& link.len() > 0 ==> cmds == seq![CommandView::OpenLink { url: link }]
            &&& link.len() == 0 ==> cmds.len() == 0
        }),
{
}

/// Law: in the reader, Down and Up scroll by one line, stopping at the top
/// and at `u16::MAX`; Esc and Backspace go back to the article list.
pub proof fn lemma_reader_keys(v: AppView, code: KeyCode)
    requires
        v.active_panel == ActivePanel::Reading,
        code == KeyCode::Down || code == KeyCode::Up || code == KeyCode::Esc || code == KeyCode::Backspace,
    ensures
        ({
            let (w, cmds) = key_step(v, press(code));
            &&& code == KeyCode::Down ==> w == (AppView { reading_scroll_y: if v.reading_scroll_y == u16::MAX { u16::MAX } else { (v.reading_scroll_y + 1) as u16 }, ..v })
            &&& code == KeyCode::Up ==> w == (AppView { reading_scroll_y: if v.reading_scroll_y == 0 { 0 } else { (v.reading_scroll_y - 1) as u16 }, ..v })
            &&& (code == KeyCode::Esc || code == KeyCode::Backspace) ==> w == (AppView { active_panel: ActivePanel::Articles, ..v })
            &&& cmds.len() == 0
        }),
{
}

/// Law: in the address prompt a typed character (other than `q`, which
/// quits) is added at the end, Backspace removes the last one, and Esc
/// closes the prompt and clears the error.
pub proof fn lemma_prompt_editing(v: AppView, c: char)
    requires
        v.active_panel == ActivePanel::Adding,
        c != 'q',
    ensures
        key_step(v, press(KeyCode::Char(c))).0.input_url == v.input_url.push(c),
        key_step(v, press(KeyCode::Char(c))).0.active_panel == ActivePanel::Adding,
        key_step(v, press(KeyCode::Char(c))).1.len() == 0,
        v.input_url.len() > 0 ==> key_step(v, press(KeyCode::Backspace)).0.input_url
            == v.input_url.take(v.input_url.len() - 1),
        key_step(v, press(KeyCode::Esc)).0 == (AppView { active_panel: ActivePanel::Feeds, error_msg: None, ..v }),
        key_step(v, press(KeyCode::Esc)).1.len() == 0,
{
    assert(v.input_url.drop_last() =~= v.input_url.take(v.input_url.len() - 1));
}

/// Law: after any result for the request in flight (articles loaded or
/// failed for the active feed, a feed added, adding failed), loading is no
/// longer shown; a failure shows its error, a success clears it.
pub proof fn lemma_result_ends_loading(v: AppView, m: MsgView)
    requires
        m matches MsgView::FeedLoaded { feed_idx, .. } ==> feed_idx == v.active_feed_idx,
        m matches MsgView::FeedFetchFailed { feed_idx, .. } ==> feed_idx == v.active_feed_idx,
    ensures
        ({
            let w = apply_msg(v, m).0;
            &&& !w.is_loading
            &&& m matches MsgView::FeedFetchFailed { error, .. } ==> w.error_msg == Some(error)
            &&& m matches MsgView::FeedAddFailed { error } ==> w.error_msg == Some(error)
            &&& m is FeedLoaded ==> w.error_msg is None
            &&& m is FeedAdded ==> w.error_msg is None
        }),
{
}

/// Law: articles loaded for the active feed replace the article list, the
/// first one highlighted when there is one; the feeds and the panel stay,
/// and no command is given.
pub proof fn lemma_loaded_articles_shown(v: AppView, items: Seq<FeedItemView>)
    ensures
        ({
            let (w, cmds) = apply_msg(v, MsgView::FeedLoaded { feed_idx: v.active_feed_idx, items: items });
            &&& w.articles == items
            &&& items.len() > 0 ==> w.active_article_idx == 0 && w.article_selected == Some(0usize)
            &&& w.feeds == v.feeds
            &&& w.active_feed_idx == v.active_feed_idx
            &&& w.active_panel == v.active_panel
            &&& cmds.len() == 0
        }),
{
}

/// Law: a failed fetch of the active feed keeps the articles and the panel;
/// a failed subscription goes back to the address prompt, address kept.
pub proof fn lemma_failures_keep_state(v: AppView, error: Seq<char>)
    ensures
        ({
            let w = apply_msg(v, MsgView::FeedFetchFailed { feed_idx: v.active_feed_idx, error: error }).0;
            w == (AppView { is_loading: false, error_msg: Some(error), ..v })
        }),
        ({
            let (w, cmds) = apply_msg(v, MsgView::FeedAddFailed { error: error });
            &&& w == (AppView { is_loading: false, error_msg: Some(error), active_panel: ActivePanel::Adding, ..v })
            &&& cmds.len() == 0
        }),
{
}

/// Law: a reader starts on the feed list with the stored feeds (the
/// built-in ones when none could be loaded), the first feed active and
/// highlighted when there is one, no articles, nothing loading, no error and
/// an empty address.
pub proof fn lemma_initial_state_fields(loaded: Option<Seq<FeedSourceView>>)
    ensures
        ({
            let v = initial_state(loaded);
            &&& loaded matches Some(f) ==> v.feeds == f
            &&& loaded is None ==> v.feeds == default_feeds()
            &&& v.active_panel == ActivePanel::Feeds
            &&& v.active_feed_idx == 0
            &&& v.feeds.len() > 0 ==> v.feed_selected == Some(0usize)
            &&& v.feeds.len() == 0 ==> v.feed_selected is None
            &&& v.articles.len() == 0
            &&& v.article_selected is None
            &&& !v.is_loading
            &&& v.error_msg is None
            &&& v.input_url.len() == 0
            &&& v.reading_scroll_y == 0
        }),
{
}

/// Law: starting a fetch of feed `idx` asks for that feed's address, shows
/// loading, clears the articles, their highlight and the error, and keeps
/// the feed list, the active feed and the panel; with no feed it does
/// nothing.
pub proof fn lemma_start_fetch_fields(v: AppView, idx: usize)
    ensures
        ({
            let (w, c) = start_fetch(v, idx);
            &&& v.feeds.len() > 0 ==> {
                &&& c == Some(CommandView::Fetch { feed_idx: idx, url: v.feeds[idx as int].url })
                &&& w == (AppView { is_loading: true, articles: Seq::empty(), article_selected: None, error_msg: None, ..v })
            }
            &&& v.feeds.len() == 0 ==> w == v && c is None
        }),
{
}

/// Law: starting a subscription asks for exactly the given address, shows
/// loading and clears the error, and changes nothing else.
pub proof fn lemma_start_add_fields(v: AppView, url: Seq<char>)
    ensures
        start_add(v, url).1 == (CommandView::AddFeed { url: url }),
        start_add(v, url).0 == (AppView { is_loading: true, error_msg: None, ..v }),
{
}

/// Law: Enter in the address prompt subscribes to the address without its
/// surrounding white space, closing the prompt and showing loading; with a
/// blank address it does nothing.
pub proof fn lemma_prompt_enter_subscribes(v: AppView)
    requires
        v.active_panel == ActivePanel::Adding,
    ensures
        ({
            let (w, cmds) = key_step(v, press(KeyCode::Enter));
            let url = trim(v.input_url);
            &&& url.len() > 0 ==> {
                &&& cmds == seq![CommandView::AddFeed { url: url }]
                &&& w == (AppView { active_panel: ActivePanel::Feeds, is_loading: true, error_msg: None, ..v })
            }
            &&& url.len() == 0 ==> w == v && cmds.len() == 0
        }),
{
}

} // verus!
