# rss-tui

A terminal RSS/Atom reader whose core is verified with Verus.

- `src/` — the verified library:
  - `feed.rs`: subscriptions, the built-in feed list, and turning a parsed
    feed document (feed-rs) into a title and a list of articles;
  - `feed_guard.rs`: which documents are handed to feed-rs;
  - `html.rs`: the plain-text rendering of an article body, with its laws;
  - `text.rs`: Unicode white space, trimming, `&str`/`String` ↔ characters;
  - `state.rs`: the reader's state machine (keys and fetch results in,
    next state and commands out) and its invariant;
  - `state_laws.rs`: laws over several steps of the state machine;
  - `screen.rs`: the texts the screen shows for a state;
  - `layout.rs`: the centred box of the address prompt (ratatui layout).
- `app/main.rs` — the terminal front end: terminal setup, event loop,
  background downloads (reqwest), the stored feed list (serde_json), opening
  links, drawing with ratatui.
- `tests/` — tests of the library.

Feed documents on which feed-rs would panic are refused before parsing.
feed-rs's time parser, reached from an iTunes `duration` element and from
Media RSS `start`/`end`/`time` attributes, unwraps number parses and
multiplies and adds the parts, so it panics on decimal digits outside ASCII,
on numbers too large for `u64` and on overflowing hours or sums.
`feed_guard.rs` states which documents are handed to the parser (a JSON
feed, or XML read as UTF-8, windows-1252 or ISO-8859-15 that binds neither
namespace or holds no such digits and no run of 16 ASCII digits in a text or
attribute value), and `parse_feed` answers any other document with an
error.
