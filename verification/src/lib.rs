//! Verified core of a terminal RSS/Atom reader: feed list handling, the
//! reader's state machine, HTML-to-text cleaning and screen contents.

pub mod feed;
pub mod feed_guard;
pub mod html;
pub mod layout;
pub mod screen;
pub mod state;
pub mod state_laws;
pub mod text;
