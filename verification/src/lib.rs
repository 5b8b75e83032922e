//! A fuzzy text-ranking engine for a window switcher.
//!
//! Given a short user-typed query and a set of candidate strings (window
//! titles), the engine classifies each candidate into one of a small number
//! of discrete match-quality tiers and produces a stably ordered, best-first
//! ranking.  Query compilation and candidate classification are separate
//! steps so that one compiled query can be reused over many candidates.
//!
//! The crate also holds the decision logic that surrounds the engine in the
//! enclosing application: hotkey bookkeeping, window tracking and cycling,
//! window-message dispatch, window-position arithmetic, message-word
//! extraction, and wide-string conversion.  The platform calls that carry
//! those decisions out stay with the caller.

pub mod finder;
pub mod hotkeys;
pub mod laws;
pub mod layout;
pub mod matchers;
pub mod messages;
pub mod query;
pub mod ranking;
pub mod text;
pub mod tier;
pub mod tracking;
pub mod winmsg;
pub mod wstr;

pub use finder::CompileError;
pub use finder::Finder;
pub use query::fuzzy_match;
pub use query::fuzzy_query;
pub use ranking::rank;
pub use ranking::rank_any_term;
pub use hotkeys::HotkeyAction;
pub use hotkeys::HotkeyManager;
pub use tier::FuzzyResult;
pub use winmsg::HIWORD;
pub use winmsg::LOWORD;
pub use winmsg::MAKEINTRESOURCEA;
pub use winmsg::MAKEINTRESOURCEW;
pub use wstr::ToCWStr;
