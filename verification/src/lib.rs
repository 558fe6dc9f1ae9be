//! A developer console for games: acts (commands), hotkeys, tab completion,
//! tape recording of acts, and a numerical universal argument.
//!
//! This crate holds the console's logic with its contracts; the engine glue
//! lives beside it.
pub mod acts;
pub mod autocomplete;
pub mod basic;
pub mod cache;
pub mod defaults;
pub mod chars;
pub mod event;
pub mod flags;
pub mod hotkey;
pub mod keys;
pub mod listing;
pub mod lookup;
pub mod plugin;
pub mod style;
pub mod prompt;
pub mod stack;
pub mod tape;
pub mod trie;
pub mod universal;
pub mod water;

pub use plugin::{Config, MinibufferPlugin, MinibufferPlugins, MinibufferSet};
pub use water::update_water_tooltip;
