//! A modal text-editing engine: a character buffer addressed by
//! (line, column) positions, cursor motion with clamping rules, pattern-driven
//! word motion, an ordered-rule tokenizer for highlighting, and the mode
//! state machine that maps keys onto these operations.

pub mod text;
pub mod position;
pub mod editor;
pub mod text_actions;
pub mod pattern;
pub mod cursor_actions;
pub mod syntax;
pub mod theme;
pub mod args;
