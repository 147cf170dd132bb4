//! Text-expansion engine: snippets that expand abbreviations typed anywhere,
//! the keystroke buffer that recognises them, dynamic variables in
//! expansions, usage statistics and settings.
pub mod text;
pub mod model;
pub mod system;
pub mod hook;
pub mod commands;
pub mod expansion;
pub mod laws;
