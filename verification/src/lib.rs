//! Record and replay of interactive shell sessions: the pending-line editor,
//! the rules that turn raw keystrokes into recorded commands, the fixed-width
//! session index and the listing format, each with a verified contract.

pub mod args;
pub mod char_buffer;
pub mod commands;
pub mod errors;
pub mod pattern;
pub mod prompt;
pub mod pty;
pub mod session;
pub mod text;
