//! Verified core of a set of chat-bot plugins: message parsing, command
//! routing, moderation counters, conversation memory and shell bookkeeping.
pub mod text;
pub mod event;
pub mod duration;
pub mod bot_check;
pub mod dev_utils;
pub mod chat;
pub mod command;
pub mod emoji;
pub mod shell;
pub mod qq_tools;
pub mod laws;
