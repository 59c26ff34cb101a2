//! A channel-watching chat bot core: an outbound notification gateway with a
//! global sliding-window throttle and per-subject cooldowns, a lazy greeting
//! rule-chain, a command tokenizer, and the watcher state machine that ties
//! them together.

pub mod command;
pub mod commands;
pub mod config;
pub mod messages;
pub mod greetings;
pub mod notifications;
pub mod text;
pub mod throttle;
pub mod watcher;
