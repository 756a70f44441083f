//! The connection/event engine: wire parsing, command extraction, outbound
//! formatting, the reader retry policy, and the callback/plugin dispatcher.

pub mod command;
pub mod config;
pub mod connection;
pub mod data;
pub mod info;
pub mod irc;
pub mod msg;
pub mod plugin;
pub mod privmsg;
pub mod writer;
