//! A small IRC-style chat bot library: wire-format parsing, command
//! extraction, outbound line formatting, a bounded-retry reader policy,
//! and an ordered plugin/callback dispatcher, all with verified contracts.

pub mod irc;
pub mod plugins;
pub mod util;
