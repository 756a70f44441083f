use cleese::irc::command::{Command, IrcCommand};
use cleese::irc::msg::IrcMsg;
use cleese::irc::privmsg::IrcPrivMsg;

#[test]
fn generic_parse_full_line() {
    let m = IrcMsg::new(":nick!host PRIVMSG #chan :hello world").unwrap();
    assert_eq!(m.orig.as_str(), ":nick!host PRIVMSG #chan :hello world");
    assert_eq!(m.prefix.as_str(), ":nick!host");
    assert_eq!(m.code.as_str(), "PRIVMSG");
    assert_eq!(m.param.as_str(), "#chan :hello world");
}

#[test]
fn generic_parse_without_prefix() {
    let m = IrcMsg::new("PING :irc.example.net").unwrap();
    assert_eq!(m.prefix.as_str(), "");
    assert_eq!(m.code.as_str(), "PING");
    assert_eq!(m.param.as_str(), ":irc.example.net");
}

#[test]
fn generic_parse_keeps_internal_whitespace() {
    let m = IrcMsg::new(":a 001 x  y   z").unwrap();
    assert_eq!(m.code.as_str(), "001");
    assert_eq!(m.param.as_str(), "x  y   z");
}

#[test]
fn generic_parse_strips_trailing_carriage_return() {
    let m = IrcMsg::new(":a 001 hello\r").unwrap();
    assert_eq!(m.param.as_str(), "hello");
}

#[test]
fn generic_parse_rejects_malformed() {
    assert!(IrcMsg::new("").is_none());
    assert!(IrcMsg::new("PING").is_none());
    assert!(IrcMsg::new(":justaprefix").is_none());
    assert!(IrcMsg::new("   ").is_none());
}

#[test]
fn sender_parse() {
    let m = IrcMsg::new(":nick!user@host PRIVMSG #chan :hi").unwrap();
    let (nick, info) = m.match_sender().unwrap();
    assert_eq!(nick.as_str(), "nick");
    assert_eq!(info.as_str(), "user@host");
}

#[test]
fn sender_parse_without_host_info() {
    let m = IrcMsg::new(":server.example.net 001 welcome").unwrap();
    let (nick, info) = m.match_sender().unwrap();
    assert_eq!(nick.as_str(), "server.example.net");
    assert_eq!(info.as_str(), "");
}

#[test]
fn sender_parse_empty_prefix() {
    let m = IrcMsg::new("PING :x").unwrap();
    assert!(m.match_sender().is_none());
}

#[test]
fn message_parse_channel_and_text() {
    let m = IrcMsg::new(":n!h PRIVMSG #chan :some text here").unwrap();
    let (chan, txt) = m.match_message().unwrap();
    assert_eq!(chan.as_str(), "#chan");
    assert_eq!(txt.as_str(), "some text here");
}

#[test]
fn message_parse_rejects_private_target() {
    // a PRIVMSG to the bot itself, not to a channel, is not chat
    let m = IrcMsg::new(":n!h PRIVMSG cleese :help").unwrap();
    assert!(m.match_message().is_none());
}

#[test]
fn chat_conversion_needs_privmsg_code() {
    let m = IrcMsg::new(":n!h NOTICE #chan :hi").unwrap();
    assert!(IrcPrivMsg::new(&m).is_none());
}

#[test]
fn extract_command_with_sigil() {
    let c = Command::new(".cmd a b", ".").unwrap();
    assert_eq!(c.name.as_str(), "cmd");
    assert_eq!(c.args.len(), 2);
    assert_eq!(c.args[0].as_str(), "a");
    assert_eq!(c.args[1].as_str(), "b");
}

#[test]
fn extract_command_missing_sigil() {
    assert!(Command::new("cmd a b", ".").is_none());
}

#[test]
fn extract_command_bare_sigil() {
    assert!(Command::new(".", ".").is_none());
}

#[test]
fn extract_command_trims_text() {
    let c = Command::new("   .up  now  ", ".").unwrap();
    assert_eq!(c.name.as_str(), "up");
    assert_eq!(c.args.len(), 1);
    assert_eq!(c.args[0].as_str(), "now");
}

#[test]
fn end_to_end_uptime_command() {
    let m = IrcMsg::new(":nick!host PRIVMSG #chan :.uptime").unwrap();
    let pm = IrcPrivMsg::new(&m).unwrap();
    assert_eq!(pm.sender_nick.as_str(), "nick");
    assert_eq!(pm.sender_info.as_str(), "host");
    assert_eq!(pm.channel.as_str(), "#chan");
    assert_eq!(pm.txt.as_str(), ".uptime");
    let cmd = IrcCommand::new(&pm, ".").unwrap();
    assert_eq!(cmd.name.as_str(), "uptime");
    assert_eq!(cmd.args.len(), 0);
    assert_eq!(cmd.channel.as_str(), "#chan");
}
