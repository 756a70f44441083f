use cleese::irc::config::IrcConfig;
use cleese::irc::connection::ConnectionEvent;
use cleese::irc::data::Callback;
use cleese::irc::irc::Irc;
use cleese::irc::writer::IrcWriter;
use cleese::plugins::describe::Describe;
use cleese::plugins::excuse::Excuse;
use cleese::plugins::officers::Officers;
use cleese::plugins::register;
use cleese::plugins::PluginEntry;

fn test_config() -> IrcConfig {
    IrcConfig {
        host: String::from("irc.example.net"),
        port: 6667,
        nick: String::from("cleese"),
        descr: String::from("Your friendly IRC bot"),
        channels: vec![String::from("#one"), String::from("#two")],
        in_blacklist: vec![String::from("372")],
        out_blacklist: vec![String::from("^SECRET")],
        cmd_prefix: String::from("."),
    }
}

fn output_lines(w: &IrcWriter) -> Vec<String> {
    let mut r = Vec::new();
    for ev in w.queue.iter() {
        if let ConnectionEvent::Output(s) = ev {
            r.push(s.clone());
        }
    }
    r
}

#[test]
fn ping_gets_a_pong() {
    let mut irc = Irc::new(test_config());
    let mut w = irc.writer();
    let out = irc.handle_event(
        ConnectionEvent::Received(String::from("PING :irc.example.net")),
        &mut w,
    );
    assert!(!out.stop);
    assert!(out.transmit.is_none());
    assert_eq!(out.echo.unwrap().as_str(), "< PING :irc.example.net");
    let lines = output_lines(&w);
    assert_eq!(lines, vec![String::from("PONG :irc.example.net")]);
}

#[test]
fn welcome_complete_joins_all_channels() {
    let mut irc = Irc::new(test_config());
    let mut w = irc.writer();
    irc.handle_event(
        ConnectionEvent::Received(String::from(":server 004 cleese done")),
        &mut w,
    );
    let lines = output_lines(&w);
    assert_eq!(lines, vec![String::from("JOIN #one"), String::from("JOIN #two")]);
}

#[test]
fn suppressed_code_is_not_echoed_but_still_dispatched() {
    let mut irc = Irc::new(test_config());
    irc.register_code_cb("372", Callback::Note(String::from("NOTED")));
    let mut w = irc.writer();
    let out = irc.handle_event(
        ConnectionEvent::Received(String::from(":server 372 motd line")),
        &mut w,
    );
    assert!(out.echo.is_none());
    assert_eq!(output_lines(&w), vec![String::from("NOTED")]);
}

#[test]
fn unparseable_line_echoes_diagnostic() {
    let mut irc = Irc::new(test_config());
    let mut w = irc.writer();
    let out = irc.handle_event(ConnectionEvent::Received(String::from("JUNK")), &mut w);
    assert_eq!(out.echo.unwrap().as_str(), "<! JUNK");
    assert!(w.queue.is_empty());
}

#[test]
fn outbound_line_is_transmitted_and_echoed() {
    let mut irc = Irc::new(test_config());
    let mut w = irc.writer();
    let out = irc.handle_event(ConnectionEvent::Output(String::from("NICK cleese")), &mut w);
    assert_eq!(out.transmit.unwrap().as_str(), "NICK cleese");
    assert_eq!(out.echo.unwrap().as_str(), "> NICK cleese");
    assert!(!out.stop);
}

#[test]
fn suppressed_outbound_line_is_transmitted_without_echo() {
    let mut irc = Irc::new(test_config());
    let mut w = irc.writer();
    let out = irc.handle_event(
        ConnectionEvent::Output(String::from("SECRET-REDACTED")),
        &mut w,
    );
    assert_eq!(out.transmit.unwrap().as_str(), "SECRET-REDACTED");
    assert!(out.echo.is_none());
}

#[test]
fn terminate_stops_the_loop() {
    let mut irc = Irc::new(test_config());
    let mut w = irc.writer();
    let out = irc.handle_event(ConnectionEvent::Quit, &mut w);
    assert!(out.stop);
    assert!(out.transmit.is_none());
    assert!(out.echo.is_none());
}

#[test]
fn first_accepting_plugin_wins() {
    let mut irc = Irc::new(test_config());
    irc.register_plugin(PluginEntry::Describe(Describe::new()));
    irc.register_plugin(PluginEntry::Default(cleese::plugins::default::Default::new()));
    let mut w = irc.writer();
    irc.handle_event(
        ConnectionEvent::Received(String::from(":n!h PRIVMSG #chan :.describe")),
        &mut w,
    );
    let lines = output_lines(&w);
    // the describe plugin claimed the command; the fallback never ran
    assert_eq!(lines, vec![String::from("PRIVMSG #chan :Your friendly IRC bot")]);
}

#[test]
fn passed_falls_through_to_next_plugin() {
    let mut irc = Irc::new(test_config());
    irc.register_plugin(PluginEntry::Describe(Describe::new()));
    irc.register_plugin(PluginEntry::Default(cleese::plugins::default::Default::new()));
    let mut w = irc.writer();
    irc.handle_event(
        ConnectionEvent::Received(String::from(":n!h PRIVMSG #chan :.unknown")),
        &mut w,
    );
    let lines = output_lines(&w);
    assert_eq!(
        lines,
        vec![String::from(
            "PRIVMSG #chan :Type `/msg cleese help` to see my list of commands."
        )]
    );
}

#[test]
fn cmds_lists_registered_callback_keys_only() {
    let mut irc = Irc::new(test_config());
    irc.register_cmd_cb("alpha", Callback::Reply(String::from("a")));
    irc.register_cmd_cb("beta", Callback::Reply(String::from("b")));
    // a plugin is registered, but its name must not appear in the listing
    irc.register_plugin(PluginEntry::Officers(Officers::new()));
    let mut w = irc.writer();
    irc.handle_event(
        ConnectionEvent::Received(String::from(":n!h PRIVMSG #chan :.cmds")),
        &mut w,
    );
    let lines = output_lines(&w);
    assert_eq!(lines[0].as_str(), "PRIVMSG #chan :alpha, beta");
}

#[test]
fn command_callbacks_run_for_their_key() {
    let mut irc = Irc::new(test_config());
    irc.register_cmd_cb("hello", Callback::Reply(String::from("hi there")));
    irc.register_cmd_cb("hello", Callback::Note(String::from("SEEN hello")));
    let mut w = irc.writer();
    irc.handle_event(
        ConnectionEvent::Received(String::from(":n!h PRIVMSG #chan :.hello")),
        &mut w,
    );
    let lines = output_lines(&w);
    assert_eq!(lines[0].as_str(), "PRIVMSG #chan :hi there");
    assert_eq!(lines[1].as_str(), "SEEN hello");
}

#[test]
fn help_request_lists_every_plugin() {
    let mut irc = Irc::new(test_config());
    register(&mut irc);
    let mut w = irc.writer();
    irc.handle_event(
        ConnectionEvent::Received(String::from(":asker!h PRIVMSG cleese :help")),
        &mut w,
    );
    let lines = output_lines(&w);
    assert_eq!(lines.len(), 5);
    assert_eq!(
        lines[0].as_str(),
        "PRIVMSG asker :`cleese describe`: Describe the IRC bot"
    );
    assert!(lines[1].as_str().starts_with("PRIVMSG asker :`cleese Uptime`:"));
    assert!(lines[4].as_str().starts_with("PRIVMSG asker :`cleese default`:"));
}

#[test]
fn officers_command_lists_each_officer() {
    let mut irc = Irc::new(test_config());
    register(&mut irc);
    let mut w = irc.writer();
    irc.handle_event(
        ConnectionEvent::Received(String::from(":n!h PRIVMSG #chan :.officers")),
        &mut w,
    );
    let lines = output_lines(&w);
    assert_eq!(lines.len(), 7);
    assert_eq!(
        lines[0].as_str(),
        "PRIVMSG #chan :(dallbee) Dylan Allbee, President. Computer Engineering"
    );
}

#[test]
fn excuse_command_answers_from_the_table() {
    let mut irc = Irc::new(test_config());
    register(&mut irc);
    let mut w = irc.writer();
    irc.handle_event(
        ConnectionEvent::Received(String::from(":n!h PRIVMSG #chan :.excuse")),
        &mut w,
    );
    let lines = output_lines(&w);
    assert_eq!(lines.len(), 1);
    let table = Excuse::new();
    let reply = lines[0].as_str();
    assert!(reply.starts_with("PRIVMSG #chan :"));
    let said = &reply["PRIVMSG #chan :".len()..];
    assert!(table.excuses.iter().any(|e| *e == said));
}

#[test]
fn excuse_helper_draws_from_the_table() {
    let table = Excuse::new();
    let one = table.excuse();
    assert!(table.excuses.iter().any(|e| *e == one.as_str()));
}

#[test]
fn uptime_command_reports_wakefulness() {
    let mut irc = Irc::new(test_config());
    register(&mut irc);
    let mut w = irc.writer();
    irc.handle_event(
        ConnectionEvent::Received(String::from(":n!h PRIVMSG #chan :.uptime")),
        &mut w,
    );
    let lines = output_lines(&w);
    assert_eq!(lines.len(), 1);
    assert!(lines[0].as_str().starts_with("PRIVMSG #chan :I've been awake "));
    assert!(lines[0].as_str().ends_with("second") || lines[0].as_str().ends_with("seconds"));
}
