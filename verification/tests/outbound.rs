use cleese::irc::connection::ConnectionEvent;
use cleese::irc::writer::IrcWriter;
use cleese::util::{join, join_strings, newline_split, space_split};

fn output_lines(w: &IrcWriter) -> Vec<String> {
    let mut r = Vec::new();
    for ev in w.queue.iter() {
        match ev {
            ConnectionEvent::Output(s) => r.push(s.clone()),
            _ => panic!("expected only outbound lines"),
        }
    }
    r
}

#[test]
fn say_splits_lines_and_drops_empty() {
    let mut w = IrcWriter::new();
    w.msg("target", "line1\nline2\n\n");
    let lines = output_lines(&w);
    assert_eq!(lines.len(), 2);
    assert_eq!(lines[0].as_str(), "PRIVMSG target :line1");
    assert_eq!(lines[1].as_str(), "PRIVMSG target :line2");
}

#[test]
fn output_splits_and_trims() {
    let mut w = IrcWriter::new();
    w.output("  A  \nB\n  \n");
    let lines = output_lines(&w);
    assert_eq!(lines.len(), 2);
    assert_eq!(lines[0].as_str(), "A");
    assert_eq!(lines[1].as_str(), "B");
}

#[test]
fn identify_emits_nick_then_user() {
    let mut w = IrcWriter::new();
    w.identify("bot", "a friendly bot");
    let lines = output_lines(&w);
    assert_eq!(lines.len(), 2);
    assert_eq!(lines[0].as_str(), "NICK bot");
    assert_eq!(lines[1].as_str(), "USER bot 8 * :a friendly bot");
}

#[test]
fn join_and_nick_lines() {
    let mut w = IrcWriter::new();
    w.join("#chan");
    w.nick("newname");
    let lines = output_lines(&w);
    assert_eq!(lines[0].as_str(), "JOIN #chan");
    assert_eq!(lines[1].as_str(), "NICK newname");
}

#[test]
fn quit_emits_line_then_terminate() {
    let mut w = IrcWriter::new();
    w.quit("bye");
    assert_eq!(w.queue.len(), 2);
    match &w.queue[0] {
        ConnectionEvent::Output(s) => assert_eq!(s.as_str(), "QUIT :bye"),
        _ => panic!("expected an outbound line"),
    }
    assert!(matches!(w.queue[1], ConnectionEvent::Quit));
}

#[test]
fn space_split_drops_empty_tokens() {
    let parts = space_split("  a  b c ");
    assert_eq!(parts, vec!["a", "b", "c"]);
}

#[test]
fn newline_split_trims_segments() {
    let parts = newline_split(" x \n\n y\n");
    assert_eq!(parts, vec!["x", "y"]);
}

#[test]
fn join_places_separator_between() {
    let parts = vec!["a", "b", "c"];
    assert_eq!(join(&parts, ", ").as_str(), "a, b, c");
    let owned = vec![String::from("x"), String::from("y")];
    assert_eq!(join_strings(&owned, " ").as_str(), "x y");
}
