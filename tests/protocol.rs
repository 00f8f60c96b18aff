use smtp_mock::commands::{Action, CommandTable};
use smtp_mock::responses::text_for;
use smtp_mock::session::{Effect, Mode, Session};
use smtp_mock::text::same_text;

fn feed(session: &mut Session, table: &CommandTable, line: &str) -> Effect {
    session.handle_line(table, line)
}

#[test]
fn catalog_holds_exact_reply_lines() {
    assert_eq!(text_for(211), Some("211 System status, or system help reply\r\n"));
    assert_eq!(text_for(220), Some("220 Service ready\r\n"));
    assert_eq!(text_for(221), Some("221 Service closing transmission channel\r\n"));
    assert_eq!(text_for(250), Some("250 Requested mail action okay, completed\r\n"));
    assert_eq!(text_for(354), Some("354 Start mail input; end with <CRLF>.<CRLF>\r\n"));
    assert_eq!(text_for(500), Some("500 Syntax error, command unrecognized\r\n"));
    assert_eq!(text_for(502), Some("502 Command not implemented\r\n"));
}

#[test]
fn catalog_has_no_other_codes() {
    assert_eq!(text_for(0), None);
    assert_eq!(text_for(251), None);
    assert_eq!(text_for(503), None);
}

#[test]
fn standard_table_lookup_is_exact() {
    let table = CommandTable::standard();
    assert_eq!(table.len(), 9);
    let data = table.lookup("DATA").unwrap();
    assert_eq!(data.response, 354);
    assert_eq!(data.action, Action::StartBody);
    let mail = table.lookup("MAIL FROM:").unwrap();
    assert_eq!(mail.response, 250);
    assert_eq!(mail.action, Action::Keep);
    assert!(table.lookup("MAIL FROM: <a@b.c>").is_none());
    assert!(table.lookup("helo").is_none());
    assert!(table.lookup("").is_none());
}

#[test]
fn registered_verbs_get_their_codes() {
    let table = CommandTable::standard();
    let cases: [(&str, u16); 6] = [
        ("EHLO\r\n", 500),
        ("HELO\r\n", 250),
        ("MAIL FROM:\r\n", 250),
        ("RCPT TO:\r\n", 250),
        ("HELP\r\n", 502),
        ("NOOP\r\n", 250),
    ];
    for (line, code) in cases.iter() {
        let mut s = Session::new();
        assert_eq!(feed(&mut s, &table, line), Effect::Reply(*code));
        assert_eq!(s.mode(), Mode::Command);
    }
    let mut s = Session::new();
    assert_eq!(feed(&mut s, &table, "RSET\r\n"), Effect::Reply(250));
    assert_eq!(s.mode(), Mode::Command);
}

#[test]
fn unregistered_line_gets_500_and_session_continues() {
    let table = CommandTable::standard();
    let mut s = Session::new();
    assert_eq!(feed(&mut s, &table, "VRFY someone\r\n"), Effect::Reply(500));
    assert_eq!(s.mode(), Mode::Command);
    assert_eq!(feed(&mut s, &table, "NOOP\r\n"), Effect::Reply(250));
}

#[test]
fn surrounding_white_space_is_ignored_for_lookup() {
    let table = CommandTable::standard();
    let mut s = Session::new();
    assert_eq!(feed(&mut s, &table, "  NOOP \t\r\n"), Effect::Reply(250));
    assert_eq!(feed(&mut s, &table, "DATA\n"), Effect::Reply(354));
    assert_eq!(s.mode(), Mode::BodyCapture);
}

#[test]
fn data_then_dot_switches_modes() {
    let table = CommandTable::standard();
    let mut s = Session::new();
    assert_eq!(feed(&mut s, &table, "DATA\r\n"), Effect::Reply(354));
    assert_eq!(s.mode(), Mode::BodyCapture);
    assert_eq!(feed(&mut s, &table, ".\r\n"), Effect::Reply(250));
    assert_eq!(s.mode(), Mode::Command);
}

#[test]
fn body_lines_are_stored_in_order_verbatim() {
    let table = CommandTable::standard();
    let mut s = Session::new();
    let body = ["Subject: hi\r\n", "\r\n", "  indented line\r\n", "last\n"];
    let mut sink: Vec<String> = Vec::new();
    assert_eq!(feed(&mut s, &table, "DATA\r\n"), Effect::Reply(354));
    for line in body.iter() {
        if feed(&mut s, &table, line) == Effect::Store {
            sink.push(line.to_string());
        }
    }
    assert_eq!(feed(&mut s, &table, " . \r\n"), Effect::Reply(250));
    assert_eq!(sink.concat(), body.concat());
    assert_eq!(sink.len(), 4);
}

#[test]
fn quit_closes_and_later_lines_are_ignored() {
    let table = CommandTable::standard();
    let mut s = Session::new();
    assert_eq!(feed(&mut s, &table, "QUIT\r\n"), Effect::Close(221));
    assert_eq!(s.mode(), Mode::Terminated);
    assert_eq!(feed(&mut s, &table, "NOOP\r\n"), Effect::Ignore);
    assert_eq!(s.mode(), Mode::Terminated);
}

#[test]
fn rset_and_quit_in_body_are_content() {
    let table = CommandTable::standard();
    let mut s = Session::new();
    feed(&mut s, &table, "DATA\r\n");
    assert_eq!(feed(&mut s, &table, "RSET\r\n"), Effect::Store);
    assert_eq!(s.mode(), Mode::BodyCapture);
    assert_eq!(feed(&mut s, &table, "QUIT\r\n"), Effect::Store);
    assert_eq!(s.mode(), Mode::BodyCapture);
}

#[test]
fn end_of_stream_finishes_session() {
    let table = CommandTable::standard();
    let mut s = Session::new();
    feed(&mut s, &table, "DATA\r\n");
    assert_eq!(s.handle_end_of_stream(), Effect::Finish);
    assert_eq!(s.mode(), Mode::Terminated);
}

#[test]
fn helo_with_argument_is_not_found() {
    let table = CommandTable::standard();
    let mut s = Session::new();
    assert_eq!(feed(&mut s, &table, "HELO test\r\n"), Effect::Reply(500));
    assert_eq!(feed(&mut s, &table, "HELO\r\n"), Effect::Reply(250));
}

#[test]
fn full_session_transcript() {
    let table = CommandTable::standard();
    let mut s = Session::new();
    let script = ["EHLO\r\n", "MAIL FROM:\r\n", "RCPT TO:\r\n", "DATA\r\n", "hello\r\n", ".\r\n", "QUIT\r\n"];
    let mut got: Vec<Effect> = Vec::new();
    for line in script.iter() {
        got.push(feed(&mut s, &table, line));
    }
    assert_eq!(
        got,
        vec![
            Effect::Reply(500),
            Effect::Reply(250),
            Effect::Reply(250),
            Effect::Reply(354),
            Effect::Store,
            Effect::Reply(250),
            Effect::Close(221),
        ]
    );
}

#[test]
fn same_text_compares_characters() {
    assert!(same_text("DATA", "DATA"));
    assert!(!same_text("DATA", "DATA "));
    assert!(!same_text("data", "DATA"));
    assert!(same_text("", ""));
    assert!(same_text("é", "é"));
}
