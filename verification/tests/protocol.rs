use twitch_overlay::ipc::{parse_request, reply_for, Command, Reply, Request, SOCKET_NAME};

#[test]
fn each_command_word_with_newline_is_recognized() {
    assert_eq!(parse_request("ping\n"), Request::Ping);
    assert_eq!(parse_request("toggle\n"), Request::Run(Command::Toggle));
    assert_eq!(parse_request("enable\n"), Request::Run(Command::Enable));
    assert_eq!(parse_request("disable\n"), Request::Run(Command::Disable));
    assert_eq!(parse_request("show\n"), Request::Run(Command::Show));
    assert_eq!(parse_request("hide\n"), Request::Run(Command::Hide));
    assert_eq!(parse_request("reload\n"), Request::Run(Command::Reload));
    assert_eq!(parse_request("quit\n"), Request::Run(Command::Quit));
}

#[test]
fn words_without_newline_are_recognized() {
    assert_eq!(parse_request("ping"), Request::Ping);
    assert_eq!(parse_request("quit"), Request::Run(Command::Quit));
}

#[test]
fn surrounding_white_space_is_ignored() {
    assert_eq!(parse_request("  toggle \r\n"), Request::Run(Command::Toggle));
    assert_eq!(parse_request("\t\tshow\t"), Request::Run(Command::Show));
    assert_eq!(parse_request("\u{a0}hide\u{3000}"), Request::Run(Command::Hide));
    assert_eq!(parse_request("\u{2003}reload\u{85}\n"), Request::Run(Command::Reload));
}

#[test]
fn other_lines_are_unknown() {
    assert_eq!(parse_request(""), Request::Unknown);
    assert_eq!(parse_request("\n"), Request::Unknown);
    assert_eq!(parse_request("   "), Request::Unknown);
    assert_eq!(parse_request("Toggle\n"), Request::Unknown);
    assert_eq!(parse_request("PING"), Request::Unknown);
    assert_eq!(parse_request("to ggle"), Request::Unknown);
    assert_eq!(parse_request("toggles"), Request::Unknown);
    assert_eq!(parse_request("pin"), Request::Unknown);
    assert_eq!(parse_request("show hide"), Request::Unknown);
    assert_eq!(parse_request("quit\u{200b}"), Request::Unknown);
    assert_eq!(parse_request("énable"), Request::Unknown);
}

#[test]
fn only_commands_are_forwarded() {
    assert_eq!(Request::Ping.command(), None);
    assert_eq!(Request::Unknown.command(), None);
    assert_eq!(Request::Run(Command::Hide).command(), Some(Command::Hide));
    assert_eq!(parse_request("enable\n").command(), Some(Command::Enable));
}

#[test]
fn replies_follow_delivery() {
    assert_eq!(reply_for(Request::Ping, false), Reply::Pong);
    assert_eq!(reply_for(Request::Ping, true), Reply::Pong);
    assert_eq!(reply_for(Request::Run(Command::Toggle), true), Reply::Accepted);
    assert_eq!(reply_for(Request::Run(Command::Toggle), false), Reply::Failed);
    assert_eq!(reply_for(Request::Run(Command::Quit), true), Reply::Accepted);
    assert_eq!(reply_for(Request::Unknown, true), Reply::Unknown);
    assert_eq!(reply_for(Request::Unknown, false), Reply::Unknown);
}

#[test]
fn reply_texts_are_newline_terminated_lines() {
    assert_eq!(Reply::Pong.text(), "pong\n");
    assert_eq!(Reply::Accepted.text(), "ok\n");
    assert_eq!(Reply::Failed.text(), "error\n");
    assert_eq!(Reply::Unknown.text(), "unknown\n");
}

#[test]
fn ping_round_trip_answers_pong() {
    let request = parse_request("ping\n");
    let reply = reply_for(request, false);
    assert_eq!(reply.text().trim(), "pong");
}

#[test]
fn socket_name_matches_readme() {
    assert_eq!(SOCKET_NAME, "twitch-overlay.sock");
}
