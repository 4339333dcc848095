use starla::session::{
    filter_telnet_commands, initial_negotiation, local_login_banner, login_banner,
    ConnectionState, LineOutcome, TelnetSession,
};
use starla::telnet::{filter_telnet_bytes, TelnetCommand};

#[test]
fn telnet_commands_are_filtered_out() {
    let data = [255, 251, 1, b'a', 255, 255, b'b', 255, 250, 31, 0, 80, 255, 240, b'c', 255, 241, b'd'];
    assert_eq!(filter_telnet_bytes(&data), vec![b'a', 255, b'b', b'c', b'd']);
    assert_eq!(filter_telnet_commands(b"\xff\xfd\x01hello"), "hello");
    // A command cut off at the end of the chunk is dropped.
    assert_eq!(filter_telnet_commands(b"x\xff\xfb"), "x");
}

#[test]
fn negotiation_and_banner() {
    assert_eq!(initial_negotiation(), vec![255, 253, 1, 255, 253, 31, 255, 251, 1, 255, 251, 3]);
    assert_eq!(
        login_banner(1014036, "box"),
        "Atlas probe, see http://atlas.ripe.net/\r\n\r\nProbe 1014036 (box) login: "
    );
    let b = local_login_banner(7);
    assert!(b.starts_with("Atlas probe, see http://atlas.ripe.net/\r\n\r\nProbe 7 ("));
    assert!(b.ends_with(") login: "));
}

#[test]
fn lines_are_taken_one_at_a_time() {
    let mut s = TelnetSession::new();
    s.feed(b"C_TO_P_TEST_V1\r\nsec");
    assert_eq!(s.next_line().as_deref(), Some("C_TO_P_TEST_V1"));
    assert_eq!(s.next_line().as_deref(), Some(""));
    assert_eq!(s.next_line(), None);
    s.feed(b"ret\n");
    assert_eq!(s.next_line().as_deref(), Some("secret"));
}

#[test]
fn login_then_commands() {
    let mut s = TelnetSession::new();
    let sid = "secret".to_string();
    assert!(matches!(s.on_line("", Some(&sid)), LineOutcome::Nothing));
    match s.on_line("C_TO_P_TEST_V1", Some(&sid)) {
        LineOutcome::Reply(t) => assert_eq!(t, "\r\nPassword: "),
        other => panic!("{:?}", other),
    }
    assert_eq!(s.state(), ConnectionState::AwaitingPassword);
    match s.on_line("secret", Some(&sid)) {
        LineOutcome::Reply(t) => assert_eq!(t, "OK\r\n\r\n"),
        other => panic!("{:?}", other),
    }
    assert_eq!(s.state(), ConnectionState::Authenticated);
    match s.on_line("STATUS", Some(&sid)) {
        LineOutcome::Forward(t, TelnetCommand::Status) => assert_eq!(t, "OK\r\n\r\n"),
        other => panic!("{:?}", other),
    }
    match s.on_line("FROB", Some(&sid)) {
        LineOutcome::Forward(t, TelnetCommand::Unknown(c)) => {
            assert_eq!(t, "ERROR: Unknown command: FROB\r\n\r\n");
            assert_eq!(c, "FROB");
        }
        other => panic!("{:?}", other),
    }
}

#[test]
fn wrong_login_or_password_closes() {
    let mut s = TelnetSession::new();
    assert!(matches!(s.on_line("root", None), LineOutcome::Close));
    let mut s = TelnetSession::new();
    let _ = s.on_line("C_TO_P_TEST_V1", None);
    match s.on_line("guess", None) {
        LineOutcome::ReplyAndClose(t) => assert_eq!(t, "BAD_PASSWORD\r\n\r\n"),
        other => panic!("{:?}", other),
    }
    assert_eq!(s.state(), ConnectionState::AwaitingPassword);
    let sid = "secret".to_string();
    let mut s = TelnetSession::new();
    let _ = s.on_line("C_TO_P_TEST_V1", Some(&sid));
    assert!(matches!(s.on_line("Secret", Some(&sid)), LineOutcome::ReplyAndClose(_)));
}

#[test]
fn no_command_before_login() {
    let mut s = TelnetSession::new();
    assert!(matches!(s.on_line("STATUS", None), LineOutcome::Close));
}
