use magia_baiser::session::{AuthDecision, Session, SessionError};
use magia_baiser::MAX_OPEN_CHANNELS;

fn expected_shell_taunt(user: &[u8], password: &[u8]) -> Vec<u8> {
    let mut v = Vec::new();
    v.extend_from_slice(b"baka mahou syouzyo `");
    v.extend_from_slice(user);
    v.extend_from_slice(b"` ~ I got your secret~ `");
    v.extend_from_slice(password);
    v.extend_from_slice(b"`");
    v
}

fn expected_exec_taunt(user: &[u8], password: &[u8], command: &[u8]) -> Vec<u8> {
    let mut v = Vec::new();
    v.extend_from_slice(b"baka mahou syouzyo `");
    v.extend_from_slice(user);
    v.extend_from_slice(b"` ~ I got your secret~ `");
    v.extend_from_slice(password);
    v.extend_from_slice(b"`, want to do this `");
    v.extend_from_slice(command);
    v.extend_from_slice(b"`~?");
    v
}

#[test]
fn password_auth_always_accepted() {
    let mut s = Session::new(false);
    assert_eq!(s.on_auth_password(b"root", b"toor"), AuthDecision::Accept);
    assert_eq!(s.on_auth_password(b"admin", b"hunter2"), AuthDecision::Accept);
}

#[test]
fn publickey_auth_always_rejected() {
    let s = Session::new(false);
    assert_eq!(s.on_auth_publickey(), AuthDecision::Reject);
}

#[test]
fn first_credentials_are_kept() {
    let mut s = Session::new(false);
    s.on_auth_password(b"first", b"pw1");
    s.on_auth_password(b"second", b"pw2");
    s.on_channel_open(7).unwrap();
    let taunt = s.on_shell_request(7).unwrap().unwrap();
    assert_eq!(taunt, expected_shell_taunt(b"first", b"pw1"));
}

#[test]
fn channel_cap_disconnects_seventeenth_open() {
    let mut s = Session::new(false);
    s.on_auth_password(b"u", b"p");
    for id in 0..MAX_OPEN_CHANNELS as u64 {
        assert_eq!(s.on_channel_open(id), Ok(()));
    }
    assert_eq!(
        s.on_channel_open(MAX_OPEN_CHANNELS as u64),
        Err(SessionError::Disconnect)
    );
}

#[test]
fn shell_before_auth_is_protocol_violation() {
    let mut s = Session::new(false);
    s.on_channel_open(1).unwrap();
    assert_eq!(s.on_shell_request(1), Err(SessionError::ProtocolViolation));
}

#[test]
fn exec_before_auth_is_protocol_violation() {
    let mut s = Session::new(false);
    s.on_channel_open(1).unwrap();
    assert_eq!(
        s.on_exec_request(1, b"ls -la"),
        Err(SessionError::ProtocolViolation)
    );
}

#[test]
fn exec_response_echoes_command_bytes() {
    let mut s = Session::new(false);
    s.on_auth_password(b"u", b"p");
    s.on_channel_open(3).unwrap();
    let command = b"cat /etc/passwd";
    let taunt = s.on_exec_request(3, command).unwrap().unwrap();
    assert_eq!(taunt, expected_exec_taunt(b"u", b"p", command));
}

#[test]
fn exec_response_preserves_invalid_utf8() {
    let mut s = Session::new(true);
    s.on_auth_password(b"u", b"p");
    s.on_channel_open(3).unwrap();
    let command: &[u8] = &[0xff, 0xfe, 0x00, 0x80, b'x'];
    let taunt = s.on_exec_request(3, command).unwrap().unwrap();
    assert_eq!(taunt, expected_exec_taunt(b"u", b"p", command));
    let echoed = &taunt[taunt.len() - 3 - command.len()..taunt.len() - 3];
    assert_eq!(echoed, command);
}

#[test]
fn consumed_channel_is_not_addressable_again() {
    let mut s = Session::new(false);
    s.on_auth_password(b"u", b"p");
    s.on_channel_open(5).unwrap();
    assert!(s.on_shell_request(5).unwrap().is_some());
    assert_eq!(s.on_shell_request(5), Ok(None));
    assert_eq!(s.on_exec_request(5, b"whoami"), Ok(None));
}

#[test]
fn unknown_channel_request_is_noop() {
    let mut s = Session::new(false);
    s.on_auth_password(b"u", b"p");
    assert_eq!(s.on_shell_request(42), Ok(None));
}

#[test]
fn consuming_a_channel_frees_a_slot() {
    let mut s = Session::new(false);
    s.on_auth_password(b"u", b"p");
    for id in 0..MAX_OPEN_CHANNELS as u64 {
        assert_eq!(s.on_channel_open(id), Ok(()));
    }
    assert!(s.on_shell_request(0).unwrap().is_some());
    assert_eq!(s.on_channel_open(100), Ok(()));
}

#[test]
fn debug_flag_is_inherited() {
    assert!(Session::new(true).debug_enabled());
    assert!(!Session::new(false).debug_enabled());
}

#[test]
fn banner_text() {
    assert_eq!(
        magia_baiser::auth_banner(),
        "oh~~~? mahou syouzyo? let me torture you~~~\n"
    );
}
