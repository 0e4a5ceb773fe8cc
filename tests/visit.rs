use gemini_client::client::{GeminiClient, TrustPolicy};
use gemini_client::error::ClientError;
use gemini_client::session::{Action, Event, Stage, Visit, CONNECT_TIMEOUT_SECS};

fn start(locator: &str) -> (Visit, Vec<u8>) {
    let req = GeminiClient::new().parse_request(locator.to_string()).unwrap();
    let line = req.request().into_bytes();
    (Visit::new(&req), line)
}

fn text(a: Action) -> String {
    match a {
        Action::Finish(t) => t,
        _ => panic!("expected a page"),
    }
}

fn fail(a: Action) -> ClientError {
    match a {
        Action::Fail(e) => e,
        _ => panic!("expected a failure"),
    }
}

fn written(a: Action) -> Vec<u8> {
    match a {
        Action::Write(b) => b,
        _ => panic!("expected a write"),
    }
}

fn to_receiving(v: &mut Visit, line: &[u8]) {
    assert!(matches!(v.step(Event::Connected), Action::Handshake));
    assert_eq!(written(v.step(Event::HandshakeDone)), line.to_vec());
    assert!(matches!(v.step(Event::Wrote(line.len())), Action::Read));
    assert_eq!(v.stage(), Stage::Receiving);
}

#[test]
fn silent_close_gives_empty_page() {
    let (mut v, line) = start("example.org/");
    to_receiving(&mut v, &line);
    assert_eq!(text(v.step(Event::Closed)), "");
    assert_eq!(v.stage(), Stage::Done);
}

#[test]
fn rejected_handshake_never_sends() {
    let (mut v, _) = start("example.org/");
    v.step(Event::Connected);
    assert_eq!(fail(v.step(Event::HandshakeFailed)), ClientError::Handshake);
    assert!(matches!(v.step(Event::HandshakeDone), Action::Idle));
    assert!(matches!(v.step(Event::Wrote(3)), Action::Idle));
    assert_eq!(v.stage(), Stage::Failed);
}

#[test]
fn connect_failure_is_reported() {
    let (mut v, _) = start("example.org/");
    assert_eq!(fail(v.step(Event::ConnectFailed)), ClientError::Connect);
    assert!(matches!(v.step(Event::Connected), Action::Idle));
    assert_eq!(CONNECT_TIMEOUT_SECS, 5);
}

#[test]
fn partial_writes_are_resumed() {
    let (mut v, line) = start("example.org/page");
    v.step(Event::Connected);
    assert_eq!(written(v.step(Event::HandshakeDone)), line);
    assert_eq!(written(v.step(Event::Wrote(5))), line[5..].to_vec());
    assert_eq!(v.stage(), Stage::Sending(5));
    assert!(matches!(v.step(Event::Wrote(line.len() - 5)), Action::Read));
}

#[test]
fn zero_or_excess_write_is_a_send_error() {
    let (mut v, line) = start("example.org/");
    v.step(Event::Connected);
    v.step(Event::HandshakeDone);
    assert_eq!(fail(v.step(Event::Wrote(0))), ClientError::Send);
    let (mut w, _) = start("example.org/");
    w.step(Event::Connected);
    w.step(Event::HandshakeDone);
    assert_eq!(fail(w.step(Event::Wrote(line.len() + 1))), ClientError::Send);
    let (mut x, _) = start("example.org/");
    x.step(Event::Connected);
    x.step(Event::HandshakeDone);
    assert_eq!(fail(x.step(Event::WriteFailed)), ClientError::Send);
}

#[test]
fn response_is_accumulated_and_decoded() {
    let (mut v, line) = start("example.org/");
    to_receiving(&mut v, &line);
    assert!(matches!(v.step(Event::Received(b"20 text/gemini\r\n".to_vec())), Action::Read));
    assert!(matches!(v.step(Event::Received(b"# Hi\n".to_vec())), Action::Read));
    assert_eq!(text(v.step(Event::Closed)), "20 text/gemini\r\n# Hi\n");
}

#[test]
fn invalid_utf8_is_replaced() {
    let (mut v, line) = start("example.org/");
    to_receiving(&mut v, &line);
    v.step(Event::Received(vec![b'o', b'k', 0xff]));
    assert_eq!(text(v.step(Event::Closed)), "ok\u{FFFD}");
}

#[test]
fn receive_error_discards_partial_response() {
    let (mut v, line) = start("example.org/");
    to_receiving(&mut v, &line);
    v.step(Event::Received(b"20 partial".to_vec()));
    assert_eq!(fail(v.step(Event::ReceiveFailed)), ClientError::Receive);
    assert!(matches!(v.step(Event::Closed), Action::Idle));
}

#[test]
fn same_bytes_give_same_page_however_cut() {
    let (mut a, line) = start("example.org/");
    to_receiving(&mut a, &line);
    a.step(Event::Received(b"20 text/gemini\r\nhello".to_vec()));
    let first = text(a.step(Event::Closed));
    let (mut b, _) = start("example.org/");
    to_receiving(&mut b, &line);
    b.step(Event::Received(b"20 text/".to_vec()));
    b.step(Event::Received(b"gemini\r\nhel".to_vec()));
    b.step(Event::Received(b"lo".to_vec()));
    assert_eq!(first, text(b.step(Event::Closed)));
}

#[test]
fn accept_any_accepts_every_chain() {
    assert!(TrustPolicy::AcceptAny.accepts(&vec![]));
    assert!(TrustPolicy::AcceptAny.accepts(&vec![vec![1, 2, 3]]));
}

#[test]
fn pinned_policy_accepts_only_its_certificate() {
    let p = TrustPolicy::Pinned(vec![1, 2, 3]);
    assert!(p.accepts(&vec![vec![1, 2, 3], vec![9]]));
    assert!(!p.accepts(&vec![vec![1, 2, 4]]));
    assert!(!p.accepts(&vec![vec![1, 2]]));
    assert!(!p.accepts(&vec![]));
}
