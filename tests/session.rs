use edgetunnel::handshake::HandshakeError;
use edgetunnel::session::{Action, Endpoint, Event, SessionError, SessionState, TunnelSession};

const CRED: [u8; 16] = [3u8; 16];

fn digest() -> Vec<u8> {
    b"abcdefabcdefabcdefabcdefabcdefabcdefabcdefabcdefabcdefab".to_vec()
}

fn vless(cred: &[u8; 16], payload: &[u8]) -> Vec<u8> {
    let mut b = vec![0u8];
    b.extend_from_slice(cred);
    b.push(0);
    b.push(1);
    b.extend_from_slice(&[1, 10, 0, 0, 1, 0, 80]);
    b.extend_from_slice(payload);
    b
}

fn has_connect(actions: &[Action]) -> bool {
    actions.iter().any(|a| matches!(a, Action::Connect(_)))
}

#[test]
fn wrong_credential_never_connects() {
    let mut s = TunnelSession::new(CRED, digest(), None);
    let mut seen = Vec::new();
    seen.extend(s.step(Event::ClientData(vless(&[4u8; 16], b"x"))));
    seen.extend(s.step(Event::Connected));
    seen.extend(s.step(Event::ClientData(b"more".to_vec())));
    assert!(!has_connect(&seen));
    assert_eq!(s.state, SessionState::Closed);
    assert_eq!(s.error, Some(SessionError::Handshake(HandshakeError::Authentication)));
    assert_eq!(s.connects, 0);
    assert!(matches!(seen[0], Action::CloseBoth));
    assert_eq!(seen.len(), 1);
}

#[test]
fn vless_session_relays_bytes_unchanged() {
    let mut s = TunnelSession::new(CRED, digest(), None);
    let a = s.step(Event::ClientData(vless(&CRED, b"hello")));
    assert_eq!(a.len(), 1);
    match &a[0] {
        Action::Connect(Endpoint::Target(t)) => {
            assert_eq!(t.host, vec![10, 0, 0, 1]);
            assert_eq!(t.port, 80);
        }
        other => panic!("unexpected {:?}", other),
    }
    assert_eq!(s.state, SessionState::Connecting);
    let a = s.step(Event::Connected);
    assert_eq!(s.state, SessionState::Relaying);
    assert_eq!(a.len(), 2);
    assert!(matches!(&a[0], Action::WriteClient(d) if d == &vec![0u8, 0]));
    assert!(matches!(&a[1], Action::WriteUpstream(d) if d == b"hello"));
    let a = s.step(Event::ClientData(b"up".to_vec()));
    assert!(matches!(&a[..], [Action::WriteUpstream(d)] if d == b"up"));
    let a = s.step(Event::UpstreamData(b"down".to_vec()));
    assert!(matches!(&a[..], [Action::WriteClient(d)] if d == b"down"));
    assert_eq!(s.bytes_up, 7);
    assert_eq!(s.bytes_down, 4);
    assert_eq!(s.connects, 1);
}

#[test]
fn trojan_session_sends_no_ack() {
    let mut b = digest();
    b.extend_from_slice(b"\r\n\x01");
    b.extend_from_slice(&[1, 10, 0, 0, 2, 1, 0]);
    b.extend_from_slice(b"\r\n");
    let mut s = TunnelSession::new(CRED, digest(), None);
    let a = s.step(Event::ClientData(b));
    assert!(has_connect(&a));
    let a = s.step(Event::Connected);
    assert!(a.is_empty());
    assert_eq!(s.state, SessionState::Relaying);
}

#[test]
fn egress_override_is_the_destination() {
    let mut s = TunnelSession::new(CRED, digest(), Some(("1.2.3.4".to_string(), 443)));
    let a = s.step(Event::ClientData(vless(&CRED, b"")));
    assert!(matches!(&a[..], [Action::Connect(Endpoint::Egress(h, 443))] if h == "1.2.3.4"));
}

#[test]
fn client_close_while_relaying_closes_upstream() {
    let mut s = TunnelSession::new(CRED, digest(), None);
    s.step(Event::ClientData(vless(&CRED, b"")));
    s.step(Event::Connected);
    let a = s.step(Event::ClientClosed);
    assert!(matches!(&a[..], [Action::CloseBoth]));
    assert_eq!(s.state, SessionState::Closed);
    assert_eq!(s.error, None);
    assert!(s.step(Event::UpstreamData(b"late".to_vec())).is_empty());
}

#[test]
fn connect_failure_closes_with_error() {
    let mut s = TunnelSession::new(CRED, digest(), None);
    s.step(Event::ClientData(vless(&CRED, b"")));
    let a = s.step(Event::ConnectFailed);
    assert!(matches!(&a[..], [Action::CloseBoth]));
    assert_eq!(s.error, Some(SessionError::UpstreamConnect));
}

#[test]
fn data_while_connecting_is_sent_after_payload() {
    let mut s = TunnelSession::new(CRED, digest(), None);
    s.step(Event::ClientData(vless(&CRED, b"ab")));
    assert!(s.step(Event::ClientData(b"cd".to_vec())).is_empty());
    let a = s.step(Event::Connected);
    assert!(matches!(&a[1], Action::WriteUpstream(d) if d == b"abcd"));
}

#[test]
fn relay_error_closes_both() {
    let mut s = TunnelSession::new(CRED, digest(), None);
    s.step(Event::ClientData(vless(&CRED, b"")));
    s.step(Event::Connected);
    let a = s.step(Event::IoError);
    assert!(matches!(&a[..], [Action::CloseBoth]));
    assert_eq!(s.error, Some(SessionError::RelayIo));
}

#[test]
fn malformed_handshake_closes() {
    let mut s = TunnelSession::new(CRED, digest(), None);
    let a = s.step(Event::ClientData(b"junk".to_vec()));
    assert!(matches!(&a[..], [Action::CloseBoth]));
    assert_eq!(s.error, Some(SessionError::Handshake(HandshakeError::MalformedHeader)));
}

#[test]
fn shadowsocks_session_relays_bytes_unchanged() {
    let mut s = TunnelSession::new(CRED, digest(), None);
    let a = s.step(Event::ClientData(vec![1u8, 1, 2, 3, 4, 0, 80, 9]));
    match &a[..] {
        [Action::Connect(Endpoint::Target(t))] => {
            assert_eq!(t.host, vec![1, 2, 3, 4]);
            assert_eq!(t.port, 80);
        }
        other => panic!("unexpected {:?}", other),
    }
    let a = s.step(Event::Connected);
    assert!(matches!(&a[..], [Action::WriteUpstream(d)] if d == &vec![9u8]));
    let a = s.step(Event::ClientData(b"up".to_vec()));
    assert!(matches!(&a[..], [Action::WriteUpstream(d)] if d == b"up"));
    let a = s.step(Event::UpstreamData(b"down".to_vec()));
    assert!(matches!(&a[..], [Action::WriteClient(d)] if d == b"down"));
}

#[test]
fn header_cut_short_is_refused() {
    let mut s = TunnelSession::new(CRED, digest(), None);
    let b = vless(&CRED, b"");
    let a = s.step(Event::ClientData(b[..20].to_vec()));
    assert!(matches!(&a[..], [Action::CloseBoth]));
    assert_eq!(s.error, Some(SessionError::Handshake(HandshakeError::MalformedHeader)));
}
