use edgetunnel::address::HostKind;
use edgetunnel::handshake::{
    parse_handshake, parse_shadowsocks, parse_trojan, parse_vless, to_lower_hex, trojan_digest,
    Command, HandshakeError, Protocol,
};

const CRED: [u8; 16] = [7u8; 16];

fn digest() -> Vec<u8> {
    b"0123456789abcdef0123456789abcdef0123456789abcdef01234567".to_vec()
}

fn vless(cred: &[u8; 16], options: &[u8], command: u8) -> Vec<u8> {
    let mut b = vec![0u8];
    b.extend_from_slice(cred);
    b.push(options.len() as u8);
    b.extend_from_slice(options);
    b.push(command);
    b.extend_from_slice(&[1, 1, 2, 3, 4, 0x01, 0xbb]);
    b
}

#[test]
fn vless_header_gives_target_and_payload_offset() {
    let mut b = vless(&CRED, &[9, 9, 9], 1);
    let header_len = b.len();
    b.extend_from_slice(b"GET /");
    let h = parse_vless(&b, &CRED).unwrap();
    assert_eq!(h.protocol, Protocol::Vless);
    assert_eq!(h.version, 0);
    assert_eq!(h.command, Command::Connect);
    assert_eq!(h.target.kind, HostKind::Ipv4);
    assert_eq!(h.target.host, vec![1, 2, 3, 4]);
    assert_eq!(h.target.port, 443);
    assert_eq!(h.payload_offset, header_len);
    assert_eq!(&b[h.payload_offset..], b"GET /");
    assert_eq!(h.credential, CRED.to_vec());
}

#[test]
fn vless_udp_command_is_associate() {
    let b = vless(&CRED, &[], 2);
    let h = parse_handshake(&b, &CRED, &digest()).unwrap();
    assert_eq!(h.command, Command::Associate);
    assert_eq!(h.payload_offset, b.len());
}

#[test]
fn vless_wrong_credential_is_rejected() {
    let b = vless(&[8u8; 16], &[], 1);
    assert_eq!(parse_vless(&b, &CRED).unwrap_err(), HandshakeError::Authentication);
    assert_eq!(parse_handshake(&b, &CRED, &digest()).unwrap_err(), HandshakeError::Authentication);
}

#[test]
fn vless_wrong_credential_is_rejected_even_when_truncated_after_it() {
    let mut b = vec![0u8];
    b.extend_from_slice(&[8u8; 16]);
    b.push(0);
    assert_eq!(parse_vless(&b, &CRED).unwrap_err(), HandshakeError::Authentication);
}

#[test]
fn vless_unknown_command_is_unsupported() {
    let b = vless(&CRED, &[], 3);
    assert_eq!(parse_vless(&b, &CRED).unwrap_err(), HandshakeError::UnsupportedVariant);
}

#[test]
fn vless_truncated_is_malformed() {
    let b = vless(&CRED, &[], 1);
    assert_eq!(parse_vless(&b[..10], &CRED).unwrap_err(), HandshakeError::MalformedHeader);
    assert_eq!(parse_vless(&b[..b.len() - 1], &CRED).unwrap_err(), HandshakeError::MalformedHeader);
    let mut long_opts = vless(&CRED, &[], 1);
    long_opts[17] = 200;
    assert_eq!(parse_vless(&long_opts, &CRED).unwrap_err(), HandshakeError::MalformedHeader);
}

fn trojan(d: &[u8], command: u8) -> Vec<u8> {
    let mut b = d.to_vec();
    b.extend_from_slice(b"\r\n");
    b.push(command);
    b.extend_from_slice(&[2, 3, b'a', b'.', b'b', 0, 80]);
    b.extend_from_slice(b"\r\n");
    b
}

#[test]
fn trojan_header_is_parsed() {
    let mut b = trojan(&digest(), 1);
    b.extend_from_slice(b"hello");
    let h = parse_handshake(&b, &CRED, &digest()).unwrap();
    assert_eq!(h.protocol, Protocol::Trojan);
    assert_eq!(h.target.kind, HostKind::Domain);
    assert_eq!(h.target.host, b"a.b".to_vec());
    assert_eq!(h.target.port, 80);
    assert_eq!(&b[h.payload_offset..], b"hello");
}

#[test]
fn trojan_wrong_digest_is_rejected() {
    let mut other = digest();
    other[0] = b'f';
    let b = trojan(&other, 1);
    assert_eq!(parse_trojan(&b, &digest()).unwrap_err(), HandshakeError::Authentication);
    assert_eq!(parse_handshake(&b, &CRED, &digest()).unwrap_err(), HandshakeError::Authentication);
}

#[test]
fn trojan_other_command_is_unsupported() {
    let b = trojan(&digest(), 3);
    assert_eq!(parse_trojan(&b, &digest()).unwrap_err(), HandshakeError::UnsupportedVariant);
}

#[test]
fn trojan_missing_terminator_is_malformed() {
    let mut b = trojan(&digest(), 1);
    let n = b.len();
    b[n - 1] = b'x';
    assert_eq!(parse_trojan(&b, &digest()).unwrap_err(), HandshakeError::MalformedHeader);
}

#[test]
fn shadowsocks_plaintext_is_an_address_then_payload() {
    let b = [1u8, 8, 8, 8, 8, 0, 53, 0xaa];
    let h = parse_shadowsocks(&b).unwrap();
    assert_eq!(h.protocol, Protocol::Shadowsocks);
    assert_eq!(h.target.host, vec![8, 8, 8, 8]);
    assert_eq!(h.target.port, 53);
    assert_eq!(h.payload_offset, 7);
    assert_eq!(parse_shadowsocks(&[9u8]).unwrap_err(), HandshakeError::MalformedHeader);
}

#[test]
fn other_bytes_are_read_as_shadowsocks() {
    let b = [1u8, 1, 2, 3, 4, 0, 80, 9];
    let h = parse_handshake(&b, &CRED, &digest()).unwrap();
    assert_eq!(h.protocol, Protocol::Shadowsocks);
    assert_eq!(h.target.host, vec![1, 2, 3, 4]);
    assert_eq!(h.target.port, 80);
    assert_eq!(&b[h.payload_offset..], &[9u8]);
    assert_eq!(parse_handshake(b"hello", &CRED, &digest()).unwrap_err(), HandshakeError::MalformedHeader);
    assert_eq!(parse_handshake(&[], &CRED, &digest()).unwrap_err(), HandshakeError::MalformedHeader);
}

#[test]
fn lower_hex_has_two_digits_per_byte() {
    assert_eq!(to_lower_hex(&[0x00, 0x0f, 0xa0, 0xff]), b"000fa0ff".to_vec());
    assert!(to_lower_hex(&[]).is_empty());
}

#[test]
fn trojan_digest_is_hex_sha224() {
    assert_eq!(trojan_digest("abc"), b"23097d223405d8228642a477bda255b32aadbce4bda0b3f7e36c9da7".to_vec());
    assert_eq!(trojan_digest("11111111-2222-3333-4444-555555555555"), b"f253d7774168f342c4db0ae185524461fb88d0e23b0c608e3c0f8f38".to_vec());
}

#[test]
fn trojan_header_with_password_digest_is_accepted() {
    let d = trojan_digest("11111111-2222-3333-4444-555555555555");
    let b = trojan(&d, 1);
    let h = parse_handshake(&b, &CRED, &d).unwrap();
    assert_eq!(h.protocol, Protocol::Trojan);
    assert_eq!(h.payload_offset, b.len());
}
