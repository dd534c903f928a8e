//! The handshake formats a client may open a tunnel with, and the choice
//! between them.
use vstd::prelude::*;
use vstd::slice::slice_subrange;
use crate::address::{
    decode, decode_spec, encode_spec, address_wf, lemma_decode_encode, AddressModel, TargetAddress,
};

verus! {

/// The handshake format a client used.
#[derive(Clone, Copy, Debug, PartialEq, Eq, Structural)]
pub enum Protocol {
    Vless,
    Trojan,
    Shadowsocks,
}

/// What the client asks the gateway to do with the target.
#[derive(Clone, Copy, Debug, PartialEq, Eq, Structural)]
pub enum Command {
    Connect,
    Associate,
}

/// The ways a handshake is rejected.
#[derive(Clone, Copy, Debug, PartialEq, Eq, Structural)]
pub enum HandshakeError {
    Authentication,
    MalformedHeader,
    UnsupportedVariant,
}

/// An accepted handshake. The session payload starts at `payload_offset` in
/// the bytes it was parsed from.
#[derive(Debug)]
pub struct ClientHandshake {
    pub protocol: Protocol,
    pub version: u8,
    pub credential: Vec<u8>,
    pub command: Command,
    pub target: TargetAddress,
    pub payload_offset: usize,
}

/// The mathematical value of a [`ClientHandshake`].
pub struct HandshakeModel {
    pub protocol: Protocol,
    pub version: u8,
    pub credential: Seq<u8>,
    pub command: Command,
    pub target: AddressModel,
    pub payload_offset: nat,
}

impl View for ClientHandshake {
    type V = HandshakeModel;

    open spec fn view(&self) -> HandshakeModel {
        HandshakeModel {
            protocol: self.protocol,
            version: self.version,
            credential: self.credential@,
            command: self.command,
            target: self.target@,
            payload_offset: self.payload_offset as nat,
        }
    }
}

pub const VLESS_VERSION: u8 = 0;
pub const TROJAN_DIGEST_LEN: usize = 56;
pub const CR: u8 = 13;
pub const LF: u8 = 10;

pub open spec fn vless_command(c: u8) -> Option<Command> {
    if c == 1 {
        Some(Command::Connect)
    } else if c == 2 {
        Some(Command::Associate)
    } else {
        None
    }
}

/// What a VLess header parses to against the configured credential `cred`:
/// version, 16 credential bytes, an options length and the options, a
/// command byte, the address, then the payload.
pub open spec fn vless_spec(b: Seq<u8>, cred: Seq<u8>) -> Result<HandshakeModel, HandshakeError> {
    if b.len() < 17 {
        Err(HandshakeError::MalformedHeader)
    } else if b.subrange(1, 17) != cred {
        Err(HandshakeError::Authentication)
    } else if b.len() < 18 || b.len() <= 18 + b[17] as int {
        Err(HandshakeError::MalformedHeader)
    } else {
        let c = 18 + b[17] as int;
        match vless_command(b[c]) {
            None => Err(HandshakeError::UnsupportedVariant),
            Some(command) => match decode_spec(b.subrange(c + 1, b.len() as int)) {
                None => Err(HandshakeError::MalformedHeader),
                Some((target, n)) => Ok(
                    HandshakeModel {
                        protocol: Protocol::Vless,
                        version: b[0],
                        credential: cred,
                        command,
                        target,
                        payload_offset: (c + 1 + n) as nat,
                    },
                ),
            },
        }
    }
}

/// Whether `b[i]`, `b[i + 1]` is a line terminator.
pub open spec fn crlf_at(b: Seq<u8>, i: int) -> bool {
    i + 2 <= b.len() && b[i] == CR && b[i + 1] == LF
}

/// What a Trojan header parses to against the expected hex digest `digest`:
/// the 56 digest characters, a line terminator, a command byte (1, connect),
/// the address, a line terminator, then the payload.
pub open spec fn trojan_spec(b: Seq<u8>, digest: Seq<u8>) -> Result<
    HandshakeModel,
    HandshakeError,
> {
    if b.len() < 56 {
        Err(HandshakeError::MalformedHeader)
    } else if b.subrange(0, 56) != digest {
        Err(HandshakeError::Authentication)
    } else if !crlf_at(b, 56) || b.len() < 59 {
        Err(HandshakeError::MalformedHeader)
    } else if b[58] != 1 {
        Err(HandshakeError::UnsupportedVariant)
    } else {
        match decode_spec(b.subrange(59, b.len() as int)) {
            None => Err(HandshakeError::MalformedHeader),
            Some((target, n)) => if !crlf_at(b, 59 + n as int) {
                Err(HandshakeError::MalformedHeader)
            } else {
                Ok(
                    HandshakeModel {
                        protocol: Protocol::Trojan,
                        version: 0,
                        credential: digest,
                        command: Command::Connect,
                        target,
                        payload_offset: (59 + n + 2) as nat,
                    },
                )
            },
        }
    }
}

/// What a decrypted Shadowsocks stream prefix parses to: an address, then the
/// payload.
pub open spec fn shadowsocks_spec(b: Seq<u8>) -> Result<HandshakeModel, HandshakeError> {
    match decode_spec(b) {
        None => Err(HandshakeError::MalformedHeader),
        Some((target, n)) => Ok(
            HandshakeModel {
                protocol: Protocol::Shadowsocks,
                version: 0,
                credential: Seq::empty(),
                command: Command::Connect,
                target,
                payload_offset: n,
            },
        ),
    }
}

/// The SHA-224 digest of `b`.
pub uninterp spec fn sha224_of(b: Seq<u8>) -> Seq<u8>;

/// Relies on sha2::Sha224 through digest::Digest::digest: the 28-byte
/// SHA-224 digest of the bytes.
#[verifier::external_body]
fn sha224(b: &[u8]) -> (r: Vec<u8>)
    ensures
        r@ == sha224_of(b@),
        r@.len() == 28,
{
    <sha2::Sha224 as sha2::Digest>::digest(b).to_vec()
}

/// The ASCII lowercase hex digit of a value below 16.
pub open spec fn hex_digit(n: u8) -> u8 {
    if n < 10 {
        (48 + n) as u8
    } else {
        (87 + n) as u8
    }
}

/// The lowercase hex encoding of `b`: two digits per byte, high half first.
pub open spec fn lower_hex(b: Seq<u8>) -> Seq<u8> {
    Seq::new(
        2 * b.len(),
        |i: int| if i % 2 == 0 { hex_digit(b[i / 2] / 16) } else { hex_digit(b[i / 2] % 16) },
    )
}

fn hex_digit_of(n: u8) -> (r: u8)
    requires
        n < 16,
    ensures
        r == hex_digit(n),
{
    if n < 10 {
        48 + n
    } else {
        87 + n
    }
}

/// The lowercase hex encoding of the bytes.
pub fn to_lower_hex(b: &[u8]) -> (r: Vec<u8>)
    ensures
        r@ == lower_hex(b@),
{
    let mut r: Vec<u8> = Vec::new();
    let mut i: usize = 0;
    while i < b.len()
        invariant
            i <= b@.len(),
            r@.len() == 2 * i,
            forall|k: int| 0 <= k < 2 * i ==> r@[k] == lower_hex(b@)[k],
        decreases b@.len() - i,
    {
        r.push(hex_digit_of(b[i] / 16));
        r.push(hex_digit_of(b[i] % 16));
        i = i + 1;
    }
    assert(r@ =~= lower_hex(b@));
    r
}

/// The digest a Trojan client presents for `password`: the lowercase hex
/// SHA-224 digest of its UTF-8 bytes, 56 characters.
pub fn trojan_digest(password: &str) -> (r: Vec<u8>)
    ensures
        r@ == lower_hex(sha224_of(vstd::utf8::encode_utf8(password@))),
        r@.len() == TROJAN_DIGEST_LEN,
{
    let d = sha224(password.as_bytes());
    to_lower_hex(d.as_slice())
}

/// The cheap structural check that commits to VLess: a version byte of zero
/// and room for the credential and the options length.
pub open spec fn vless_shaped(b: Seq<u8>) -> bool {
    b.len() >= 18 && b[0] == VLESS_VERSION
}

/// The cheap structural check that commits to Trojan: a line terminator
/// right after the 56 digest characters.
pub open spec fn trojan_shaped(b: Seq<u8>) -> bool {
    crlf_at(b, 56)
}

/// The handshake as a whole: VLess is tried first, then Trojan, then the
/// decoded Shadowsocks prefix; the first variant whose structural check
/// passes decides, and Shadowsocks takes whatever fits neither of the others.
pub open spec fn handshake_spec(b: Seq<u8>, cred: Seq<u8>, digest: Seq<u8>) -> Result<
    HandshakeModel,
    HandshakeError,
> {
    if vless_shaped(b) {
        vless_spec(b, cred)
    } else if trojan_shaped(b) {
        trojan_spec(b, digest)
    } else {
        shadowsocks_spec(b)
    }
}

fn equal_at(b: &[u8], start: usize, expected: &[u8]) -> (r: bool)
    requires
        start + expected@.len() <= b@.len(),
    ensures
        r == (b@.subrange(start as int, start + expected@.len()) == expected@),
{
    let n = b.len();
    let mut i: usize = 0;
    while i < expected.len()
        invariant
            n == b@.len(),
            start + expected@.len() <= b@.len(),
            i <= expected@.len(),
            forall|k: int| 0 <= k < i ==> b@[start + k] == expected@[k],
        decreases expected@.len() - i,
    {
        if b[start + i] != expected[i] {
            assert(b@.subrange(start as int, start + expected@.len())[i as int] != expected@[i as int]);
            return false;
        }
        i = i + 1;
    }
    assert(b@.subrange(start as int, start + expected@.len()) =~= expected@);
    true
}

fn copy_bytes(b: &[u8]) -> (r: Vec<u8>)
    ensures
        r@ == b@,
{
    let mut r: Vec<u8> = Vec::with_capacity(b.len());
    let mut i: usize = 0;
    while i < b.len()
        invariant
            i <= b@.len(),
            r@ == b@.subrange(0, i as int),
        decreases b@.len() - i,
    {
        r.push(b[i]);
        i = i + 1;
        assert(r@ =~= b@.subrange(0, i as int));
    }
    assert(b@.subrange(0, b@.len() as int) =~= b@);
    r
}

/// Parses a VLess header. A credential that differs from `credential` is
/// rejected before anything after it is read.
pub fn parse_vless(b: &[u8], credential: &[u8; 16]) -> (r: Result<ClientHandshake, HandshakeError>)
    ensures
        match r {
            Ok(h) => vless_spec(b@, credential@) == Ok::<HandshakeModel, HandshakeError>(h@),
            Err(e) => vless_spec(b@, credential@) == Err::<HandshakeModel, HandshakeError>(e),
        },
{
    let len = b.len();
    if len < 17 {
        return Err(HandshakeError::MalformedHeader);
    }
    if !equal_at(b, 1, credential.as_slice()) {
        return Err(HandshakeError::Authentication);
    }
    if len < 18 {
        return Err(HandshakeError::MalformedHeader);
    }
    let c = 18 + b[17] as usize;
    if len <= c {
        return Err(HandshakeError::MalformedHeader);
    }
    let command = if b[c] == 1 {
        Command::Connect
    } else if b[c] == 2 {
        Command::Associate
    } else {
        return Err(HandshakeError::UnsupportedVariant);
    };
    let rest = slice_subrange(b, c + 1, len);
    match decode(rest) {
        Err(_) => Err(HandshakeError::MalformedHeader),
        Ok((target, n)) => Ok(
            ClientHandshake {
                protocol: Protocol::Vless,
                version: b[0],
                credential: copy_bytes(credential.as_slice()),
                command,
                target,
                payload_offset: c + 1 + n,
            },
        ),
    }
}

/// Parses a Trojan header against `digest_hex`, the lowercase hex digest of
/// the configured password. A digest that differs is rejected before
/// anything after it is read.
pub fn parse_trojan(b: &[u8], digest_hex: &[u8]) -> (r: Result<ClientHandshake, HandshakeError>)
    ensures
        match r {
            Ok(h) => trojan_spec(b@, digest_hex@) == Ok::<HandshakeModel, HandshakeError>(h@),
            Err(e) => trojan_spec(b@, digest_hex@) == Err::<HandshakeModel, HandshakeError>(e),
        },
{
    let len = b.len();
    if len < TROJAN_DIGEST_LEN {
        return Err(HandshakeError::MalformedHeader);
    }
    if digest_hex.len() != TROJAN_DIGEST_LEN || !equal_at(b, 0, digest_hex) {
        return Err(HandshakeError::Authentication);
    }
    if len < 59 || b[56] != CR || b[57] != LF {
        return Err(HandshakeError::MalformedHeader);
    }
    if b[58] != 1 {
        return Err(HandshakeError::UnsupportedVariant);
    }
    let rest = slice_subrange(b, 59, len);
    match decode(rest) {
        Err(_) => Err(HandshakeError::MalformedHeader),
        Ok((target, n)) => {
            let e = 59 + n;
            if len < e + 2 || b[e] != CR || b[e + 1] != LF {
                return Err(HandshakeError::MalformedHeader);
            }
            Ok(
                ClientHandshake {
                    protocol: Protocol::Trojan,
                    version: 0,
                    credential: copy_bytes(digest_hex),
                    command: Command::Connect,
                    target,
                    payload_offset: e + 2,
                },
            )
        },
    }
}

/// Parses the plaintext prefix of a Shadowsocks stream, once the cipher
/// layer has decoded it.
pub fn parse_shadowsocks(plain: &[u8]) -> (r: Result<ClientHandshake, HandshakeError>)
    ensures
        match r {
            Ok(h) => shadowsocks_spec(plain@) == Ok::<HandshakeModel, HandshakeError>(h@),
            Err(e) => shadowsocks_spec(plain@) == Err::<HandshakeModel, HandshakeError>(e),
        },
{
    match decode(plain) {
        Err(_) => Err(HandshakeError::MalformedHeader),
        Ok((target, n)) => {
            let r = ClientHandshake {
                protocol: Protocol::Shadowsocks,
                version: 0,
                credential: Vec::new(),
                command: Command::Connect,
                target,
                payload_offset: n,
            };
            assert(r@.credential =~= Seq::<u8>::empty());
            Ok(r)
        },
    }
}

/// Parses the first bytes of a session, as the cipher layer hands them on:
/// the first variant whose structural check passes is committed to, so a
/// failed credential never falls through to another format. Bytes that are
/// neither VLess- nor Trojan-shaped are read as a Shadowsocks prefix.
pub fn parse_handshake(b: &[u8], credential: &[u8; 16], digest_hex: &[u8]) -> (r: Result<
    ClientHandshake,
    HandshakeError,
>)
    ensures
        match r {
            Ok(h) => handshake_spec(b@, credential@, digest_hex@) == Ok::<
                HandshakeModel,
                HandshakeError,
            >(h@),
            Err(e) => handshake_spec(b@, credential@, digest_hex@) == Err::<
                HandshakeModel,
                HandshakeError,
            >(e),
        },
{
    if b.len() >= 18 && b[0] == VLESS_VERSION {
        parse_vless(b, credential)
    } else if b.len() >= 58 && b[56] == CR && b[57] == LF {
        parse_trojan(b, digest_hex)
    } else {
        parse_shadowsocks(b)
    }
}

/// The bytes of a VLess header, up to and without the payload.
pub open spec fn vless_header(
    version: u8,
    cred: Seq<u8>,
    options: Seq<u8>,
    command: u8,
    target: AddressModel,
) -> Seq<u8> {
    seq![version] + cred + seq![options.len() as u8] + options + seq![command] + encode_spec(target)
}

/// A well-formed VLess header that carries the configured credential is
/// accepted, with the target it encodes, and its payload starts right after
/// the last header byte. With version zero the handshake as a whole commits
/// to VLess and gives the same result.
#[verifier::rlimit(40)]
pub proof fn lemma_vless_accepts(
    version: u8,
    cred: Seq<u8>,
    options: Seq<u8>,
    command: u8,
    target: AddressModel,
    payload: Seq<u8>,
    digest: Seq<u8>,
)
    requires
        cred.len() == 16,
        options.len() <= 255,
        vless_command(command) is Some,
        address_wf(target),
    ensures
        ({
            let header = vless_header(version, cred, options, command, target);
            let b = header + payload;
            &&& vless_spec(b, cred) is Ok
            &&& vless_spec(b, cred).unwrap().target == target
            &&& vless_spec(b, cred).unwrap().command == vless_command(command).unwrap()
            &&& vless_spec(b, cred).unwrap().payload_offset == header.len()
            &&& version == VLESS_VERSION ==> handshake_spec(b, cred, digest) == vless_spec(b, cred)
        }),
{
    let header = vless_header(version, cred, options, command, target);
    let b = header + payload;
    let c: int = 18 + options.len() as int;
    assert(b.subrange(1, 17) =~= cred);
    assert(b[17] == options.len() as u8);
    assert(b[c] == command);
    assert(b.subrange(c + 1, b.len() as int) =~= encode_spec(target) + payload);
    lemma_decode_encode(target, payload);
}

/// A decoded Shadowsocks prefix, a well-formed address followed by the
/// payload, is accepted by the handshake as a whole unless it happens to
/// look like a Trojan header; the target is the address and the payload
/// starts right after it.
pub proof fn lemma_shadowsocks_accepts(target: AddressModel, payload: Seq<u8>, cred: Seq<u8>, digest: Seq<u8>)
    requires
        address_wf(target),
        !trojan_shaped(encode_spec(target) + payload),
    ensures
        ({
            let b = encode_spec(target) + payload;
            &&& handshake_spec(b, cred, digest) == shadowsocks_spec(b)
            &&& shadowsocks_spec(b) is Ok
            &&& shadowsocks_spec(b).unwrap().protocol == Protocol::Shadowsocks
            &&& shadowsocks_spec(b).unwrap().target == target
            &&& shadowsocks_spec(b).unwrap().payload_offset == encode_spec(target).len()
        }),
{
    let b = encode_spec(target) + payload;
    assert(b[0] == encode_spec(target)[0]);
    lemma_decode_encode(target, payload);
}

} // verus!
