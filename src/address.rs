//! The variable-length target-address encoding shared by the handshake
//! formats: a tag byte, the host bytes, and a big-endian port.
use vstd::prelude::*;

verus! {

/// Which kind of host a target address names.
#[derive(Clone, Copy, Debug, PartialEq, Eq, Structural)]
pub enum HostKind {
    Ipv4,
    Domain,
    Ipv6,
}

/// A decoded destination: the host kind, its raw bytes and the port.
#[derive(Debug)]
pub struct TargetAddress {
    pub kind: HostKind,
    pub host: Vec<u8>,
    pub port: u16,
}

/// The mathematical value of a [`TargetAddress`].
pub struct AddressModel {
    pub kind: HostKind,
    pub host: Seq<u8>,
    pub port: u16,
}

impl View for TargetAddress {
    type V = AddressModel;

    open spec fn view(&self) -> AddressModel {
        AddressModel { kind: self.kind, host: self.host@, port: self.port }
    }
}

/// The ways decoding an address fails.
#[derive(Clone, Copy, Debug, PartialEq, Eq, Structural)]
pub enum AddressError {
    MalformedAddress,
}

pub const TAG_IPV4: u8 = 1;
pub const TAG_DOMAIN: u8 = 2;
pub const TAG_IPV6: u8 = 3;

pub open spec fn tag_of(k: HostKind) -> u8 {
    match k {
        HostKind::Ipv4 => 1,
        HostKind::Domain => 2,
        HostKind::Ipv6 => 3,
    }
}

/// An address that can be encoded and may be connected to: the host has the
/// length its kind asks for and the port is not zero.
pub open spec fn address_wf(a: AddressModel) -> bool {
    &&& match a.kind {
        HostKind::Ipv4 => a.host.len() == 4,
        HostKind::Domain => a.host.len() <= 255,
        HostKind::Ipv6 => a.host.len() == 16,
    }
    &&& a.port >= 1
}

/// The two big-endian bytes of a port.
pub open spec fn port_bytes(p: u16) -> Seq<u8> {
    seq![(p / 256) as u8, (p % 256) as u8]
}

/// The big-endian port stored at `b[i]`, `b[i + 1]`.
pub open spec fn port_at(b: Seq<u8>, i: int) -> u16 {
    (b[i] as int * 256 + b[i + 1] as int) as u16
}

/// The encoding of an address.
pub open spec fn encode_spec(a: AddressModel) -> Seq<u8> {
    match a.kind {
        HostKind::Domain => seq![2u8, a.host.len() as u8] + a.host + port_bytes(a.port),
        _ => seq![tag_of(a.kind)] + a.host + port_bytes(a.port),
    }
}

/// An address of the given kind read from `b`, with the host at
/// `b[start..start + len]` and the port right after it; `None` for port zero.
pub open spec fn read_fixed(b: Seq<u8>, kind: HostKind, start: int, len: int) -> Option<
    (AddressModel, nat),
> {
    if b.len() < start + len + 2 || port_at(b, start + len) == 0 {
        None
    } else {
        Some(
            (
                AddressModel {
                    kind,
                    host: b.subrange(start, start + len),
                    port: port_at(b, start + len),
                },
                (start + len + 2) as nat,
            ),
        )
    }
}

/// What decoding the front of `b` gives: the address and the number of bytes
/// it takes, or `None` where the front is no valid encoding.
pub open spec fn decode_spec(b: Seq<u8>) -> Option<(AddressModel, nat)> {
    if b.len() == 0 {
        None
    } else if b[0] == 1 {
        read_fixed(b, HostKind::Ipv4, 1, 4)
    } else if b[0] == 2 {
        if b.len() < 2 {
            None
        } else {
            read_fixed(b, HostKind::Domain, 2, b[1] as int)
        }
    } else if b[0] == 3 {
        read_fixed(b, HostKind::Ipv6, 1, 16)
    } else {
        None
    }
}

fn read_port(b: &[u8], i: usize) -> (r: u16)
    requires
        i + 1 < b@.len(),
    ensures
        r == port_at(b@, i as int),
{
    (b[i] as u16) * 256 + (b[i + 1] as u16)
}

pub(crate) fn copy_range(b: &[u8], start: usize, end: usize) -> (r: Vec<u8>)
    requires
        start <= end <= b@.len(),
    ensures
        r@ == b@.subrange(start as int, end as int),
{
    let mut r: Vec<u8> = Vec::with_capacity(end - start);
    let mut i: usize = start;
    while i < end
        invariant
            start <= i <= end <= b@.len(),
            r@ == b@.subrange(start as int, i as int),
        decreases end - i,
    {
        r.push(b[i]);
        i = i + 1;
        assert(r@ =~= b@.subrange(start as int, i as int));
    }
    r
}

/// Decodes the address at the front of `b`, returning it with the number of
/// bytes it takes. A tag outside {1, 2, 3}, too few bytes for the tag, a
/// domain length prefix that claims more bytes than remain, or port zero is
/// `MalformedAddress`, and nothing is consumed.
pub fn decode(b: &[u8]) -> (r: Result<(TargetAddress, usize), AddressError>)
    ensures
        match r {
            Ok((t, n)) => decode_spec(b@) == Some((t@, n as nat)) && n <= b@.len(),
            Err(_) => decode_spec(b@) is None,
        },
        b@.len() >= 2 && b@[0] == TAG_DOMAIN && b@[1] as int + 4 > b@.len() ==> r is Err,
{
    let len = b.len();
    if len == 0 {
        return Err(AddressError::MalformedAddress);
    }
    let (kind, start, host_len): (HostKind, usize, usize) = if b[0] == TAG_IPV4 {
        (HostKind::Ipv4, 1, 4)
    } else if b[0] == TAG_DOMAIN {
        if len < 2 {
            return Err(AddressError::MalformedAddress);
        }
        (HostKind::Domain, 2, b[1] as usize)
    } else if b[0] == TAG_IPV6 {
        (HostKind::Ipv6, 1, 16)
    } else {
        return Err(AddressError::MalformedAddress);
    };
    if len < start + host_len + 2 {
        return Err(AddressError::MalformedAddress);
    }
    let port = read_port(b, start + host_len);
    if port == 0 {
        return Err(AddressError::MalformedAddress);
    }
    let host = copy_range(b, start, start + host_len);
    Ok((TargetAddress { kind, host, port }, start + host_len + 2))
}

/// Encodes an address.
pub fn encode(a: &TargetAddress) -> (r: Vec<u8>)
    requires
        address_wf(a@),
    ensures
        r@ == encode_spec(a@),
{
    let mut r: Vec<u8> = Vec::new();
    match a.kind {
        HostKind::Ipv4 => r.push(TAG_IPV4),
        HostKind::Domain => {
            r.push(TAG_DOMAIN);
            r.push(a.host.len() as u8);
        },
        HostKind::Ipv6 => r.push(TAG_IPV6),
    }
    let ghost head = r@;
    let mut i: usize = 0;
    while i < a.host.len()
        invariant
            i <= a.host@.len(),
            r@ == head + a.host@.subrange(0, i as int),
        decreases a.host@.len() - i,
    {
        r.push(a.host[i]);
        i = i + 1;
        assert(r@ =~= head + a.host@.subrange(0, i as int));
    }
    r.push((a.port / 256) as u8);
    r.push((a.port % 256) as u8);
    assert(a.host@.subrange(0, a.host@.len() as int) =~= a.host@);
    assert(r@ =~= encode_spec(a@));
    r
}

/// Decoding the encoding of a well-formed address, whatever follows it, gives
/// that address back and consumes exactly its encoding.
pub proof fn lemma_decode_encode(a: AddressModel, rest: Seq<u8>)
    requires
        address_wf(a),
    ensures
        decode_spec(encode_spec(a) + rest) == Some((a, encode_spec(a).len())),
{
    let b = encode_spec(a) + rest;
    let hl = a.host.len() as int;
    let start: int = if a.kind == HostKind::Domain { 2 } else { 1 };
    assert(b.subrange(start, start + hl) =~= a.host);
    assert(b[start + hl] == (a.port / 256) as u8);
    assert(b[start + hl + 1] == (a.port % 256) as u8);
    assert(port_at(b, start + hl) == a.port);
    let (m, n) = decode_spec(b).unwrap();
    assert(m.host =~= a.host);
}

} // verus!
