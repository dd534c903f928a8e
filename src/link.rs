//! Connection links that clients import to reach this gateway.
use vstd::prelude::*;
use crate::text::{push_str, string_of};

verus! {

/// The URL-safe, padded base64 encoding of `b`.
pub uninterp spec fn base64_url_of(b: Seq<u8>) -> Seq<char>;

/// The compact JSON text of an object with the given string members, keys
/// in sorted order, a later duplicate key replacing an earlier one.
pub uninterp spec fn json_object_text_of(members: Seq<(Seq<char>, Seq<char>)>) -> Seq<char>;

/// A character of the URL-safe base64 alphabet, or the padding `=`.
pub open spec fn is_base64_url_char(c: char) -> bool {
    ||| 'A' <= c && c <= 'Z'
    ||| 'a' <= c && c <= 'z'
    ||| '0' <= c && c <= '9'
    ||| c == '-' || c == '_' || c == '='
}

/// Relies on base64's `URL_SAFE` engine (URL-safe alphabet, padded):
/// `encode` of the bytes, four characters for each started group of three.
#[verifier::external_body]
fn base64_url(b: &[u8]) -> (r: String)
    ensures
        r@ == base64_url_of(b@),
        r@.len() == 4 * ((b@.len() + 2) / 3),
        forall|i: int| 0 <= i < r@.len() ==> is_base64_url_char(#[trigger] r@[i]),
{
    base64::Engine::encode(&base64::engine::general_purpose::URL_SAFE, b)
}

/// Relies on serde_json's `Display` for `Value::Object`, built from string
/// members.
#[verifier::external_body]
fn json_object_text(members: Vec<(String, String)>) -> (r: String)
    ensures
        r@ == json_object_text_of(members.deep_view()),
{
    serde_json::Value::Object(
        members.into_iter().map(|(k, v)| (k, serde_json::Value::String(v))).collect(),
    ).to_string()
}

/// The members of the VMess client configuration.
pub open spec fn vmess_members(host: Seq<char>, uuid: Seq<char>) -> Seq<(Seq<char>, Seq<char>)> {
    seq![
        ("ps"@, "siren vmess"@),
        ("v"@, "2"@),
        ("add"@, host),
        ("port"@, "80"@),
        ("id"@, uuid),
        ("aid"@, "0"@),
        ("scy"@, "zero"@),
        ("net"@, "ws"@),
        ("type"@, "none"@),
        ("host"@, host),
        ("path"@, "/KR"@),
        ("tls"@, ""@),
        ("sni"@, ""@),
        ("alpn"@, ""@),
    ]
}

pub open spec fn vmess_link_spec(host: Seq<char>, uuid: Seq<char>) -> Seq<char> {
    "vmess://"@ + base64_url_of(
        vstd::utf8::encode_utf8(json_object_text_of(vmess_members(host, uuid))),
    )
}

/// The query shared by the VLess and Trojan links, up to the fragment.
pub open spec fn ws_tls_query(host: Seq<char>) -> Seq<char> {
    ":443?encryption=none&type=ws&host="@ + host + "&path=%2FKR&security=tls&sni="@ + host
}

pub open spec fn vless_link_spec(host: Seq<char>, uuid: Seq<char>) -> Seq<char> {
    "vless://"@ + uuid + "@"@ + host + ws_tls_query(host) + "#siren vless"@
}

pub open spec fn trojan_link_spec(host: Seq<char>, uuid: Seq<char>) -> Seq<char> {
    "trojan://"@ + uuid + "@"@ + host + ws_tls_query(host) + "#siren trojan"@
}

pub open spec fn ss_link_spec(host: Seq<char>, uuid: Seq<char>) -> Seq<char> {
    "ss://"@ + base64_url_of(vstd::utf8::encode_utf8("none:"@ + uuid)) + "@"@ + host
        + ":443?plugin=v2ray-plugin%3Btls%3Bmux%3D0%3Bmode%3Dwebsocket%3Bpath%3D%2FKR%3Bhost%3D"@
        + host + "#siren ss"@
}

fn member(k: &str, v: &str) -> (r: (String, String))
    ensures
        r.0@ == k@,
        r.1@ == v@,
{
    (k.to_owned(), v.to_owned())
}

/// The VMess link: its client configuration as JSON, base64-encoded.
pub fn generate_vmess_link(host: &str, uuid: &str) -> (r: String)
    ensures
        r@ == vmess_link_spec(host@, uuid@),
        r@.len() >= 8,
        forall|i: int| 8 <= i < r@.len() ==> is_base64_url_char(#[trigger] r@[i]),
{
    let members = vec![
        member("ps", "siren vmess"),
        member("v", "2"),
        member("add", host),
        member("port", "80"),
        member("id", uuid),
        member("aid", "0"),
        member("scy", "zero"),
        member("net", "ws"),
        member("type", "none"),
        member("host", host),
        member("path", "/KR"),
        member("tls", ""),
        member("sni", ""),
        member("alpn", ""),
    ];
    assert(members.deep_view() =~= vmess_members(host@, uuid@));
    let json = json_object_text(members);
    let encoded = base64_url(json.as_str().as_bytes());
    let mut v: Vec<char> = Vec::new();
    push_str(&mut v, "vmess://");
    proof {
        reveal_strlit("vmess://");
    }
    push_str(&mut v, encoded.as_str());
    assert forall|i: int| 8 <= i < v@.len() implies is_base64_url_char(#[trigger] v@[i]) by {
        assert(v@[i] == encoded@[i - 8]);
    }
    string_of(v.as_slice())
}

fn push_ws_tls_query(v: &mut Vec<char>, host: &str)
    ensures
        final(v)@ == old(v)@ + ws_tls_query(host@),
{
    push_str(v, ":443?encryption=none&type=ws&host=");
    push_str(v, host);
    push_str(v, "&path=%2FKR&security=tls&sni=");
    push_str(v, host);
    assert(final(v)@ =~= old(v)@ + ws_tls_query(host@));
}

/// The VLess link.
pub fn generate_vless_link(host: &str, uuid: &str) -> (r: String)
    ensures
        r@ == vless_link_spec(host@, uuid@),
{
    let mut v: Vec<char> = Vec::new();
    push_str(&mut v, "vless://");
    push_str(&mut v, uuid);
    push_str(&mut v, "@");
    push_str(&mut v, host);
    push_ws_tls_query(&mut v, host);
    push_str(&mut v, "#siren vless");
    assert(v@ =~= vless_link_spec(host@, uuid@));
    string_of(v.as_slice())
}

/// The Trojan link.
pub fn generate_trojan_link(host: &str, uuid: &str) -> (r: String)
    ensures
        r@ == trojan_link_spec(host@, uuid@),
{
    let mut v: Vec<char> = Vec::new();
    push_str(&mut v, "trojan://");
    push_str(&mut v, uuid);
    push_str(&mut v, "@");
    push_str(&mut v, host);
    push_ws_tls_query(&mut v, host);
    push_str(&mut v, "#siren trojan");
    assert(v@ =~= trojan_link_spec(host@, uuid@));
    string_of(v.as_slice())
}

/// The Shadowsocks link, whose user part is `none:<uuid>` base64-encoded.
pub fn generate_ss_link(host: &str, uuid: &str) -> (r: String)
    ensures
        r@ == ss_link_spec(host@, uuid@),
{
    let mut user: Vec<char> = Vec::new();
    push_str(&mut user, "none:");
    push_str(&mut user, uuid);
    let user = string_of(user.as_slice());
    let encoded = base64_url(user.as_str().as_bytes());
    let mut v: Vec<char> = Vec::new();
    push_str(&mut v, "ss://");
    push_str(&mut v, encoded.as_str());
    push_str(&mut v, "@");
    push_str(&mut v, host);
    push_str(
        &mut v,
        ":443?plugin=v2ray-plugin%3Btls%3Bmux%3D0%3Bmode%3Dwebsocket%3Bpath%3D%2FKR%3Bhost%3D",
    );
    push_str(&mut v, host);
    push_str(&mut v, "#siren ss");
    assert(v@ =~= ss_link_spec(host@, uuid@));
    string_of(v.as_slice())
}

} // verus!
