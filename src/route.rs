//! Egress overrides chosen by a routing token: a two-character code looked
//! up in an external table, or a literal `host-port` string.
use vstd::prelude::*;
use crate::config::{Config, same_but_egress};
use crate::text::{chars_of, string_of};

verus! {

/// The entries of a JSON object of the shape `{code: [candidate, ...]}`, in
/// key order, or `None` where the text is no such object.
pub uninterp spec fn route_table_of(text: Seq<char>) -> Option<Seq<(Seq<char>, Seq<Seq<char>>)>>;

/// Whether the regular expression `pattern` matches somewhere in `text`, or
/// `None` where `pattern` does not compile.
pub uninterp spec fn pattern_match_of(pattern: Seq<char>, text: Seq<char>) -> Option<bool>;

/// Relies on serde_json::from_str into a `BTreeMap<String, Vec<String>>`:
/// the result depends on the text alone; the map's entries come out in key
/// order.
#[verifier::external_body]
fn parse_route_table(text: &str) -> (r: Option<Vec<(String, Vec<String>)>>)
    ensures
        r.deep_view() == route_table_of(text@),
{
    serde_json::from_str::<std::collections::BTreeMap<String, Vec<String>>>(text).ok().map(
        |m| m.into_iter().collect(),
    )
}

/// Relies on regex::Regex::new and regex::Regex::is_match: the result
/// depends on the pattern and the text alone.
#[verifier::external_body]
fn regex_is_match(pattern: &str, text: &str) -> (r: Option<bool>)
    ensures
        r == pattern_match_of(pattern@, text@),
{
    regex::Regex::new(pattern).ok().map(|re| re.is_match(text))
}

/// The pattern a literal override token must match: something, a dash, and
/// digits up to the end.
pub const ROUTE_PATTERN: &'static str = "^.+-\\d+$";

/// A routing code is looked up when it has exactly this many characters.
pub const CODE_LEN: usize = 2;

/// The first candidate listed under the first entry keyed `code`, from
/// entry `i` on; `None` where there is no such entry or it lists nothing.
pub open spec fn lookup_from(t: Seq<(Seq<char>, Seq<Seq<char>>)>, code: Seq<char>, i: int) -> Option<
    Seq<char>,
>
    decreases t.len() - i,
{
    if i < 0 || i >= t.len() {
        None
    } else if t[i].0 == code {
        if t[i].1.len() > 0 {
            Some(t[i].1[0])
        } else {
            None
        }
    } else {
        lookup_from(t, code, i + 1)
    }
}

/// A `host:port` candidate written as `host-port`.
pub open spec fn colons_to_dashes(s: Seq<char>) -> Seq<char> {
    s.map_values(|c: char| if c == ':' { '-' } else { c })
}

/// The token that the literal match is made on: for a two-character code
/// with a table fetched, its first candidate rewritten; else the token.
pub open spec fn effective_token(token: Seq<char>, table_text: Option<Seq<char>>) -> Seq<char> {
    if token.len() == CODE_LEN && table_text is Some && route_table_of(table_text.unwrap()) is Some
        && lookup_from(route_table_of(table_text.unwrap()).unwrap(), token, 0) is Some {
        colons_to_dashes(lookup_from(route_table_of(table_text.unwrap()).unwrap(), token, 0).unwrap())
    } else {
        token
    }
}

/// The index of the last dash before position `i`, or -1.
pub open spec fn last_dash_before(s: Seq<char>, i: int) -> int
    decreases i,
{
    if i <= 0 {
        -1
    } else if s[i - 1] == '-' {
        i - 1
    } else {
        last_dash_before(s, i - 1)
    }
}

pub open spec fn is_digit(c: char) -> bool {
    '0' <= c && c <= '9'
}

pub open spec fn all_digits(s: Seq<char>) -> bool {
    forall|i: int| 0 <= i < s.len() ==> is_digit(#[trigger] s[i])
}

/// The decimal value of a string of digits.
pub open spec fn digits_value(s: Seq<char>) -> int
    decreases s.len(),
{
    if s.len() == 0 {
        0
    } else {
        digits_value(s.drop_last()) * 10 + (s.last() as int - '0' as int)
    }
}

/// The port a string of decimal digits names, if it fits in 16 bits.
pub open spec fn port_of(s: Seq<char>) -> Option<u16> {
    if s.len() > 0 && all_digits(s) && digits_value(s) <= 65535 {
        Some(digits_value(s) as u16)
    } else {
        None
    }
}

/// The override a token of the form `host-port` names: split on the last
/// dash, with a port that parses as a 16-bit number.
pub open spec fn literal_override(token: Seq<char>) -> Option<(Seq<char>, u16)> {
    let d = last_dash_before(token, token.len() as int);
    if d < 0 {
        None
    } else {
        match port_of(token.subrange(d + 1, token.len() as int)) {
            Some(p) => Some((token.subrange(0, d), p)),
            None => None,
        }
    }
}

/// The override chosen for a token, given whether it matched the pattern.
pub open spec fn override_spec(token: Seq<char>, matched: bool) -> Option<(Seq<char>, u16)> {
    if matched {
        literal_override(token)
    } else {
        None
    }
}

proof fn lemma_digits_nonneg(s: Seq<char>)
    requires
        all_digits(s),
    ensures
        digits_value(s) >= 0,
    decreases s.len(),
{
    if s.len() > 0 {
        assert(all_digits(s.drop_last()));
        lemma_digits_nonneg(s.drop_last());
        assert(is_digit(s[s.len() - 1]));
    }
}

proof fn lemma_digits_prefix(s: Seq<char>, k: int)
    requires
        all_digits(s),
        0 <= k <= s.len(),
    ensures
        digits_value(s.subrange(0, k)) <= digits_value(s),
    decreases s.len(),
{
    if k == s.len() {
        assert(s.subrange(0, k) =~= s);
    } else {
        let t = s.drop_last();
        assert(all_digits(t));
        lemma_digits_prefix(t, k);
        assert(t.subrange(0, k) =~= s.subrange(0, k));
        lemma_digits_nonneg(t);
        assert(is_digit(s[s.len() - 1]));
    }
}

/// Parses a decimal port number.
fn parse_port(s: &[char]) -> (r: Option<u16>)
    ensures
        r == port_of(s@),
{
    let n = s.len();
    if n == 0 {
        return None;
    }
    let mut v: u32 = 0;
    let mut i: usize = 0;
    while i < n
        invariant
            n == s@.len(),
            i <= n,
            all_digits(s@.subrange(0, i as int)),
            v as int == digits_value(s@.subrange(0, i as int)),
            v <= 65535,
        decreases n - i,
    {
        let c = s[i];
        if !('0' <= c && c <= '9') {
            assert(!is_digit(s@[i as int]));
            return None;
        }
        let d = (c as u32) - ('0' as u32);
        assert(s@.subrange(0, i + 1).drop_last() =~= s@.subrange(0, i as int));
        if v * 10 + d > 65535 {
            proof {
                if all_digits(s@) {
                    lemma_digits_prefix(s@, i + 1);
                }
            }
            return None;
        }
        v = v * 10 + d;
        i = i + 1;
        assert forall|k: int| 0 <= k < i implies is_digit(#[trigger] s@.subrange(0, i as int)[k]) by {
            if k < i - 1 {
                assert(s@.subrange(0, i as int)[k] == s@.subrange(0, i - 1)[k]);
            }
        }
    }
    assert(s@.subrange(0, n as int) =~= s@);
    Some(v as u16)
}

/// The override a token names, given whether it matched the route pattern:
/// where it did, the text before its last dash is the host and the digits
/// after it, read as a 16-bit number, the port.
pub fn route_override(token: &str, matched: bool) -> (r: Option<(String, u16)>)
    ensures
        r.deep_view() == override_spec(token@, matched),
{
    if !matched {
        return None;
    }
    let c = chars_of(token);
    let n = c.len();
    let mut i: usize = n;
    while i > 0 && c[i - 1] != '-'
        invariant
            n == c@.len(),
            i <= n,
            last_dash_before(c@, n as int) == last_dash_before(c@, i as int),
        decreases i,
    {
        i = i - 1;
    }
    if i == 0 {
        return None;
    }
    let d = i - 1;
    let digits = vstd::slice::slice_subrange(c.as_slice(), d + 1, n);
    match parse_port(digits) {
        None => None,
        Some(p) => {
            let host = string_of(vstd::slice::slice_subrange(c.as_slice(), 0, d));
            Some((host, p))
        },
    }
}

/// Whether a token is a routing code, to be looked up in the route table.
pub fn is_route_code(token: &str) -> (r: bool)
    ensures
        r == (token@.len() == CODE_LEN),
{
    chars_of(token).len() == CODE_LEN
}

/// Finds the first candidate listed under `code` in a route table.
pub fn lookup_candidate(t: &Vec<(String, Vec<String>)>, code: &String) -> (r: Option<String>)
    ensures
        r.deep_view() == lookup_from(t.deep_view(), code@, 0),
{
    let n = t.len();
    let mut i: usize = 0;
    while i < n
        invariant
            n == t@.len(),
            i <= n,
            lookup_from(t.deep_view(), code@, 0) == lookup_from(t.deep_view(), code@, i as int),
        decreases n - i,
    {
        let entry = &t[i];
        if entry.0 == *code {
            if entry.1.len() > 0 {
                return Some(entry.1[0].clone());
            }
            return None;
        }
        i = i + 1;
    }
    None
}

/// Rewrites each `:` of a string as `-`.
fn colons_as_dashes(s: &str) -> (r: Vec<char>)
    ensures
        r@ == colons_to_dashes(s@),
{
    let c = chars_of(s);
    let mut r: Vec<char> = Vec::with_capacity(c.len());
    let mut i: usize = 0;
    while i < c.len()
        invariant
            i <= c@.len(),
            r@ == colons_to_dashes(c@.subrange(0, i as int)),
        decreases c@.len() - i,
    {
        let ch = c[i];
        r.push(if ch == ':' { '-' } else { ch });
        i = i + 1;
        assert(r@ =~= colons_to_dashes(c@.subrange(0, i as int)));
    }
    assert(c@.subrange(0, c@.len() as int) =~= c@);
    r
}

/// The egress override for a routing token. `table_text` is the body of the
/// route table when it was fetched with status 200, and `None` otherwise. A
/// two-character token is replaced by its first listed candidate, with `:`
/// read as `-`; the result overrides only where it matches the route pattern
/// and its text after the last dash is a 16-bit port. Every failure along the
/// way leaves the token as it was, or gives no override.
pub fn resolve_override(token: &str, table_text: Option<&str>) -> (r: Option<(String, u16)>)
    ensures
        ({
            let eff = effective_token(token@, table_text.deep_view());
            r.deep_view() == override_spec(eff, pattern_match_of(ROUTE_PATTERN@, eff) == Some(true))
        }),
{
    let chars = chars_of(token);
    let mut eff: String = string_of(chars.as_slice());
    if chars.len() == CODE_LEN {
        if let Some(text) = table_text {
            if let Some(table) = parse_route_table(text) {
                let code = string_of(chars.as_slice());
                if let Some(candidate) = lookup_candidate(&table, &code) {
                    let rewritten = colons_as_dashes(candidate.as_str());
                    eff = string_of(rewritten.as_slice());
                }
            }
        }
    }
    let matched = match regex_is_match(ROUTE_PATTERN, eff.as_str()) {
        Some(m) => m,
        None => false,
    };
    route_override(eff.as_str(), matched)
}

/// The configuration a session connects with: `cfg` with its egress endpoint
/// replaced where the token names an override, and unchanged otherwise.
pub fn resolve(token: &str, table_text: Option<&str>, cfg: &Config) -> (r: Config)
    ensures
        ({
            let eff = effective_token(token@, table_text.deep_view());
            let o = override_spec(eff, pattern_match_of(ROUTE_PATTERN@, eff) == Some(true));
            &&& same_but_egress(&r, cfg)
            &&& o is Some ==> r.proxy_addr@ == o.unwrap().0 && r.proxy_port == o.unwrap().1
            &&& o is None ==> r.proxy_addr@ == cfg.proxy_addr@ && r.proxy_port == cfg.proxy_port
        }),
{
    match resolve_override(token, table_text) {
        Some((addr, port)) => cfg.with_egress(addr, port),
        None => cfg.duplicate(),
    }
}

} // verus!
