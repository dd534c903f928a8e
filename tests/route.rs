use edgetunnel::config::Config;
use edgetunnel::route::{is_route_code, lookup_candidate, resolve, resolve_override, route_override};

const TABLE: &str = r#"{"sg": ["1.2.3.4:443", "5.6.7.8:443"], "id": ["9.9.9.9:8080"]}"#;

fn cfg() -> Config {
    Config {
        uuid: [1u8; 16],
        host: "edge.example".to_string(),
        proxy_addr: "edge.example".to_string(),
        proxy_port: 443,
        main_page_url: "https://pages.example/main".to_string(),
        sub_page_url: "https://pages.example/sub".to_string(),
    }
}

#[test]
fn code_takes_first_candidate() {
    let c = cfg();
    let r = resolve("sg", Some(r#"{"sg": ["1.2.3.4:443", "5.6.7.8:443"]}"#), &c);
    assert_eq!(r.proxy_addr, "1.2.3.4");
    assert_eq!(r.proxy_port, 443);
    assert_eq!(r.host, c.host);
    assert_eq!(r.uuid, c.uuid);
    assert_eq!(r.main_page_url, c.main_page_url);
    assert_eq!(r.sub_page_url, c.sub_page_url);
}

#[test]
fn code_with_other_entries() {
    let r = resolve("id", Some(TABLE), &cfg());
    assert_eq!(r.proxy_addr, "9.9.9.9");
    assert_eq!(r.proxy_port, 8080);
}

#[test]
fn literal_host_port_overrides() {
    let r = resolve("example.com-8443", None, &cfg());
    assert_eq!(r.proxy_addr, "example.com");
    assert_eq!(r.proxy_port, 8443);
}

#[test]
fn non_route_leaves_config_unchanged() {
    let c = cfg();
    let r = resolve("notaroute", Some(TABLE), &c);
    assert_eq!(r.proxy_addr, c.proxy_addr);
    assert_eq!(r.proxy_port, c.proxy_port);
    assert_eq!(r.host, c.host);
}

#[test]
fn code_without_table_is_no_override() {
    assert!(resolve_override("sg", None).is_none());
}

#[test]
fn unknown_code_is_no_override() {
    assert!(resolve_override("xx", Some(TABLE)).is_none());
}

#[test]
fn bad_table_is_no_override() {
    assert!(resolve_override("sg", Some("not json")).is_none());
    assert!(resolve_override("sg", Some(r#"{"sg": []}"#)).is_none());
}

#[test]
fn split_is_on_last_dash() {
    assert_eq!(resolve_override("my-host.net-2053", None), Some(("my-host.net".to_string(), 2053)));
}

#[test]
fn port_out_of_range_is_no_override() {
    assert!(resolve_override("host-70000", None).is_none());
    assert_eq!(resolve_override("host-0065535", None), Some(("host".to_string(), 65535)));
}

#[test]
fn pattern_needs_text_before_dash() {
    assert!(resolve_override("-8443", None).is_none());
    assert_eq!(route_override("-8443", true), Some((String::new(), 8443)));
}

#[test]
fn pattern_needs_digits_at_end() {
    assert!(resolve_override("host-80x", None).is_none());
}

#[test]
fn unmatched_token_gives_no_override() {
    assert!(route_override("host-80", false).is_none());
    assert_eq!(route_override("host-80", true), Some(("host".to_string(), 80)));
}

#[test]
fn lookup_takes_first_matching_key() {
    let t = vec![
        ("a".to_string(), vec!["x:1".to_string()]),
        ("b".to_string(), vec!["y:2".to_string(), "z:3".to_string()]),
    ];
    assert_eq!(lookup_candidate(&t, &"b".to_string()), Some("y:2".to_string()));
    assert_eq!(lookup_candidate(&t, &"c".to_string()), None);
}

#[test]
fn route_codes_have_two_characters() {
    assert!(is_route_code("sg"));
    assert!(!is_route_code("s"));
    assert!(!is_route_code("sgp"));
    assert!(!is_route_code(""));
}
