use webfinger_proxy::config::{parse_u16, resolve_domain, resolve_port};

#[test]
fn domain_comes_from_environment_value() {
    assert_eq!(resolve_domain(Some("auth.example.org".to_string())), "auth.example.org");
}

#[test]
fn domain_falls_back_when_unset_or_empty() {
    assert_eq!(resolve_domain(None), "idp.example.com");
    assert_eq!(resolve_domain(Some(String::new())), "idp.example.com");
}

#[test]
fn port_parses_plain_decimal() {
    assert_eq!(parse_u16("0"), Some(0));
    assert_eq!(parse_u16("80"), Some(80));
    assert_eq!(parse_u16("8080"), Some(8080));
    assert_eq!(parse_u16("008080"), Some(8080));
    assert_eq!(parse_u16("65535"), Some(65535));
    assert_eq!(parse_u16("+123"), Some(123));
}

#[test]
fn port_rejects_malformed_values() {
    assert_eq!(parse_u16(""), None);
    assert_eq!(parse_u16("+"), None);
    assert_eq!(parse_u16("-1"), None);
    assert_eq!(parse_u16("abc"), None);
    assert_eq!(parse_u16("80a"), None);
    assert_eq!(parse_u16(" 80"), None);
    assert_eq!(parse_u16("80 "), None);
    assert_eq!(parse_u16("8_0"), None);
}

#[test]
fn port_rejects_values_out_of_range() {
    assert_eq!(parse_u16("65536"), None);
    assert_eq!(parse_u16("99999999999999999999"), None);
}

#[test]
fn port_parsing_matches_the_standard_parser() {
    for s in ["0", "80", "8080", "65535", "65536", "+65535", "", "+", "-1", "007", "  9"] {
        assert_eq!(parse_u16(s), s.parse::<u16>().ok());
    }
}

#[test]
fn resolved_port_falls_back_to_default() {
    assert_eq!(resolve_port(None), 8000);
    assert_eq!(resolve_port(Some("not-a-port".to_string())), 8000);
    assert_eq!(resolve_port(Some("65536".to_string())), 8000);
}

#[test]
fn resolved_port_takes_parsed_value() {
    assert_eq!(resolve_port(Some("8080".to_string())), 8080);
    assert_eq!(resolve_port(Some("443".to_string())), 443);
}
