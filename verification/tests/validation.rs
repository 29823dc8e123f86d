use dns_manager::error::DnsError;
use dns_manager::validation::{
    format_ipv6, parse_ipv4, parse_ipv6, sanitize_powershell_arg, validate_dns_pair,
    validate_ip_address,
};

#[test]
fn test_valid_ipv4() {
    assert!(validate_ip_address("1.1.1.1").is_ok());
    assert!(validate_ip_address("8.8.8.8").is_ok());
    assert!(validate_ip_address("192.168.1.1").is_ok());
}

#[test]
fn test_invalid_ip() {
    assert!(validate_ip_address("999.999.999.999").is_err());
    assert!(validate_ip_address("1.1.1.1; rm -rf /").is_err());
    assert!(validate_ip_address("malicious").is_err());
}

#[test]
fn test_sanitize() {
    assert_eq!(sanitize_powershell_arg("1.1.1.1"), "1.1.1.1");
    assert_eq!(sanitize_powershell_arg("1.1.1.1; rm -rf /"), "1.1.1.1rm-rf");
}

#[test]
fn empty_text_is_no_address() {
    assert!(validate_ip_address("").is_err());
    assert!(validate_ip_address("   ").is_err());
}

#[test]
fn whitespace_around_an_address_is_dropped() {
    assert_eq!(validate_ip_address("  8.8.8.8\n").unwrap(), "8.8.8.8");
    assert_eq!(validate_ip_address("\t::1 ").unwrap(), "::1");
}

#[test]
fn the_refused_text_is_carried_in_the_error() {
    match validate_ip_address("  not an ip  ") {
        Err(DnsError::InvalidIpAddress(text)) => assert_eq!(text, "not an ip"),
        other => panic!("unexpected: {:?}", other),
    }
}

#[test]
fn dotted_addresses_at_the_edges() {
    assert_eq!(validate_ip_address("0.0.0.0").unwrap(), "0.0.0.0");
    assert_eq!(validate_ip_address("255.255.255.255").unwrap(), "255.255.255.255");
    for bad in [
        "256.1.1.1", "1.1.1", "1.1.1.1.1", "01.1.1.1", "1.1.1.1.", ".1.1.1.1", "1..1.1", "1.1.1.a",
        "1.1.1.1 1", "1.1.1.-1", "+1.1.1.1", "1111.1.1.1", "1.1.1.0001", "１.1.1.1",
    ] {
        assert!(validate_ip_address(bad).is_err(), "{}", bad);
    }
    assert_eq!(parse_ipv4(&"10.20.30.40".chars().collect()), Some([10, 20, 30, 40]));
}

#[test]
fn ipv6_addresses_are_read() {
    let groups = |s: &str| parse_ipv6(&s.chars().collect());
    assert_eq!(groups("::"), Some(vec![0, 0, 0, 0, 0, 0, 0, 0]));
    assert_eq!(groups("::1"), Some(vec![0, 0, 0, 0, 0, 0, 0, 1]));
    assert_eq!(groups("1::"), Some(vec![1, 0, 0, 0, 0, 0, 0, 0]));
    assert_eq!(
        groups("2001:db8::8a2e:370:7334"),
        Some(vec![0x2001, 0xdb8, 0, 0, 0, 0x8a2e, 0x370, 0x7334])
    );
    assert_eq!(groups("1:2:3:4:5:6:7:8"), Some(vec![1, 2, 3, 4, 5, 6, 7, 8]));
    assert_eq!(groups("1:2:3:4:5:6:7::"), Some(vec![1, 2, 3, 4, 5, 6, 7, 0]));
    assert_eq!(groups("::2:3:4:5:6:7:8"), Some(vec![0, 2, 3, 4, 5, 6, 7, 8]));
    assert_eq!(groups("::ffff:1.2.3.4"), Some(vec![0, 0, 0, 0, 0, 0xffff, 0x0102, 0x0304]));
    assert_eq!(groups("1:2:3:4:5:6:1.2.3.4"), Some(vec![1, 2, 3, 4, 5, 6, 0x0102, 0x0304]));
    assert_eq!(groups("ABCD:ef01::"), Some(vec![0xabcd, 0xef01, 0, 0, 0, 0, 0, 0]));
    for bad in [
        "", ":", ":::", "1::2::3", "1:2:3:4:5:6:7", "1:2:3:4:5:6:7:8:9", "1:2:3:4:5:6:7:8::",
        "12345::", "g::", "1.2.3.4::", "::1.2.3.4:5", "1:2:3:4:5:6:7:1.2.3.4", ":1::2",
        "1:2:3:4:5:6::1.2.3.4", "::1.2.3", "fe80::1%eth0", "1:::2",
    ] {
        assert_eq!(groups(bad), None, "{}", bad);
    }
}

#[test]
fn ipv6_addresses_are_written_in_canonical_form() {
    assert_eq!(validate_ip_address("0:0:0:0:0:0:0:0").unwrap(), "::");
    assert_eq!(validate_ip_address("0:0:0:0:0:0:0:1").unwrap(), "::1");
    assert_eq!(validate_ip_address("2001:0DB8:0000:0000:0000:8A2E:0370:7334").unwrap(), "2001:db8::8a2e:370:7334");
    assert_eq!(validate_ip_address("1:0:0:2:0:0:0:3").unwrap(), "1:0:0:2::3");
    assert_eq!(validate_ip_address("1:0:0:2:0:0:3:4").unwrap(), "1::2:0:0:3:4");
    assert_eq!(validate_ip_address("1:0:2:3:4:5:6:7").unwrap(), "1:0:2:3:4:5:6:7");
    assert_eq!(validate_ip_address("::ffff:192.168.1.1").unwrap(), "::ffff:192.168.1.1");
    assert_eq!(validate_ip_address("0:0:0:0:0:ffff:c0a8:101").unwrap(), "::ffff:192.168.1.1");
    assert_eq!(validate_ip_address("::1.2.3.4").unwrap(), "::102:304");
    assert_eq!(validate_ip_address("1:2:3:4:5:6:7:0").unwrap(), "1:2:3:4:5:6:7:0");
    assert_eq!(validate_ip_address("1:2:3:4:5:6::").unwrap(), "1:2:3:4:5:6::");
    let text: String = format_ipv6(&vec![0xfe80, 0, 0, 0, 0, 0, 0, 0x10]).into_iter().collect();
    assert_eq!(text, "fe80::10");
}

#[test]
fn a_table_of_addresses_and_their_canonical_text() {
    let table: [(&str, Option<&str>); 37] = [
        ("1.1.1.1", Some("1.1.1.1")),
        ("8.8.4.4", Some("8.8.4.4")),
        ("0.0.0.0", Some("0.0.0.0")),
        ("255.255.255.255", Some("255.255.255.255")),
        ("192.168.001.1", None),
        ("1.2.3", None),
        ("::", Some("::")),
        ("::1", Some("::1")),
        ("1::", Some("1::")),
        ("2001:db8::1", Some("2001:db8::1")),
        ("2001:DB8:0:0:8:800:200C:417A", Some("2001:db8::8:800:200c:417a")),
        ("ff01::101", Some("ff01::101")),
        ("::ffff:10.0.0.1", Some("::ffff:10.0.0.1")),
        ("::10.0.0.1", Some("::a00:1")),
        ("1:2:3:4:5:6:7:8", Some("1:2:3:4:5:6:7:8")),
        ("1:2:3:4:5:6:77.77.88.88", Some("1:2:3:4:5:6:4d4d:5858")),
        ("0:0:0:0:0:0:0:0", Some("::")),
        ("1:0:0:0:0:0:0:0", Some("1::")),
        ("0:0:1:0:0:0:0:0", Some("0:0:1::")),
        ("0:0:1:0:0:1:0:0", Some("::1:0:0:1:0:0")),
        ("1:2:3:4::5:6:7", Some("1:2:3:4:0:5:6:7")),
        ("1:2:3:4:5:6:7::", Some("1:2:3:4:5:6:7:0")),
        ("::1:2:3:4:5:6:7", Some("0:1:2:3:4:5:6:7")),
        ("1::2:3:4:5:6:7:8", None),
        ("::g", None),
        ("1:2", None),
        ("hello", None),
        ("1.1.1.1; rm -rf /", None),
        ("", None),
        (" ", None),
        ("::ffff:0:0", Some("::ffff:0.0.0.0")),
        ("0:0:0:0:0:ffff::", Some("::ffff:0.0.0.0")),
        ("64:ff9b::192.0.2.33", Some("64:ff9b::c000:221")),
        ("a:b:c:d:e:f:0:1", Some("a:b:c:d:e:f:0:1")),
        ("00001::", None),
        ("1:2:3:4:5:6:7:8:", None),
        (":1:2:3:4:5:6:7:8", None),
    ];
    for (sample, expected) in table {
        let got = validate_ip_address(sample).ok();
        assert_eq!(got.as_deref(), expected, "{:?}", sample);
        if let Some(canonical) = got {
            // Validating once more changes nothing, and neither does sanitizing.
            assert_eq!(validate_ip_address(&canonical).unwrap(), canonical);
            assert_eq!(sanitize_powershell_arg(&canonical), canonical);
        }
    }
}

#[test]
fn canonical_text_is_read_back_as_itself() {
    for sample in [
        "1.2.3.4", "::", "::1", "1::", "2001:db8::8:800:200c:417a", "::ffff:10.0.0.1",
        "1:2:3:4:0:5:6:7", "::1:0:0:1:0:0", "0:0:1::", "64:ff9b::c000:221",
    ] {
        assert_eq!(validate_ip_address(sample).unwrap(), sample);
    }
}

#[test]
fn sanitizer_keeps_letters_digits_dots_colons_and_hyphens() {
    assert_eq!(sanitize_powershell_arg(""), "");
    assert_eq!(sanitize_powershell_arg("2001:db8::1"), "2001:db8::1");
    assert_eq!(sanitize_powershell_arg("a-b_c d'e\"f$g`h|i&j"), "a-bcdefghij");
    assert_eq!(sanitize_powershell_arg("ж1é2"), "12");
    assert_eq!(sanitize_powershell_arg("AZaz09.:-"), "AZaz09.:-");
    assert_eq!(sanitize_powershell_arg("-"), "-");
    assert_eq!(sanitize_powershell_arg("--x--"), "--x--");
    assert_eq!(sanitize_powershell_arg("\u{2010}\u{2212}_+,;"), "");
}

#[test]
fn sanitizing_twice_changes_nothing_more() {
    for sample in ["1.1.1.1; rm -rf /", "", "::1", "$(whoami)", "a b c", "ж.:-"] {
        let once = sanitize_powershell_arg(sample);
        assert_eq!(sanitize_powershell_arg(&once), once);
    }
}

#[test]
fn a_pair_passes_only_as_a_whole() {
    let pair = validate_dns_pair(" 1.1.1.1 ", "2001:DB8::1").unwrap();
    assert_eq!(pair, ("1.1.1.1".to_string(), "2001:db8::1".to_string()));
    match validate_dns_pair("1.1.1.1", "bad") {
        Err(DnsError::InvalidIpAddress(text)) => assert_eq!(text, "bad"),
        other => panic!("unexpected: {:?}", other),
    }
    match validate_dns_pair("worse", "bad") {
        Err(DnsError::InvalidIpAddress(text)) => assert_eq!(text, "worse"),
        other => panic!("unexpected: {:?}", other),
    }
    assert!(validate_dns_pair("bad", "1.1.1.1").is_err());
    assert!(validate_dns_pair("1.1.1.1", "").is_err());
}
