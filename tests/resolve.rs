use actix_ipware::{read_candidates, read_element, HeaderView, IpWare};

fn chars(s: &str) -> Vec<char> {
    s.chars().collect()
}

fn text(v: &[char]) -> String {
    v.iter().collect()
}

fn resolve(cfg: &IpWare, headers: &HeaderView, strict: bool) -> (Option<String>, bool) {
    let (ip, trusted) = cfg.get_client_ip(headers, strict);
    (ip.map(|a| text(&a.host)), trusted)
}

fn forwarded(value: &str) -> HeaderView {
    let mut h = HeaderView::new();
    h.append("X-Forwarded-For", value);
    h
}

fn xff() -> IpWare {
    IpWare::empty().trust_header("x-forwarded-for")
}

#[test]
fn direct_connection_single_address() {
    let cfg = xff().proxy_count(Some(0));
    assert_eq!(resolve(&cfg, &forwarded("1.2.3.4"), true), (Some("1.2.3.4".to_string()), true));
}

#[test]
fn direct_connection_with_unparseable_entry() {
    // "fake" denotes no address but still counts as a position.
    let cfg = xff().proxy_count(Some(0));
    assert_eq!(resolve(&cfg, &forwarded("fake, 1.2.3.4"), true), (None, false));
    assert_eq!(resolve(&cfg, &forwarded("fake, 1.2.3.4"), false), (Some("1.2.3.4".to_string()), true));
}

#[test]
fn direct_connection_with_two_addresses() {
    let cfg = xff().proxy_count(Some(0));
    assert_eq!(resolve(&cfg, &forwarded("9.9.9.9, 1.2.3.4"), true), (None, false));
    assert_eq!(resolve(&cfg, &forwarded("9.9.9.9, 1.2.3.4"), false), (Some("1.2.3.4".to_string()), true));
}

#[test]
fn count_and_prefix_exact_chain() {
    let cfg = xff().proxy_count(Some(1)).trust_proxy("10.0.");
    assert_eq!(resolve(&cfg, &forwarded("1.2.3.4, 10.0.0.1"), true), (Some("1.2.3.4".to_string()), true));
}

#[test]
fn count_and_prefix_untrusted_left_entry() {
    let cfg = xff().proxy_count(Some(1)).trust_proxy("10.0.");
    let h = forwarded("9.9.9.9, 1.2.3.4, 10.0.0.1");
    assert_eq!(resolve(&cfg, &h, true), (None, false));
    assert_eq!(resolve(&cfg, &h, false), (Some("1.2.3.4".to_string()), true));
}

#[test]
fn count_and_prefix_untrusted_proxy() {
    let cfg = xff().proxy_count(Some(1)).trust_proxy("10.0.");
    assert_eq!(resolve(&cfg, &forwarded("1.2.3.4, 11.0.0.1"), false), (None, false));
}

#[test]
fn loose_returns_leftmost_untrusted() {
    assert_eq!(resolve(&xff(), &forwarded("1.2.3.4, 5.6.7.8"), true), (Some("1.2.3.4".to_string()), false));
}

#[test]
fn loose_returns_non_routable_leftmost() {
    assert_eq!(resolve(&xff(), &forwarded("192.168.1.1, 5.6.7.8"), true), (Some("192.168.1.1".to_string()), false));
}

#[test]
fn headers_outside_trust_list_are_ignored() {
    let mut h = HeaderView::new();
    h.append("Via", "1.2.3.4");
    assert_eq!(resolve(&xff(), &h, true), (None, false));
}

#[test]
fn no_candidates() {
    assert_eq!(resolve(&xff(), &forwarded(""), true), (None, false));
    assert_eq!(resolve(&xff(), &HeaderView::new(), false), (None, false));
}

#[test]
fn proxy_count_too_few_addresses() {
    let cfg = xff().proxy_count(Some(2));
    assert_eq!(resolve(&cfg, &forwarded("1.2.3.4, 5.6.7.8"), false), (None, false));
}

#[test]
fn proxy_count_relaxed_picks_from_the_right() {
    let cfg = xff().proxy_count(Some(1));
    let h = forwarded("177.139.233.139, 198.84.193.157, 198.84.193.158");
    assert_eq!(resolve(&cfg, &h, false), (Some("198.84.193.157".to_string()), true));
    assert_eq!(resolve(&cfg, &h, true), (None, false));
}

#[test]
fn prefixes_peel_trusted_proxies() {
    let cfg = xff().trust_proxy("10.0.").trust_proxy("5.6.");
    let h = forwarded("1.2.3.4, 5.6.7.8, 10.0.0.1");
    assert_eq!(resolve(&cfg, &h, true), (Some("1.2.3.4".to_string()), true));
}

#[test]
fn prefixes_strict_rejects_untrusted_left() {
    let cfg = xff().trust_proxy("10.0.");
    let h = forwarded("9.9.9.9, 1.2.3.4, 10.0.0.1");
    assert_eq!(resolve(&cfg, &h, true), (None, false));
    assert_eq!(resolve(&cfg, &h, false), (Some("1.2.3.4".to_string()), true));
}

#[test]
fn prefixes_without_trusted_right_end() {
    let cfg = xff().trust_proxy("10.0.");
    assert_eq!(resolve(&cfg, &forwarded("1.2.3.4, 5.6.7.8"), false), (None, false));
}

#[test]
fn prefixes_all_trusted() {
    let cfg = xff().trust_proxy("10.0.");
    assert_eq!(resolve(&cfg, &forwarded("10.0.0.2, 10.0.0.1"), false), (None, false));
}

#[test]
fn prefixes_private_client_rejected() {
    let cfg = xff().trust_proxy("10.0.");
    assert_eq!(resolve(&cfg, &forwarded("192.168.0.1, 10.0.0.1"), false), (None, false));
}

#[test]
fn prefix_match_ignores_port() {
    let cfg = xff().trust_proxy("10.0.");
    let (ip, trusted) = cfg.get_client_ip(&forwarded("1.2.3.4:443, 10.0.0.1:80"), true);
    let ip = ip.unwrap();
    assert_eq!(text(&ip.host), "1.2.3.4");
    assert_eq!(ip.port, Some(443));
    assert!(trusted);
}

#[test]
fn header_names_match_without_case() {
    let mut h = HeaderView::new();
    h.append("x-FORWARDED-for", "1.2.3.4");
    assert_eq!(resolve(&xff(), &h, true), (Some("1.2.3.4".to_string()), false));
}

#[test]
fn header_values_are_concatenated() {
    let cfg = xff().proxy_count(Some(1));
    let mut h = HeaderView::new();
    h.append("X-Forwarded-For", "1.2.3.4");
    h.append("X-Forwarded-For", "5.6.7.8");
    assert_eq!(resolve(&cfg, &h, true), (Some("1.2.3.4".to_string()), true));
}

#[test]
fn later_header_consulted_when_first_yields_nothing() {
    let cfg = IpWare::empty().trust_header("x-forwarded-for").trust_header("x-real-ip");
    let mut h = HeaderView::new();
    h.append("X-Forwarded-For", "junk");
    h.append("X-Real-IP", "8.8.8.8");
    assert_eq!(resolve(&cfg, &h, true), (Some("8.8.8.8".to_string()), false));
}

#[test]
fn default_configuration_reads_forwarded_for() {
    let h = forwarded("8.8.4.4");
    assert_eq!(resolve(&IpWare::new(), &h, true), (Some("8.8.4.4".to_string()), false));
}

#[test]
fn same_call_twice_same_result() {
    let cfg = xff().proxy_count(Some(1)).trust_proxy("10.0.");
    let h = forwarded("9.9.9.9, 1.2.3.4, 10.0.0.1");
    assert_eq!(resolve(&cfg, &h, false), resolve(&cfg, &h, false));
    assert_eq!(resolve(&cfg, &h, true), resolve(&cfg, &h, true));
}

#[test]
fn trusted_results_always_hold_an_address() {
    let cfg = xff().proxy_count(Some(1));
    for v in ["", "junk", "1.2.3.4", "1.2.3.4, 5.6.7.8", "a, b, c"] {
        for strict in [true, false] {
            let (ip, trusted) = resolve(&cfg, &forwarded(v), strict);
            assert!(!trusted || ip.is_some());
        }
    }
}

#[test]
fn added_prefix_keeps_trusted_answer() {
    let h = forwarded("9.9.9.9, 1.2.3.4, 10.0.0.1");
    let before = xff().proxy_count(Some(1)).trust_proxy("10.0.");
    let after = xff().proxy_count(Some(1)).trust_proxy("10.0.").trust_proxy("9.9.");
    assert_eq!(resolve(&before, &h, false), (Some("1.2.3.4".to_string()), true));
    assert_eq!(resolve(&after, &h, false), (Some("1.2.3.4".to_string()), true));
    // strict: the untrusted left entry becomes trusted
    assert_eq!(resolve(&before, &h, true), (None, false));
    assert_eq!(resolve(&after, &h, true), (Some("1.2.3.4".to_string()), true));
}

fn hosts(v: &[Option<actix_ipware::Address>]) -> Vec<Option<String>> {
    v.iter().map(|e| e.as_ref().map(|x| text(&x.host))).collect()
}

#[test]
fn concatenation_matches_separate_values() {
    let a = read_candidates(&chars("1.2.3.4, junk"));
    let b = read_candidates(&chars(" [::1]:80,5.6.7.8"));
    let ab = read_candidates(&chars("1.2.3.4, junk, [::1]:80,5.6.7.8"));
    let mut joined = hosts(&a);
    joined.extend(hosts(&b));
    assert_eq!(hosts(&ab), joined);
    let s = |x: &str| Some(x.to_string());
    assert_eq!(hosts(&ab), vec![s("1.2.3.4"), None, s("::1"), s("5.6.7.8")]);
}

#[test]
fn candidates_keep_header_order() {
    let c = read_candidates(&chars("5.6.7.8, 1.2.3.4, 10.0.0.1"));
    let s = |x: &str| Some(x.to_string());
    assert_eq!(hosts(&c), vec![s("5.6.7.8"), s("1.2.3.4"), s("10.0.0.1")]);
}

#[test]
fn loose_skips_unparseable_leading_entry() {
    assert_eq!(resolve(&xff(), &forwarded("junk, 1.2.3.4"), true), (Some("1.2.3.4".to_string()), false));
}

#[test]
fn proxy_count_slot_holding_no_address() {
    let cfg = xff().proxy_count(Some(1));
    assert_eq!(resolve(&cfg, &forwarded("junk, 10.0.0.1"), true), (None, false));
    assert_eq!(resolve(&cfg, &forwarded("1.2.3.4, junk, 10.0.0.1"), false), (None, false));
}

#[test]
fn unparseable_entry_is_never_a_trusted_proxy() {
    let cfg = xff().trust_proxy("");
    assert_eq!(resolve(&cfg, &forwarded("1.2.3.4, junk"), false), (None, false));
    let cfg = xff().proxy_count(Some(1)).trust_proxy("1");
    assert_eq!(resolve(&cfg, &forwarded("1.2.3.4, junk"), false), (None, false));
}

#[test]
fn element_forms() {
    let a = read_element(&chars("  8.8.8.8  ")).unwrap();
    assert_eq!((text(&a.host), a.port, a.routable), ("8.8.8.8".to_string(), None, true));
    let a = read_element(&chars("8.8.8.8:53")).unwrap();
    assert_eq!((text(&a.host), a.port), ("8.8.8.8".to_string(), Some(53)));
    let a = read_element(&chars("[2001:db8::1]:8080")).unwrap();
    assert_eq!((text(&a.host), a.port, a.routable), ("2001:db8::1".to_string(), Some(8080), true));
    let a = read_element(&chars("[::1]")).unwrap();
    assert_eq!((text(&a.host), a.port, a.routable), ("::1".to_string(), None, false));
    let a = read_element(&chars("2001:db8:0:0:0:0:0:1")).unwrap();
    assert_eq!((text(&a.host), a.port), ("2001:db8:0:0:0:0:0:1".to_string(), None));
    let a = read_element(&chars("fe80::1")).unwrap();
    assert!(!a.routable);
    let a = read_element(&chars("::")).unwrap();
    assert!(!a.routable);
}

#[test]
fn rejected_elements() {
    for bad in ["", "fake", "1.2.3", "1.2.3.4.5", "256.1.1.1", "01.2.3.4", "1.2.3.4:", "1.2.3.4:70000",
        "[::1", "[::1]x", "1::2::3", "12345::1", "1:2:3:4:5:6:7:8:9", "[1.2.3.4]"] {
        assert!(read_element(&chars(bad)).is_none(), "{}", bad);
    }
}

#[test]
fn routability_classes() {
    for (addr, routable) in [("127.0.0.1", false), ("10.1.2.3", false), ("172.16.0.1", false),
        ("172.32.0.1", true), ("192.168.5.5", false), ("169.254.1.1", false), ("0.0.0.0", false),
        ("100.64.0.1", false), ("224.0.0.1", false), ("255.255.255.255", false), ("1.2.3.4", true),
        ("fc00::1", false), ("fd12::1", false), ("ff02::1", false), ("2606:4700::1111", true),
        ("0:0:0:0:0:0:0:1", false), ("::2", true)] {
        assert_eq!(read_element(&chars(addr)).unwrap().routable, routable, "{}", addr);
    }
}

#[test]
fn default_matches_new() {
    let h = forwarded("8.8.4.4, 1.1.1.1");
    assert_eq!(resolve(&IpWare::default(), &h, true), resolve(&IpWare::new(), &h, true));
}
