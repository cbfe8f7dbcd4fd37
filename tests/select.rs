use subconverter::num::read_number;
use subconverter::collect::MyData;
use subconverter::select::{
    filter_ports, keeps_port, page_size, select_page, target_of, tls_mode_of, Target, TlsMode,
};

fn ep(addr: &str, port: Option<u16>) -> MyData {
    MyData { addr: addr.to_string(), port, alias: String::new() }
}

#[test]
fn port_class_filter() {
    assert!(!keeps_port(Some(80), TlsMode::RequireTls));
    assert!(keeps_port(Some(80), TlsMode::RequirePlain));
    assert!(!keeps_port(Some(443), TlsMode::RequirePlain));
    assert!(keeps_port(Some(443), TlsMode::RequireTls));
    for mode in [TlsMode::RequireTls, TlsMode::RequirePlain, TlsMode::Any] {
        assert!(keeps_port(None, mode));
        assert!(keeps_port(Some(1234), mode));
    }
    assert!(!keeps_port(Some(8080), TlsMode::Any));
}

#[test]
fn modes_and_targets_are_read() {
    assert_eq!(tls_mode_of("true"), TlsMode::RequireTls);
    assert_eq!(tls_mode_of("1"), TlsMode::RequireTls);
    assert_eq!(tls_mode_of("0"), TlsMode::RequirePlain);
    assert_eq!(tls_mode_of("false"), TlsMode::RequirePlain);
    assert_eq!(tls_mode_of("all"), TlsMode::Any);
    assert_eq!(target_of("clash"), Target::Clash);
    assert_eq!(target_of("singbox"), Target::SingBox);
    assert_eq!(target_of("v2ray"), Target::Links);
    assert_eq!(target_of("surge"), Target::Unknown);
}

#[test]
fn page_sizes() {
    assert_eq!(page_size(Target::Clash, 300), 50);
    assert_eq!(page_size(Target::SingBox, 0), 50);
    assert_eq!(page_size(Target::SingBox, 150), 150);
    assert_eq!(page_size(Target::Links, 300), 300);
}

#[test]
fn filter_then_page() {
    let items = vec![
        ep("a", Some(443)),
        ep("b", Some(80)),
        ep("c", None),
        ep("d", Some(2053)),
        ep("e", Some(8443)),
    ];
    let kept = filter_ports(&items, TlsMode::RequireTls);
    let names: Vec<&str> = kept.iter().map(|d| d.addr.as_str()).collect();
    assert_eq!(names, vec!["a", "c", "d", "e"]);
    let p2 = select_page(&items, TlsMode::RequireTls, 3, 2);
    assert_eq!(p2.len(), 1);
    assert_eq!(p2[0].addr, "e");
    assert!(select_page(&items, TlsMode::RequireTls, 3, 3).is_empty());
    let plain = select_page(&items, TlsMode::RequirePlain, 10, 1);
    let names: Vec<&str> = plain.iter().map(|d| d.addr.as_str()).collect();
    assert_eq!(names, vec!["b", "c"]);
}

use subconverter::assemble::Params;

#[test]
fn query_parameters_apply() {
    let mut p = Params::new("v2ray");
    assert_eq!((p.node_count, p.page, p.userid, p.default_port), (300, 1, 0, 0));
    assert_eq!((p.tls_mode.as_str(), p.proxy_type.as_str()), ("all", "all"));
    p.apply("TARGET", "clash");
    assert_eq!(p.target, "clash");
    p.apply("n", "20");
    p.apply("nodecount", "x");
    assert_eq!(p.node_count, 20);
    p.apply("dport", "8443");
    p.apply("dport", "79");
    p.apply("defaultport", "65535");
    assert_eq!(p.default_port, 8443);
    p.apply("id", "3");
    p.apply("userid", "0");
    p.apply("id", "256");
    assert_eq!(p.userid, 3);
    p.apply("page", "0");
    assert_eq!(p.page, 1);
    p.apply("page", "4");
    p.apply("page", "x");
    assert_eq!(p.page, 4);
    p.apply("template", "false");
    assert!(!p.template);
    p.apply("template", "yes");
    assert!(p.template);
    p.apply("TLS", "TRUE");
    assert_eq!(p.tls_mode, "true");
    p.apply("mode", "0");
    assert_eq!(p.tls_mode, "false");
    p.apply("tls_mode", "maybe");
    assert_eq!(p.tls_mode, "false");
    p.apply("ProxyType", "vless");
    p.apply("column", "city");
    p.apply("source", "https://example.com/a.csv");
    p.apply("other", "x");
    assert_eq!(p.proxy_type, "vless");
    assert_eq!(p.column_name, "city");
    assert_eq!(p.data_source, "https://example.com/a.csv");
}

#[test]
fn numbers_are_read_within_limit() {
    let c = |s: &str| s.chars().collect::<Vec<char>>();
    assert_eq!(read_number(&c("255"), 255), Some(255));
    assert_eq!(read_number(&c("256"), 255), None);
    assert_eq!(read_number(&c("+7"), 255), Some(7));
    assert_eq!(read_number(&c("+"), 255), None);
    assert_eq!(read_number(&c(""), 255), None);
    assert_eq!(read_number(&c("-1"), 255), None);
    assert_eq!(read_number(&c("007"), 255), Some(7));
    assert_eq!(read_number(&c("18446744073709551615"), u64::MAX), Some(u64::MAX));
    assert_eq!(read_number(&c("18446744073709551616"), u64::MAX), None);
}
