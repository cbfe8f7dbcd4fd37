use subconverter::node::{reconcile_port, subconvert};
use subconverter::render::{build_singbox_config_json, build_v2ray_links};
use subconverter::select::{Target, TlsMode};
use subconverter::yaml::{
    build_clash_yaml, get_yaml_value, get_yaml_value_with_fallback, to_json, YamlValue,
};

fn text(s: &str) -> YamlValue {
    YamlValue::Text(s.to_string())
}

fn map(entries: Vec<(&str, YamlValue)>) -> YamlValue {
    YamlValue::Mapping(entries.into_iter().map(|(k, v)| (k.to_string(), v)).collect())
}

fn vless(host: &str) -> YamlValue {
    map(vec![
        ("type", text("vless")),
        ("name", text("template")),
        ("server", text("example.org")),
        ("port", YamlValue::Number("443".to_string())),
        ("uuid", text("u-1")),
        ("network", text("ws")),
        ("client-fingerprint", text("chrome")),
        ("sni", text("s.example.com")),
        ("ws-opts", map(vec![("path", text("/p")), ("headers", map(vec![("Host", text(host))]))])),
    ])
}

fn ss(tls: bool) -> YamlValue {
    map(vec![
        ("type", text("ss")),
        ("password", text("pw")),
        (
            "plugin-opts",
            map(vec![
                ("host", text("h.example.com")),
                ("path", text("/ws")),
                ("tls", YamlValue::Bool(tls)),
            ]),
        ),
    ])
}

fn chars(v: Vec<char>) -> String {
    v.into_iter().collect()
}

#[test]
fn lookup_ignores_case_of_keys() {
    let t = vless("h.example.com");
    match get_yaml_value(&t, &["WS-OPTS", "headers", "host"]) {
        Some(YamlValue::Text(s)) => assert_eq!(s, "h.example.com"),
        _ => panic!("host not found"),
    }
    assert!(get_yaml_value(&t, &["ws-opts", "missing"]).is_none());
    assert!(get_yaml_value(&t, &["uuid", "deeper"]).is_none());
    assert_eq!(get_yaml_value_with_fallback(&t, &["servername", "sni"]), Some("s.example.com"));
    assert_eq!(get_yaml_value_with_fallback(&t, &["port", "nothing"]), None);
}

#[test]
fn json_of_a_template() {
    let t = map(vec![
        ("a", YamlValue::Sequence(vec![YamlValue::Null, YamlValue::Bool(false)])),
        ("b \"q\"", text("x\ny")),
    ]);
    assert_eq!(chars(to_json(&t)), "{\"a\":[null,false],\"b \\\"q\\\"\":\"x\\ny\"}");
}

#[test]
fn clash_fields_are_replaced() {
    let mut t = vless("h.example.com");
    build_clash_yaml(&mut t, "[1] a".to_string(), "1.2.3.4".to_string(), 2053);
    assert_eq!(
        chars(to_json(&t)),
        "{\"type\":\"vless\",\"name\":\"[1] a\",\"server\":\"1.2.3.4\",\"port\":2053,\"uuid\":\"u-1\",\"network\":\"ws\",\"client-fingerprint\":\"chrome\",\"sni\":\"s.example.com\",\"ws-opts\":{\"path\":\"/p\",\"headers\":{\"Host\":\"h.example.com\"}}}"
    );
}

#[test]
fn vless_link_exact() {
    let (name, link) = build_v2ray_links(
        "vless",
        &vless("h.example.com"),
        "[1] SJC | 1.2.3.4:443".to_string(),
        "1.2.3.4".to_string(),
        443,
    );
    assert_eq!(name, "[1] SJC | 1.2.3.4:443");
    assert_eq!(
        link,
        "vless://u-1@1.2.3.4:443/?allowInsecure=1&encryption=none&fp=chrome&host=h.example.com&path=/p&security=tls&sni=s.example.com&type=ws#%5B1%5D%20SJC%20%7C%201.2.3.4%3A443"
    );
}

#[test]
fn trojan_link_on_plain_host_drops_tls() {
    let mut t = vless("x.workers.dev");
    if let YamlValue::Mapping(es) = &mut t {
        es[0].1 = text("trojan");
        es.push(("password".to_string(), text("secret")));
    }
    let (_, link) = build_v2ray_links("trojan", &t, "n".to_string(), "1.2.3.4".to_string(), 8080);
    assert_eq!(
        link,
        "trojan://secret@1.2.3.4:8080/?allowInsecure=1&fp=chrome&host=x.workers.dev&path=/p&security=none&sni=s.example.com&type=ws#n"
    );
}

#[test]
fn ss_link_exact() {
    let (_, link) =
        build_v2ray_links("ss", &ss(true), "[1] 1.2.3.4:443".to_string(), "1.2.3.4".to_string(), 443);
    assert_eq!(
        link,
        "ss://bm9uZTpwdw==@1.2.3.4:443?plugin=v2ray-plugin;tls;mux%3D0;mode%3Dwebsocket;path%3D/ws;host%3Dh.example.com#[1] 1.2.3.4:443"
    );
    let (n, l) = build_v2ray_links("vmess", &ss(true), "x".to_string(), "a".to_string(), 1);
    assert!(n.is_empty() && l.is_empty());
}

#[test]
fn singbox_nodes_exact() {
    let (_, node) = build_singbox_config_json(
        "ss",
        &ss(true),
        "[1] 1.2.3.4:443".to_string(),
        "1.2.3.4".to_string(),
        443,
    );
    assert_eq!(node, "{\n  \"method\": \"none\",\n  \"password\": \"pw\",\n  \"plugin\": \"v2ray-plugin\",\n  \"plugin_opts\": \"tls;mux=0;mode=websocket;path=/ws;host=h.example.com\",\n  \"server\": \"1.2.3.4\",\n  \"server_port\": 443,\n  \"tag\": \"[1] 1.2.3.4:443\",\n  \"type\": \"shadowsocks\"\n}");
    let (_, node) = build_singbox_config_json(
        "vless",
        &vless("h.example.com"),
        "[1] SJC | 1.2.3.4:443".to_string(),
        "1.2.3.4".to_string(),
        443,
    );
    assert_eq!(node, "{\n  \"network\": \"tcp\",\n  \"server\": \"1.2.3.4\",\n  \"server_port\": 443,\n  \"tag\": \"[1] SJC | 1.2.3.4:443\",\n  \"tls\": {\n    \"enabled\": true,\n    \"insecure\": true,\n    \"server_name\": \"s.example.com\",\n    \"utls\": {\n      \"enabled\": true,\n      \"fingerprint\": \"chrome\"\n    }\n  },\n  \"transport\": {\n    \"early_data_header_name\": \"Sec-WebSocket-Protocol\",\n    \"headers\": {\n      \"Host\": \"h.example.com\"\n    },\n    \"path\": \"/p\",\n    \"type\": \"ws\"\n  },\n  \"type\": \"vless\",\n  \"uuid\": \"u-1\"\n}");
}

#[test]
fn ports_are_reconciled() {
    let plain_ports = [80, 8080, 8880, 2052, 2082, 2086, 2095];
    assert_eq!(reconcile_port(&vless("h.example.com"), 80, 2053, 8080), 2053);
    assert_eq!(reconcile_port(&vless("h.example.com"), 0, 2053, 8080), 2053);
    assert_eq!(reconcile_port(&vless("h.example.com"), 1234, 2053, 8080), 1234);
    assert_eq!(reconcile_port(&vless("a.workers.dev"), 443, 2053, 8080), 8080);
    assert_eq!(reconcile_port(&ss(true), 2095, 8443, 80), 8443);
    assert_eq!(reconcile_port(&ss(false), 443, 8443, 80), 80);
    assert!(plain_ports.contains(&reconcile_port(&ss(false), 0, 8443, 2052)));
}

fn pool(items: Vec<YamlValue>) -> YamlValue {
    YamlValue::Sequence(items)
}

#[test]
fn fixed_index_is_deterministic() {
    let p = pool(vec![ss(true), vless("h.example.com")]);
    let first = subconvert("SJC", "1.2.3.4", 443, &p, Target::Links, "all", TlsMode::Any, 2);
    for _ in 0..20 {
        let again = subconvert("SJC", "1.2.3.4", 443, &p, Target::Links, "all", TlsMode::Any, 2);
        assert_eq!(again, first);
    }
    assert_eq!(first.0, "[2] SJC | 1.2.3.4:443");
    assert!(first.1.starts_with("vless://u-1@1.2.3.4:443/?"));
}

#[test]
fn empty_or_incompatible_pool_gives_nothing() {
    let empty = (String::new(), String::new());
    assert_eq!(subconvert("", "1.2.3.4", 443, &pool(vec![]), Target::Links, "all", TlsMode::Any, 0), empty);
    assert_eq!(subconvert("", "1.2.3.4", 443, &YamlValue::Null, Target::Links, "all", TlsMode::Any, 0), empty);
    let vmess = map(vec![("type", text("vmess"))]);
    assert_eq!(subconvert("", "1.2.3.4", 443, &pool(vec![vmess]), Target::Links, "all", TlsMode::Any, 0), empty);
    assert_eq!(
        subconvert("", "1.2.3.4", 443, &pool(vec![vless("h.example.com")]), Target::Links, "trojan", TlsMode::Any, 0),
        empty
    );
    assert_eq!(
        subconvert("", "1.2.3.4", 443, &pool(vec![ss(false)]), Target::Links, "all", TlsMode::Any, 1),
        empty
    );
    assert_eq!(
        subconvert("", "1.2.3.4", 443, &pool(vec![vless("h.example.com")]), Target::Unknown, "all", TlsMode::Any, 1),
        empty
    );
}

#[test]
fn plain_host_under_tls_mode_is_rejected() {
    let p = pool(vec![vless("a.workers.dev")]);
    let r = subconvert("", "1.2.3.4", 0, &p, Target::Links, "all", TlsMode::RequireTls, 1);
    assert_eq!(r, (String::new(), String::new()));
    let r = subconvert("", "1.2.3.4", 0, &p, Target::Links, "all", TlsMode::RequirePlain, 1);
    assert!(r.1.contains("security=none"));
}

#[test]
fn random_choice_stays_in_pool() {
    let p = pool(vec![vless("h.example.com"), vless("h.example.com"), vless("h.example.com")]);
    for _ in 0..30 {
        let (name, link) = subconvert("", "1.2.3.4", 80, &p, Target::Links, "vless", TlsMode::Any, 0);
        assert!(name.starts_with("[1]") || name.starts_with("[2]") || name.starts_with("[3]"));
        let tls_ports = [443, 2053, 2083, 2087, 2096, 8443];
        assert!(tls_ports.iter().any(|q| name.ends_with(&format!(":{}", q))), "{}", name);
        assert!(link.starts_with("vless://"));
    }
}

#[test]
fn clash_entry_from_synthesis() {
    let p = pool(vec![vless("h.example.com")]);
    let (name, entry) = subconvert("", "1.2.3.4", 443, &p, Target::Clash, "all", TlsMode::Any, 1);
    assert_eq!(name, "[1] 1.2.3.4:443");
    assert_eq!(
        entry,
        "  - {\"type\":\"vless\",\"name\":\"[1] 1.2.3.4:443\",\"server\":\"1.2.3.4\",\"port\":443,\"uuid\":\"u-1\",\"network\":\"ws\",\"client-fingerprint\":\"chrome\",\"sni\":\"s.example.com\",\"ws-opts\":{\"path\":\"/p\",\"headers\":{\"Host\":\"h.example.com\"}}}"
    );
}

#[test]
fn label_is_zero_padded_to_pool_width() {
    let mut items = Vec::new();
    for _ in 0..12 {
        items.push(vless("h.example.com"));
    }
    let (name, _) = subconvert("", "1.2.3.4", 443, &pool(items), Target::Links, "all", TlsMode::Any, 3);
    assert_eq!(name, "[03] 1.2.3.4:443");
}

#[test]
fn compatible_pool_always_gives_a_node() {
    let p = pool(vec![vless("a.workers.dev"), vless("b.workers.dev")]);
    for _ in 0..20 {
        let (name, link) = subconvert("", "1.2.3.4", 80, &p, Target::Links, "all", TlsMode::RequirePlain, 0);
        assert!(name.ends_with(":80"), "{}", name);
        assert!(link.contains("security=none"));
    }
    let q = pool(vec![vless("h.example.com"), vless("g.example.com")]);
    for _ in 0..20 {
        let (name, _) = subconvert("", "1.2.3.4", 0, &q, Target::Links, "all", TlsMode::Any, 0);
        assert!(!name.is_empty());
    }
}

#[test]
fn port_of_neither_class_is_kept() {
    let p = pool(vec![vless("h.example.com"), ss(true)]);
    for _ in 0..20 {
        let (name, _) = subconvert("", "1.2.3.4", 12345, &p, Target::Links, "all", TlsMode::Any, 0);
        assert!(name.ends_with(":12345"), "{}", name);
    }
}

#[test]
fn fixed_template_with_unresolved_port_gives_a_node() {
    let p = pool(vec![ss(true), vless("h.example.com")]);
    let (name, _) = subconvert("", "1.2.3.4", 0, &p, Target::Links, "all", TlsMode::Any, 2);
    let tls_ports = [443, 2053, 2083, 2087, 2096, 8443];
    assert!(tls_ports.iter().any(|q| name == format!("[2] 1.2.3.4:{}", q)), "{}", name);
}
