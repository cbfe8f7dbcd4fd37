use subconverter::assemble::{
    build_full_subscribe, gather, sorting_data_and_build_subscribe, Params, Subscription,
};
use subconverter::collect::MyData;
use subconverter::select::Target;
use subconverter::overlay::lay_over;
use subconverter::yaml::{to_json, YamlValue};

fn text(s: &str) -> YamlValue {
    YamlValue::Text(s.to_string())
}

fn vless() -> YamlValue {
    YamlValue::Mapping(vec![
        ("name".to_string(), text("t")),
        ("type".to_string(), text("vless")),
        ("server".to_string(), text("example.org")),
        ("port".to_string(), YamlValue::Number("443".to_string())),
        ("uuid".to_string(), text("u-1")),
    ])
}

fn params(target: &str, template: bool) -> Params {
    Params {
        target: target.to_string(),
        node_count: 300,
        default_port: 443,
        userid: 0,
        column_name: "colo".to_string(),
        template,
        proxy_type: "all".to_string(),
        tls_mode: "all".to_string(),
        data_source: "./data".to_string(),
        page: 1,
    }
}

fn ready(s: Subscription) -> Option<String> {
    match s {
        Subscription::Ready(t) => Some(t),
        Subscription::Overlay(..) => None,
    }
}

fn ep(addr: &str) -> MyData {
    MyData { addr: addr.to_string(), port: Some(443), alias: String::new() }
}

const BASE: &str = "proxies:\n  - {name: placeholder, server: 127.0.0.1, port: 443, type: vless}\nproxy-groups:\n  - name: auto\n    type: select\n    proxies:\n      - 127.0.0.1:1080\n";

fn entry(addr: &str) -> String {
    format!(
        "  - {{\"name\":\"[1] {a}:443\",\"type\":\"vless\",\"server\":\"{a}\",\"port\":443,\"uuid\":\"u-1\"}}",
        a = addr
    )
}

#[test]
fn overlay_gets_two_entries_and_two_names() {
    let pool = YamlValue::Sequence(vec![vless()]);
    let endpoints = vec![ep("1.1.1.1"), ep("2.2.2.2")];
    let out = ready(sorting_data_and_build_subscribe(&pool, &params("clash", true), &endpoints, BASE)).unwrap();
    let expected = format!(
        "proxies:\n{}\n{}\nproxy-groups:\n  - name: auto\n    type: select\n    proxies:\n      - [1] 1.1.1.1:443\n      - [1] 2.2.2.2:443\n",
        entry("1.1.1.1"),
        entry("2.2.2.2")
    );
    assert_eq!(out, expected);
}

#[test]
fn bare_proxies_block_without_overlay() {
    let pool = YamlValue::Sequence(vec![vless()]);
    let endpoints = vec![ep("1.1.1.1")];
    let out = ready(sorting_data_and_build_subscribe(&pool, &params("clash", false), &endpoints, "")).unwrap();
    assert_eq!(out, format!("proxies:\n{}", entry("1.1.1.1")));
}

#[test]
fn nothing_synthesised_gives_empty_payload() {
    let pool = YamlValue::Sequence(vec![]);
    let out = sorting_data_and_build_subscribe(&pool, &params("v2ray", false), &vec![ep("1.1.1.1")], "");
    assert_eq!(ready(out), Some(String::new()));
    let none = sorting_data_and_build_subscribe(&YamlValue::Sequence(vec![vless()]), &params("v2ray", false), &vec![], "");
    assert_eq!(ready(none), Some(String::new()));
}

#[test]
fn json_overlay_is_handed_back() {
    let pool = YamlValue::Sequence(vec![vless()]);
    let endpoints = vec![ep("1.1.1.1"), ep("2.2.2.2")];
    match sorting_data_and_build_subscribe(&pool, &params("singbox", true), &endpoints, "") {
        Subscription::Overlay(names, nodes) => {
            assert_eq!(names, vec!["[1] 1.1.1.1:443".to_string(), "[1] 2.2.2.2:443".to_string()]);
            assert_eq!(nodes.len(), 2);
            assert!(nodes[0].contains("\"server\": \"1.1.1.1\""));
        }
        Subscription::Ready(_) => panic!("expected the overlay parts"),
    }
}

#[test]
fn gather_dedups_nodes_not_names() {
    let pairs = vec![
        ("a".to_string(), "n1".to_string()),
        ("b".to_string(), "n1".to_string()),
        ("a".to_string(), "n2".to_string()),
        (String::new(), String::new()),
    ];
    let (names, nodes) = gather(&pairs, Target::Clash);
    assert_eq!(nodes, vec!["n1".to_string(), "n2".to_string()]);
    assert_eq!(names, vec!["a".to_string(), "b".to_string()]);
    let (names, _) = gather(&pairs, Target::Links);
    assert!(names.is_empty());
}

#[test]
fn links_are_joined_by_lines() {
    let nodes = vec!["l1".to_string(), "l2".to_string()];
    let out = build_full_subscribe(Target::Links, true, &vec![], &nodes, "");
    assert_eq!(out, Some("l1\nl2".to_string()));
}

#[test]
fn overlay_needs_names_and_document() {
    let nodes = vec!["  - {}".to_string()];
    assert_eq!(build_full_subscribe(Target::Clash, true, &vec![], &nodes, BASE), Some(String::new()));
    assert_eq!(
        build_full_subscribe(Target::Clash, true, &vec!["n".to_string()], &nodes, ""),
        Some(String::new())
    );
}

#[test]
fn block_without_name_is_kept() {
    let base = "  - {server: x}\n  - {name: a}\n      - 127.0.0.1:1080";
    let out = build_full_subscribe(
        Target::Clash,
        true,
        &vec!["n".to_string()],
        &vec!["E".to_string()],
        base,
    );
    assert_eq!(out, Some("  - {server: x}\nE\n      - n".to_string()));
}

#[test]
fn json_outbounds_document() {
    let nodes = vec!["{\n  \"a\": 1\n}".to_string(), "{\n  \"b\": 2\n}".to_string()];
    let out = build_full_subscribe(Target::SingBox, false, &vec![], &nodes, "");
    assert_eq!(
        out,
        Some("{\n  \"outbounds\": [\n    {\n      \"a\": 1\n    },\n    {\n      \"b\": 2\n    }\n  ]\n}".to_string())
    );
    assert_eq!(build_full_subscribe(Target::SingBox, true, &vec![], &nodes, ""), None);
}


fn obj(entries: Vec<(&str, YamlValue)>) -> YamlValue {
    YamlValue::Mapping(entries.into_iter().map(|(k, v)| (k.to_string(), v)).collect())
}

fn list(items: Vec<YamlValue>) -> YamlValue {
    YamlValue::Sequence(items)
}

#[test]
fn nodes_and_names_laid_over_base_document() {
    let base = obj(vec![
        ("log", obj(vec![("level", text("info"))])),
        (
            "outbounds",
            list(vec![
                obj(vec![("tag", text("select")), ("outbounds", list(vec![text("{all}"), text("direct")]))]),
                obj(vec![("tag", text("direct"))]),
                obj(vec![("tag", text("auto")), ("outbounds", list(vec![text("{all}")]))]),
            ]),
        ),
    ]);
    let nodes = vec![obj(vec![("tag", text("n1"))]), obj(vec![("tag", text("n2"))])];
    let names = vec!["a".to_string(), "b".to_string()];
    let out = lay_over(base, &names, nodes).unwrap();
    let json: String = to_json(&out).into_iter().collect();
    assert_eq!(
        json,
        "{\"log\":{\"level\":\"info\"},\"outbounds\":[{\"tag\":\"select\",\"outbounds\":[\"direct\",\"a\",\"b\"]},{\"tag\":\"direct\"},{\"tag\":\"n2\"},{\"tag\":\"n1\"},{\"tag\":\"auto\",\"outbounds\":[\"a\",\"b\"]}]}"
    );
}

#[test]
fn overlay_needs_names_and_an_object() {
    assert!(lay_over(obj(vec![]), &vec![], vec![]).is_none());
    assert!(lay_over(list(vec![]), &vec!["a".to_string()], vec![]).is_none());
    let kept = lay_over(obj(vec![("x", text("y"))]), &vec!["a".to_string()], vec![]).unwrap();
    assert_eq!(to_json(&kept).into_iter().collect::<String>(), "{\"x\":\"y\"}");
}
