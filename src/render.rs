//! Share links and JSON outbound nodes rendered from a template.
use vstd::prelude::*;
use base64::Engine;
use crate::num::{dec, dec_chars};
use crate::text::{chars_of, ends_with, has_suffix, push_all, push_str, same_str, string_of};
use crate::yaml::{
    fallback_from, flag_at, flag_at_path, get_yaml_value_with_fallback, json_quoted, json_string,
    keys_view, text_at, text_at_path, YamlValue,
};

verus! {

/// Standard base64 (padded) of the UTF-8 bytes of a text.
pub uninterp spec fn base64_of(s: Seq<char>) -> Seq<char>;

/// Relies on `base64::engine::general_purpose::STANDARD.encode`: standard alphabet, padded.
#[verifier::external_body]
fn base64_encode(s: &str) -> (r: String)
    ensures
        r@ == base64_of(s@),
{
    base64::engine::general_purpose::STANDARD.encode(s.as_bytes())
}

/// Percent-encoding of every UTF-8 byte but ASCII letters, digits and `-_.~`.
pub uninterp spec fn url_encoded(s: Seq<char>) -> Seq<char>;

/// Relies on `urlencoding::encode`.
#[verifier::external_body]
fn url_encode(s: &str) -> (r: String)
    ensures
        r@ == url_encoded(s@),
{
    urlencoding::encode(s).into_owned()
}

/// A query string of key-value pairs, as `serde_qs` writes a map of them.
pub uninterp spec fn query_of(pairs: Seq<(Seq<char>, Seq<char>)>) -> Seq<char>;

/// Relies on `serde_qs::to_string` on a `BTreeMap` of the pairs (empty on an error).
#[verifier::external_body]
fn query_string(pairs: &Vec<(String, String)>) -> (r: String)
    ensures
        r@ == query_of(pairs.deep_view()),
{
    let map: std::collections::BTreeMap<&str, &str> = pairs.iter().map(
        |p| (p.0.as_str(), p.1.as_str()),
    ).collect();
    serde_qs::to_string(&map).unwrap_or_default()
}

pub open spec fn path1(a: Seq<char>) -> Seq<Seq<char>> {
    seq![a]
}

pub open spec fn path2(a: Seq<char>, b: Seq<char>) -> Seq<Seq<char>> {
    seq![a, b]
}

pub open spec fn ws_host(t: YamlValue) -> Seq<char> {
    text_at(t, seq!["ws-opts"@, "headers"@, "Host"@])
}

pub open spec fn ws_path(t: YamlValue) -> Seq<char> {
    text_at(t, path2("ws-opts"@, "path"@))
}

pub open spec fn plugin_host(t: YamlValue) -> Seq<char> {
    text_at(t, path2("plugin-opts"@, "host"@))
}

pub open spec fn plugin_path(t: YamlValue) -> Seq<char> {
    text_at(t, path2("plugin-opts"@, "path"@))
}

/// Whether the plugin runs over TLS (`true` where the template does not say).
pub open spec fn plugin_tls(t: YamlValue) -> bool {
    flag_at(t, path2("plugin-opts"@, "tls"@))
}

pub open spec fn field_at(t: YamlValue, key: Seq<char>) -> Seq<char> {
    text_at(t, path1(key))
}

/// The first of two keys that holds text, or empty.
pub open spec fn either_text(t: YamlValue, a: Seq<char>, b: Seq<char>) -> Seq<char> {
    match fallback_from(t, seq![a, b], 0) {
        Some(s) => s,
        None => Seq::empty(),
    }
}

/// A host behind the plaintext-only provider.
pub open spec fn plain_host(host: Seq<char>) -> bool {
    ends_with(host, "workers.dev"@)
}

/// `=` written as `%3D`.
pub open spec fn escape_eq(s: Seq<char>) -> Seq<char>
    decreases s.len(),
{
    if s.len() == 0 {
        Seq::empty()
    } else if s.last() == '=' {
        escape_eq(s.drop_last()) + "%3D"@
    } else {
        escape_eq(s.drop_last()).push(s.last())
    }
}

fn escape_eq_of(s: &[char]) -> (r: Vec<char>)
    ensures
        r@ == escape_eq(s@),
{
    let mut out: Vec<char> = Vec::new();
    let mut i: usize = 0;
    assert(s@.take(0) =~= Seq::<char>::empty());
    while i < s.len()
        invariant
            i <= s@.len(),
            out@ == escape_eq(s@.take(i as int)),
        decreases s@.len() - i,
    {
        assert(s@.take(i as int + 1).drop_last() =~= s@.take(i as int));
        if s[i] == '=' {
            push_str(&mut out, "%3D");
        } else {
            out.push(s[i]);
        }
        i += 1;
    }
    assert(s@.take(i as int) =~= s@);
    out
}

/// The plugin options of a shadowsocks link.
pub open spec fn ss_plugin(t: YamlValue) -> Seq<char> {
    "v2ray-plugin;"@ + (if plugin_tls(t) {
        "tls;"@
    } else {
        Seq::empty()
    }) + "mux=0;mode=websocket;path="@ + plugin_path(t) + ";host="@ + plugin_host(t)
}

pub open spec fn ss_link(t: YamlValue, remarks: Seq<char>, addr: Seq<char>, port: u16) -> Seq<
    char,
> {
    "ss://"@ + base64_of("none:"@ + field_at(t, "password"@)) + "@"@ + addr + ":"@ + dec(
        port as nat,
    ) + "?plugin="@ + escape_eq(ss_plugin(t)) + "#"@ + remarks
}

/// Pairs whose value is not empty, in order.
pub open spec fn nonempty(ps: Seq<(Seq<char>, Seq<char>)>) -> Seq<(Seq<char>, Seq<char>)>
    decreases ps.len(),
{
    if ps.len() == 0 {
        Seq::empty()
    } else if ps.last().1.len() == 0 {
        nonempty(ps.drop_last())
    } else {
        nonempty(ps.drop_last()).push(ps.last())
    }
}

pub open spec fn security(host: Seq<char>) -> Seq<char> {
    if plain_host(host) {
        "none"@
    } else {
        "tls"@
    }
}

/// The query of a VLESS link, keys in sorted order.
pub open spec fn vless_params(t: YamlValue) -> Seq<(Seq<char>, Seq<char>)> {
    seq![
        ("allowInsecure"@, "1"@),
        ("encryption"@, "none"@),
        ("fp"@, field_at(t, "client-fingerprint"@)),
        ("host"@, ws_host(t)),
        ("path"@, ws_path(t)),
        ("security"@, security(ws_host(t))),
        ("sni"@, either_text(t, "sni"@, "servername"@)),
        ("type"@, field_at(t, "network"@)),
    ]
}

/// The query of a Trojan link, keys in sorted order.
pub open spec fn trojan_params(t: YamlValue) -> Seq<(Seq<char>, Seq<char>)> {
    seq![
        ("allowInsecure"@, "1"@),
        ("fp"@, field_at(t, "client-fingerprint"@)),
        ("host"@, ws_host(t)),
        ("path"@, ws_path(t)),
        ("security"@, security(ws_host(t))),
        ("sni"@, either_text(t, "sni"@, "servername"@)),
        ("type"@, field_at(t, "network"@)),
    ]
}

pub open spec fn vless_link(t: YamlValue, remarks: Seq<char>, addr: Seq<char>, port: u16) -> Seq<
    char,
> {
    "vless://"@ + field_at(t, "uuid"@) + "@"@ + addr + ":"@ + dec(port as nat) + "/?"@ + query_of(
        nonempty(vless_params(t)),
    ) + "#"@ + url_encoded(remarks)
}

pub open spec fn trojan_link(t: YamlValue, remarks: Seq<char>, addr: Seq<char>, port: u16) -> Seq<
    char,
> {
    "trojan://"@ + field_at(t, "password"@) + "@"@ + addr + ":"@ + dec(port as nat) + "/?"@
        + query_of(nonempty(trojan_params(t))) + "#"@ + url_encoded(remarks)
}

/// The share link of a template of kind `kind`; none for another kind.
pub open spec fn share_link(
    kind: Seq<char>,
    t: YamlValue,
    remarks: Seq<char>,
    addr: Seq<char>,
    port: u16,
) -> Option<Seq<char>> {
    if kind == "vless"@ {
        Some(vless_link(t, remarks, addr, port))
    } else if kind == "trojan"@ {
        Some(trojan_link(t, remarks, addr, port))
    } else if kind == "ss"@ {
        Some(ss_link(t, remarks, addr, port))
    } else {
        None
    }
}

fn text1(t: &YamlValue, key: &str) -> (r: String)
    ensures
        r@ == field_at(*t, key@),
{
    let keys = [key];
    assert(keys_view(keys@) =~= path1(key@));
    text_at_path(t, &keys)
}

fn text2(t: &YamlValue, a: &str, b: &str) -> (r: String)
    ensures
        r@ == text_at(*t, path2(a@, b@)),
{
    let keys = [a, b];
    assert(keys_view(keys@) =~= path2(a@, b@));
    text_at_path(t, &keys)
}

fn ws_host_of(t: &YamlValue) -> (r: String)
    ensures
        r@ == ws_host(*t),
{
    let keys = ["ws-opts", "headers", "Host"];
    assert(keys_view(keys@) =~= seq!["ws-opts"@, "headers"@, "Host"@]);
    text_at_path(t, &keys)
}

fn either_of(t: &YamlValue, a: &str, b: &str) -> (r: String)
    ensures
        r@ == either_text(*t, a@, b@),
{
    let keys = [a, b];
    assert(keys_view(keys@) =~= seq![a@, b@]);
    match get_yaml_value_with_fallback(t, &keys) {
        Some(s) => string_of(chars_of(s).as_slice()),
        None => String::new(),
    }
}

fn plain_host_of(host: &str) -> (r: bool)
    ensures
        r == plain_host(host@),
{
    has_suffix(chars_of(host).as_slice(), "workers.dev")
}

fn pair(k: &str, v: String) -> (r: (String, String))
    ensures
        r.0@ == k@,
        r.1@ == v@,
{
    (string_of(chars_of(k).as_slice()), v)
}

fn keep_nonempty(ps: &Vec<(String, String)>) -> (r: Vec<(String, String)>)
    ensures
        r.deep_view() == nonempty(ps.deep_view()),
{
    let ghost pv = ps.deep_view();
    let mut out: Vec<(String, String)> = Vec::new();
    let mut i: usize = 0;
    assert(out.deep_view() =~= nonempty(pv.take(0)));
    while i < ps.len()
        invariant
            i <= ps@.len(),
            pv == ps.deep_view(),
            out.deep_view() == nonempty(pv.take(i as int)),
        decreases ps@.len() - i,
    {
        assert(pv.take(i as int + 1).drop_last() =~= pv.take(i as int));
        assert(pv[i as int] == (ps@[i as int].0@, ps@[i as int].1@));
        if !ps[i].1.as_str().is_empty() {
            let p = (ps[i].0.clone(), ps[i].1.clone());
            let ghost before = out.deep_view();
            out.push(p);
            assert(out.deep_view() =~= before.push(pv[i as int]));
        }
        i += 1;
    }
    assert(pv.take(i as int) =~= pv);
    out
}

fn security_of(host: &str) -> (r: String)
    ensures
        r@ == security(host@),
{
    if plain_host_of(host) {
        string_of(chars_of("none").as_slice())
    } else {
        string_of(chars_of("tls").as_slice())
    }
}

fn build_ss_link(t: &YamlValue, remarks: &str, addr: &str, port: u16) -> (r: String)
    ensures
        r@ == ss_link(*t, remarks@, addr@, port),
{
    let path = text2(t, "plugin-opts", "path");
    let host = text2(t, "plugin-opts", "host");
    let keys = ["plugin-opts", "tls"];
    assert(keys_view(keys@) =~= path2("plugin-opts"@, "tls"@));
    let tls = flag_at_path(t, &keys);
    let password = text1(t, "password");
    let mut cred: Vec<char> = Vec::new();
    push_str(&mut cred, "none:");
    push_str(&mut cred, password.as_str());
    let encoded = base64_encode(string_of(cred.as_slice()).as_str());
    let mut plugin: Vec<char> = Vec::new();
    push_str(&mut plugin, "v2ray-plugin;");
    if tls {
        push_str(&mut plugin, "tls;");
    }
    push_str(&mut plugin, "mux=0;mode=websocket;path=");
    push_str(&mut plugin, path.as_str());
    push_str(&mut plugin, ";host=");
    push_str(&mut plugin, host.as_str());
    assert(plugin@ =~= ss_plugin(*t));
    let escaped = escape_eq_of(plugin.as_slice());
    let mut out: Vec<char> = Vec::new();
    push_str(&mut out, "ss://");
    push_str(&mut out, encoded.as_str());
    push_str(&mut out, "@");
    push_str(&mut out, addr);
    push_str(&mut out, ":");
    push_all(&mut out, dec_chars(port as u64).as_slice());
    push_str(&mut out, "?plugin=");
    push_all(&mut out, escaped.as_slice());
    push_str(&mut out, "#");
    push_str(&mut out, remarks);
    assert(out@ =~= ss_link(*t, remarks@, addr@, port));
    string_of(out.as_slice())
}

fn build_ws_link(
    scheme: &str,
    user: String,
    params: &Vec<(String, String)>,
    remarks: &str,
    addr: &str,
    port: u16,
) -> (r: String)
    ensures
        r@ == scheme@ + user@ + "@"@ + addr@ + ":"@ + dec(port as nat) + "/?"@ + query_of(
            nonempty(params.deep_view()),
        ) + "#"@ + url_encoded(remarks@),
{
    let kept = keep_nonempty(params);
    let query = query_string(&kept);
    let name = url_encode(remarks);
    let mut out: Vec<char> = Vec::new();
    push_str(&mut out, scheme);
    push_str(&mut out, user.as_str());
    push_str(&mut out, "@");
    push_str(&mut out, addr);
    push_str(&mut out, ":");
    push_all(&mut out, dec_chars(port as u64).as_slice());
    push_str(&mut out, "/?");
    push_str(&mut out, query.as_str());
    push_str(&mut out, "#");
    push_str(&mut out, name.as_str());
    string_of(out.as_slice())
}

fn build_vless_link(t: &YamlValue, remarks: &str, addr: &str, port: u16) -> (r: String)
    ensures
        r@ == vless_link(*t, remarks@, addr@, port),
{
    let host = ws_host_of(t);
    let mut ps: Vec<(String, String)> = Vec::new();
    ps.push(pair("allowInsecure", string_of(chars_of("1").as_slice())));
    ps.push(pair("encryption", string_of(chars_of("none").as_slice())));
    ps.push(pair("fp", text1(t, "client-fingerprint")));
    ps.push(pair("host", host.clone()));
    ps.push(pair("path", text2(t, "ws-opts", "path")));
    ps.push(pair("security", security_of(host.as_str())));
    ps.push(pair("sni", either_of(t, "sni", "servername")));
    ps.push(pair("type", text1(t, "network")));
    assert(ps.deep_view() =~= vless_params(*t));
    build_ws_link("vless://", text1(t, "uuid"), &ps, remarks, addr, port)
}

fn build_trojan_link(t: &YamlValue, remarks: &str, addr: &str, port: u16) -> (r: String)
    ensures
        r@ == trojan_link(*t, remarks@, addr@, port),
{
    let host = ws_host_of(t);
    let mut ps: Vec<(String, String)> = Vec::new();
    ps.push(pair("allowInsecure", string_of(chars_of("1").as_slice())));
    ps.push(pair("fp", text1(t, "client-fingerprint")));
    ps.push(pair("host", host.clone()));
    ps.push(pair("path", text2(t, "ws-opts", "path")));
    ps.push(pair("security", security_of(host.as_str())));
    ps.push(pair("sni", either_of(t, "sni", "servername")));
    ps.push(pair("type", text1(t, "network")));
    assert(ps.deep_view() =~= trojan_params(*t));
    build_ws_link("trojan://", text1(t, "password"), &ps, remarks, addr, port)
}

/// The share link of a template: `(remarks, link)`, or two empty strings for a kind other
/// than `vless`, `trojan` and `ss`.
pub fn build_v2ray_links(
    proxy_type: &str,
    yaml_value: &YamlValue,
    remarks: String,
    server_address: String,
    server_port: u16,
) -> (r: (String, String))
    ensures
        match share_link(proxy_type@, *yaml_value, remarks@, server_address@, server_port) {
            Some(l) => r.0@ == remarks@ && r.1@ == l,
            None => r.0@.len() == 0 && r.1@.len() == 0,
        },
{
    if same_str(proxy_type, "vless") {
        let link = build_vless_link(yaml_value, remarks.as_str(), server_address.as_str(), server_port);
        (remarks, link)
    } else if same_str(proxy_type, "trojan") {
        let link = build_trojan_link(yaml_value, remarks.as_str(), server_address.as_str(), server_port);
        (remarks, link)
    } else if same_str(proxy_type, "ss") {
        let link = build_ss_link(yaml_value, remarks.as_str(), server_address.as_str(), server_port);
        (remarks, link)
    } else {
        (String::new(), String::new())
    }
}

/// The plugin options of a shadowsocks node (always over TLS).
pub open spec fn ss_node_opts(t: YamlValue) -> Seq<char> {
    "tls;mux=0;mode=websocket;path="@ + plugin_path(t) + ";host="@ + plugin_host(t)
}

/// A shadowsocks outbound node, as pretty JSON with sorted keys.
pub open spec fn ss_node(t: YamlValue, remarks: Seq<char>, addr: Seq<char>, port: u16) -> Seq<
    char,
> {
    "{\n  \"method\": \"none\",\n  \"password\": "@ + json_quoted(field_at(t, "password"@))
        + ",\n  \"plugin\": \"v2ray-plugin\",\n  \"plugin_opts\": "@ + json_quoted(
        ss_node_opts(t),
    ) + ",\n  \"server\": "@ + json_quoted(addr) + ",\n  \"server_port\": "@ + dec(port as nat)
        + ",\n  \"tag\": "@ + json_quoted(remarks) + ",\n  \"type\": \"shadowsocks\"\n}"@
}

pub open spec fn flag_text(b: bool) -> Seq<char> {
    if b {
        "true"@
    } else {
        "false"@
    }
}

/// The body of a websocket outbound node from `"server"` to the `"type"` key; TLS is off
/// for a plaintext-only host.
pub open spec fn ws_node_body(
    t: YamlValue,
    sni: Seq<char>,
    remarks: Seq<char>,
    addr: Seq<char>,
    port: u16,
) -> Seq<char> {
    "  \"server\": "@ + json_quoted(addr) + ",\n  \"server_port\": "@ + dec(port as nat)
        + ",\n  \"tag\": "@ + json_quoted(remarks) + ",\n  \"tls\": {\n    \"enabled\": "@
        + flag_text(!plain_host(ws_host(t))) + ",\n    \"insecure\": true,\n    \"server_name\": "@
        + json_quoted(sni) + ",\n    \"utls\": {\n      \"enabled\": true,\n      \"fingerprint\": "@
        + json_quoted(field_at(t, "client-fingerprint"@))
        + "\n    }\n  },\n  \"transport\": {\n    \"early_data_header_name\": \"Sec-WebSocket-Protocol\",\n    \"headers\": {\n      \"Host\": "@
        + json_quoted(ws_host(t)) + "\n    },\n    \"path\": "@ + json_quoted(ws_path(t))
        + ",\n    \"type\": \"ws\"\n  },\n"@
}

/// A VLESS outbound node, as pretty JSON with sorted keys.
pub open spec fn vless_node(t: YamlValue, remarks: Seq<char>, addr: Seq<char>, port: u16) -> Seq<
    char,
> {
    "{\n  \"network\": \"tcp\",\n"@ + ws_node_body(
        t,
        either_text(t, "servername"@, "sni"@),
        remarks,
        addr,
        port,
    ) + "  \"type\": \"vless\",\n  \"uuid\": "@ + json_quoted(field_at(t, "uuid"@)) + "\n}"@
}

/// A Trojan outbound node, as pretty JSON with sorted keys.
pub open spec fn trojan_node(t: YamlValue, remarks: Seq<char>, addr: Seq<char>, port: u16) -> Seq<
    char,
> {
    "{\n  \"network\": \"tcp\",\n  \"password\": "@ + json_quoted(field_at(t, "password"@))
        + ",\n"@ + ws_node_body(t, either_text(t, "sni"@, "servername"@), remarks, addr, port)
        + "  \"type\": \"trojan\"\n}"@
}

/// The outbound node of a template of kind `kind`; none for another kind.
pub open spec fn outbound_node(
    kind: Seq<char>,
    t: YamlValue,
    remarks: Seq<char>,
    addr: Seq<char>,
    port: u16,
) -> Option<Seq<char>> {
    if kind == "vless"@ {
        Some(vless_node(t, remarks, addr, port))
    } else if kind == "trojan"@ {
        Some(trojan_node(t, remarks, addr, port))
    } else if kind == "ss"@ {
        Some(ss_node(t, remarks, addr, port))
    } else {
        None
    }
}

fn push_quoted(out: &mut Vec<char>, s: &str)
    ensures
        final(out)@ == old(out)@ + json_quoted(s@),
{
    let q = json_string(s);
    push_str(out, q.as_str());
}

fn build_ss_node(t: &YamlValue, remarks: &str, addr: &str, port: u16) -> (r: String)
    ensures
        r@ == ss_node(*t, remarks@, addr@, port),
{
    let mut opts: Vec<char> = Vec::new();
    push_str(&mut opts, "tls;mux=0;mode=websocket;path=");
    push_str(&mut opts, text2(t, "plugin-opts", "path").as_str());
    push_str(&mut opts, ";host=");
    push_str(&mut opts, text2(t, "plugin-opts", "host").as_str());
    assert(opts@ =~= ss_node_opts(*t));
    let mut out: Vec<char> = Vec::new();
    push_str(&mut out, "{\n  \"method\": \"none\",\n  \"password\": ");
    push_quoted(&mut out, text1(t, "password").as_str());
    push_str(&mut out, ",\n  \"plugin\": \"v2ray-plugin\",\n  \"plugin_opts\": ");
    push_quoted(&mut out, string_of(opts.as_slice()).as_str());
    push_str(&mut out, ",\n  \"server\": ");
    push_quoted(&mut out, addr);
    push_str(&mut out, ",\n  \"server_port\": ");
    push_all(&mut out, dec_chars(port as u64).as_slice());
    push_str(&mut out, ",\n  \"tag\": ");
    push_quoted(&mut out, remarks);
    push_str(&mut out, ",\n  \"type\": \"shadowsocks\"\n}");
    assert(out@ =~= ss_node(*t, remarks@, addr@, port));
    string_of(out.as_slice())
}

fn push_ws_body(out: &mut Vec<char>, t: &YamlValue, sni: &str, remarks: &str, addr: &str, port: u16)
    ensures
        final(out)@ == old(out)@ + ws_node_body(*t, sni@, remarks@, addr@, port),
{
    let host = ws_host_of(t);
    let mut body: Vec<char> = Vec::new();
    push_str(&mut body, "  \"server\": ");
    push_quoted(&mut body, addr);
    push_str(&mut body, ",\n  \"server_port\": ");
    push_all(&mut body, dec_chars(port as u64).as_slice());
    push_str(&mut body, ",\n  \"tag\": ");
    push_quoted(&mut body, remarks);
    push_str(&mut body, ",\n  \"tls\": {\n    \"enabled\": ");
    if plain_host_of(host.as_str()) {
        push_str(&mut body, "false");
    } else {
        push_str(&mut body, "true");
    }
    push_str(&mut body, ",\n    \"insecure\": true,\n    \"server_name\": ");
    push_quoted(&mut body, sni);
    push_str(&mut body, ",\n    \"utls\": {\n      \"enabled\": true,\n      \"fingerprint\": ");
    push_quoted(&mut body, text1(t, "client-fingerprint").as_str());
    push_str(
        &mut body,
        "\n    }\n  },\n  \"transport\": {\n    \"early_data_header_name\": \"Sec-WebSocket-Protocol\",\n    \"headers\": {\n      \"Host\": ",
    );
    push_quoted(&mut body, host.as_str());
    push_str(&mut body, "\n    },\n    \"path\": ");
    push_quoted(&mut body, text2(t, "ws-opts", "path").as_str());
    push_str(&mut body, ",\n    \"type\": \"ws\"\n  },\n");
    assert(body@ =~= ws_node_body(*t, sni@, remarks@, addr@, port));
    push_all(out, body.as_slice());
}

fn build_vless_node(t: &YamlValue, remarks: &str, addr: &str, port: u16) -> (r: String)
    ensures
        r@ == vless_node(*t, remarks@, addr@, port),
{
    let sni = either_of(t, "servername", "sni");
    let mut out: Vec<char> = Vec::new();
    push_str(&mut out, "{\n  \"network\": \"tcp\",\n");
    push_ws_body(&mut out, t, sni.as_str(), remarks, addr, port);
    push_str(&mut out, "  \"type\": \"vless\",\n  \"uuid\": ");
    push_quoted(&mut out, text1(t, "uuid").as_str());
    push_str(&mut out, "\n}");
    assert(out@ =~= vless_node(*t, remarks@, addr@, port));
    string_of(out.as_slice())
}

fn build_trojan_node(t: &YamlValue, remarks: &str, addr: &str, port: u16) -> (r: String)
    ensures
        r@ == trojan_node(*t, remarks@, addr@, port),
{
    let sni = either_of(t, "sni", "servername");
    let mut out: Vec<char> = Vec::new();
    push_str(&mut out, "{\n  \"network\": \"tcp\",\n  \"password\": ");
    push_quoted(&mut out, text1(t, "password").as_str());
    push_str(&mut out, ",\n");
    push_ws_body(&mut out, t, sni.as_str(), remarks, addr, port);
    push_str(&mut out, "  \"type\": \"trojan\"\n}");
    assert(out@ =~= trojan_node(*t, remarks@, addr@, port));
    string_of(out.as_slice())
}

/// The outbound node of a template: `(remarks, node)`, or two empty strings for a kind
/// other than `vless`, `trojan` and `ss`.
pub fn build_singbox_config_json(
    proxy_type: &str,
    yaml_value: &YamlValue,
    remarks: String,
    server_address: String,
    server_port: u16,
) -> (r: (String, String))
    ensures
        match outbound_node(proxy_type@, *yaml_value, remarks@, server_address@, server_port) {
            Some(n) => r.0@ == remarks@ && r.1@ == n,
            None => r.0@.len() == 0 && r.1@.len() == 0,
        },
{
    if same_str(proxy_type, "vless") {
        let node = build_vless_node(yaml_value, remarks.as_str(), server_address.as_str(), server_port);
        (remarks, node)
    } else if same_str(proxy_type, "trojan") {
        let node = build_trojan_node(yaml_value, remarks.as_str(), server_address.as_str(), server_port);
        (remarks, node)
    } else if same_str(proxy_type, "ss") {
        let node = build_ss_node(yaml_value, remarks.as_str(), server_address.as_str(), server_port);
        (remarks, node)
    } else {
        (String::new(), String::new())
    }
}

} // verus!
