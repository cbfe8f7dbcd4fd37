//! Node synthesis: one endpoint, a pool of templates, a bounded number of attempts.
use vstd::prelude::*;
use rand::Rng;
use crate::num::{dec, dec_chars, padded_chars, zero_pad};
use crate::render::{
    build_singbox_config_json, build_v2ray_links, outbound_node, plain_host, plugin_tls, share_link, ws_host,
};
use crate::select::{
    is_plain_port, is_tls_port, plain_port, plain_port_at, tls_port, tls_port_at, Target,
    TlsMode, PLAIN_PORT_COUNT, TLS_PORT_COUNT,
};
use crate::text::{chars_of, push_all, push_str, same_str, string_of};
use crate::yaml::{
    clash_json, clash_json_of, field_text, field_text_of, flag_at_path, keys_view, text_at_path,
    YamlValue,
};

verus! {

/// How many times synthesis tries before it gives up on an endpoint.
pub const ATTEMPTS: usize = 200;

/// Relies on `rand::thread_rng().gen_range(0..n)`: a number below `n` (the range is not
/// empty).
#[verifier::external_body]
fn random_below(n: usize) -> (r: usize)
    requires
        n > 0,
    ensures
        r < n,
{
    rand::thread_rng().gen_range(0..n)
}

/// The protocol tag of a template.
pub open spec fn kind_of(t: YamlValue) -> Seq<char> {
    field_text(t, "type"@)
}

pub open spec fn supported(kind: Seq<char>) -> bool {
    kind == "ss"@ || kind == "vless"@ || kind == "trojan"@
}

/// The port after reconciling it with what the template expects. The plugin family
/// (`ss`) follows its TLS flag; the header family follows its host: plaintext for a
/// plaintext-only provider, TLS otherwise. An unresolved port (0) or one of the wrong
/// class becomes the drawn port of the right class.
pub open spec fn reconcile(t: YamlValue, port: u16, tls_pick: u16, plain_pick: u16) -> u16 {
    if !supported(kind_of(t)) {
        port
    } else if kind_of(t) == "ss"@ {
        if plugin_tls(t) && (port == 0 || is_plain_port(port)) {
            tls_pick
        } else if !plugin_tls(t) && (port == 0 || is_tls_port(port)) {
            plain_pick
        } else {
            port
        }
    } else {
        if plain_host(ws_host(t)) && (port == 0 || is_tls_port(port)) {
            plain_pick
        } else if !plain_host(ws_host(t)) && (port == 0 || is_plain_port(port)) {
            tls_pick
        } else {
            port
        }
    }
}

/// A port that reconciling leaves as it is, whatever is drawn.
pub open spec fn settled(t: YamlValue, port: u16) -> bool {
    forall|a: u16, b: u16| #[trigger] reconcile(t, port, a, b) == port
}

/// A resolved port that the request or the template family does not accept.
pub open spec fn rejected(kind: Seq<char>, port: u16, mode: TlsMode) -> bool {
    (is_plain_port(port) && mode == TlsMode::RequireTls) || (is_tls_port(port) && mode
        == TlsMode::RequirePlain) || (kind == "ss"@ && is_plain_port(port))
}

/// The name of a node: `[label] alias | address:port` (the alias part left out when the
/// alias is empty), the label the 1-based index zero-padded to the digits of the pool size.
pub open spec fn display_name(
    index: int,
    len: int,
    alias: Seq<char>,
    addr: Seq<char>,
    port: u16,
) -> Seq<char> {
    "["@ + zero_pad(dec((index + 1) as nat), dec(len as nat).len()) + "] "@ + (if alias.len() == 0 {
        Seq::empty()
    } else {
        alias + " | "@
    }) + addr + ":"@ + dec(port as nat)
}

/// What a template renders to for the target.
pub open spec fn rendered(
    target: Target,
    kind: Seq<char>,
    t: YamlValue,
    name: Seq<char>,
    addr: Seq<char>,
    port: u16,
) -> Option<Seq<char>> {
    match target {
        Target::Links => share_link(kind, t, name, addr, port),
        Target::Clash => Some("  - "@ + clash_json(t, name, addr, port)),
        Target::SingBox => outbound_node(kind, t, name, addr, port),
        Target::Unknown => None,
    }
}

/// One attempt with template `t` at `index` and the reconciled port: `None` to try again,
/// `Some(None)` to give up, `Some(Some((name, node)))` on success.
pub open spec fn attempt_result(
    t: YamlValue,
    index: int,
    len: int,
    alias: Seq<char>,
    addr: Seq<char>,
    port: u16,
    target: Target,
    filter: Seq<char>,
    mode: TlsMode,
) -> Option<Option<(Seq<char>, Seq<char>)>> {
    let kind = kind_of(t);
    if !supported(kind) || rejected(kind, port, mode) || !(filter == kind || filter == "all"@) {
        None
    } else {
        match rendered(target, kind, t, display_name(index, len, alias, addr, port), addr, port) {
            Some(node) => Some(Some((display_name(index, len, alias, addr, port), node))),
            None => Some(None),
        }
    }
}

fn kind_of_template(t: &YamlValue) -> (r: String)
    ensures
        r@ == kind_of(*t),
{
    field_text_of(t, "type")
}

fn supported_kind(kind: &str) -> (r: bool)
    ensures
        r == supported(kind@),
{
    same_str(kind, "ss") || same_str(kind, "vless") || same_str(kind, "trojan")
}

/// The port reconciled with template `t`, given one drawn port of each class.
pub fn reconcile_port(t: &YamlValue, port: u16, tls_pick: u16, plain_pick: u16) -> (r: u16)
    ensures
        r == reconcile(*t, port, tls_pick, plain_pick),
{
    let kind = kind_of_template(t);
    if !supported_kind(kind.as_str()) {
        return port;
    }
    if same_str(kind.as_str(), "ss") {
        let keys = ["plugin-opts", "tls"];
        assert(keys_view(keys@) =~= seq!["plugin-opts"@, "tls"@]);
        let tls = flag_at_path(t, &keys);
        if tls && (port == 0 || plain_port(port)) {
            tls_pick
        } else if !tls && (port == 0 || tls_port(port)) {
            plain_pick
        } else {
            port
        }
    } else {
        let keys = ["ws-opts", "headers", "Host"];
        assert(keys_view(keys@) =~= seq!["ws-opts"@, "headers"@, "Host"@]);
        let host = text_at_path(t, &keys);
        let plain = crate::text::has_suffix(chars_of(host.as_str()).as_slice(), "workers.dev");
        if plain && (port == 0 || tls_port(port)) {
            plain_pick
        } else if !plain && (port == 0 || plain_port(port)) {
            tls_pick
        } else {
            port
        }
    }
}

fn name_of(index: usize, len: usize, alias: &str, addr: &str, port: u16) -> (r: String)
    requires
        index < len,
    ensures
        r@ == display_name(index as int, len as int, alias@, addr@, port),
{
    let width = dec_chars(len as u64).len();
    let label = padded_chars(index as u64 + 1, width);
    let mut out: Vec<char> = Vec::new();
    push_str(&mut out, "[");
    push_all(&mut out, label.as_slice());
    push_str(&mut out, "] ");
    if !alias.is_empty() {
        push_str(&mut out, alias);
        push_str(&mut out, " | ");
    }
    push_str(&mut out, addr);
    push_str(&mut out, ":");
    push_all(&mut out, dec_chars(port as u64).as_slice());
    assert(out@ =~= display_name(index as int, len as int, alias@, addr@, port));
    string_of(out.as_slice())
}

pub open spec fn pair_view(r: Option<Option<(String, String)>>) -> Option<Option<(Seq<char>, Seq<char>)>> {
    match r {
        None => None,
        Some(None) => Some(None),
        Some(Some((a, b))) => Some(Some((a@, b@))),
    }
}

/// One attempt, with the port already reconciled.
pub fn attempt(
    t: &YamlValue,
    index: usize,
    len: usize,
    alias: &str,
    addr: &str,
    port: u16,
    target: Target,
    filter: &str,
    mode: TlsMode,
) -> (r: Option<Option<(String, String)>>)
    requires
        index < len,
    ensures
        pair_view(r) == attempt_result(*t, index as int, len as int, alias@, addr@, port, target, filter@, mode),
{
    let kind = kind_of_template(t);
    if !supported_kind(kind.as_str()) {
        return None;
    }
    let ss = same_str(kind.as_str(), "ss");
    if (plain_port(port) && mode == TlsMode::RequireTls) || (tls_port(port) && mode
        == TlsMode::RequirePlain) || (ss && plain_port(port)) {
        return None;
    }
    if !(same_str(filter, kind.as_str()) || same_str(filter, "all")) {
        return None;
    }
    let name = name_of(index, len, alias, addr, port);
    let addr_s = string_of(chars_of(addr).as_slice());
    match target {
        Target::Links => {
            let (n, link) = build_v2ray_links(kind.as_str(), t, name, addr_s, port);
            Some(Some((n, link)))
        },
        Target::Clash => {
            let json = clash_json_of(t, name.as_str(), addr, port);
            let mut line: Vec<char> = Vec::new();
            push_str(&mut line, "  - ");
            push_all(&mut line, json.as_slice());
            Some(Some((name, string_of(line.as_slice()))))
        },
        Target::SingBox => {
            let (n, node) = build_singbox_config_json(kind.as_str(), t, name, addr_s, port);
            Some(Some((n, node)))
        },
        Target::Unknown => Some(None),
    }
}

/// The index that a fixed 1-based choice names, where it is within the pool.
pub open spec fn fixed_index(userid: u8, len: nat) -> Option<nat> {
    if 1 <= userid && userid as nat <= len {
        Some((userid - 1) as nat)
    } else {
        None
    }
}

/// Ports drawn for an attempt: one of the TLS class, one of the plaintext class.
pub open spec fn draws(a: u16, b: u16) -> bool {
    is_tls_port(a) && is_plain_port(b)
}

/// The ports that the running port can hold while synthesis tries: the endpoint's own,
/// or, where that one is unresolved (0) or of a class, any port of a class. A port of
/// neither class is never rewritten.
pub open spec fn reachable(q: u16, port: u16) -> bool {
    q == port || ((port == 0 || is_tls_port(port) || is_plain_port(port)) && (is_tls_port(q)
        || is_plain_port(q)))
}

/// One attempt with template `i` of `items`: the running port `q` reconciled with it using
/// the drawn ports `a` and `b`, then judged and rendered.
pub open spec fn outcome(
    items: Seq<YamlValue>,
    i: int,
    q: u16,
    a: u16,
    b: u16,
    alias: Seq<char>,
    addr: Seq<char>,
    target: Target,
    filter: Seq<char>,
    mode: TlsMode,
) -> Option<Option<(Seq<char>, Seq<char>)>> {
    attempt_result(
        items[i],
        i,
        items.len() as int,
        alias,
        addr,
        reconcile(items[i], q, a, b),
        target,
        filter,
        mode,
    )
}

pub open spec fn no_pair() -> (Seq<char>, Seq<char>) {
    (Seq::empty(), Seq::empty())
}

/// The node of a successful attempt, or two empty strings.
pub open spec fn as_pair(o: Option<Option<(Seq<char>, Seq<char>)>>) -> (Seq<char>, Seq<char>) {
    match o {
        Some(Some(p)) => p,
        _ => no_pair(),
    }
}

/// Every template, with the endpoint's own port and whatever is drawn, gives a node.
pub open spec fn all_succeed(
    items: Seq<YamlValue>,
    port: u16,
    alias: Seq<char>,
    addr: Seq<char>,
    target: Target,
    filter: Seq<char>,
    mode: TlsMode,
) -> bool {
    forall|i: int, a: u16, b: u16|
        0 <= i < items.len() && draws(a, b) ==> #[trigger] outcome(
            items,
            i,
            port,
            a,
            b,
            alias,
            addr,
            target,
            filter,
            mode,
        ) matches Some(Some(_))
}

/// What synthesis returns for an endpoint (`alias`, `addr`, `port`) and a pool:
/// - two empty strings when the pool is no list or an empty one;
/// - otherwise two empty strings or the node of one attempt, with some template, a
///   reachable running port and drawn ports of the right classes; two empty strings when
///   no such attempt gives a node;
/// - the node of an attempt with the endpoint's own port when every template gives one
///   whatever is drawn (the first attempt cannot fail);
/// - with a fixed template, exactly what an attempt with it and the endpoint's own port
///   gives, for some drawn ports; for a port the template keeps, what it gives.
pub open spec fn synthesis(
    pool: YamlValue,
    alias: Seq<char>,
    addr: Seq<char>,
    port: u16,
    userid: u8,
    target: Target,
    filter: Seq<char>,
    mode: TlsMode,
    r: (Seq<char>, Seq<char>),
) -> bool {
    match pool {
        YamlValue::Sequence(items) => {
            let xs = items@;
            &&& xs.len() == 0 ==> r == no_pair()
            &&& r == no_pair() || exists|i: int, q: u16, a: u16, b: u16|
                0 <= i < xs.len() && reachable(q, port) && draws(a, b) && #[trigger] outcome(
                    xs,
                    i,
                    q,
                    a,
                    b,
                    alias,
                    addr,
                    target,
                    filter,
                    mode,
                ) == Some(Some(r))
            &&& (forall|i: int, q: u16, a: u16, b: u16|
                0 <= i < xs.len() && reachable(q, port) && draws(a, b) ==> !(#[trigger] outcome(
                    xs,
                    i,
                    q,
                    a,
                    b,
                    alias,
                    addr,
                    target,
                    filter,
                    mode,
                ) matches Some(Some(_)))) ==> r == no_pair()
            &&& xs.len() > 0 && all_succeed(xs, port, alias, addr, target, filter, mode) ==> exists|
                i: int,
                a: u16,
                b: u16,
            |
                0 <= i < xs.len() && draws(a, b) && #[trigger] outcome(
                    xs,
                    i,
                    port,
                    a,
                    b,
                    alias,
                    addr,
                    target,
                    filter,
                    mode,
                ) == Some(Some(r))
            &&& fixed_index(userid, xs.len()) is Some ==> exists|a: u16, b: u16|
                draws(a, b) && r == as_pair(
                    #[trigger] outcome(
                        xs,
                        userid - 1,
                        port,
                        a,
                        b,
                        alias,
                        addr,
                        target,
                        filter,
                        mode,
                    ),
                )
            &&& fixed_index(userid, xs.len()) is Some && settled(xs[userid - 1], port) ==> r
                == as_pair(
                attempt_result(
                    xs[userid - 1],
                    userid - 1,
                    xs.len() as int,
                    alias,
                    addr,
                    port,
                    target,
                    filter,
                    mode,
                ),
            )
        },
        _ => r == no_pair(),
    }
}

/// Reconciling a reconciled port changes nothing.
pub proof fn lemma_reconcile_stable(t: YamlValue, q: u16, a: u16, b: u16, a2: u16, b2: u16)
    requires
        draws(a, b),
        draws(a2, b2),
    ensures
        reconcile(t, reconcile(t, q, a, b), a2, b2) == reconcile(t, q, a, b),
{
}

/// Reconciling keeps the running port reachable.
pub proof fn lemma_reconcile_reachable(t: YamlValue, q: u16, port: u16, a: u16, b: u16)
    requires
        reachable(q, port),
        draws(a, b),
    ensures
        reachable(reconcile(t, q, a, b), port),
{
}

/// Synthesises a node for one endpoint from a pool of templates: up to `ATTEMPTS` times,
/// a template is chosen (the fixed one where `userid` names one, else at random), the
/// running port reconciled with it, and the result kept if the mode, the template family
/// and the protocol filter accept it. Returns `(name, node)`, or two empty strings (see
/// `synthesis`).
pub fn subconvert(
    csv_alias: &str,
    csv_addr: &str,
    port: u16,
    pool: &YamlValue,
    target: Target,
    proxy_type: &str,
    tls_mode: TlsMode,
    userid: u8,
) -> (r: (String, String))
    ensures
        synthesis(
            *pool,
            csv_alias@,
            csv_addr@,
            port,
            userid,
            target,
            proxy_type@,
            tls_mode,
            (r.0@, r.1@),
        ),
{
    let items = match pool {
        YamlValue::Sequence(items) => items,
        _ => {
            return (String::new(), String::new());
        },
    };
    let ghost xs = items@;
    let len = items.len();
    if len == 0 {
        return (String::new(), String::new());
    }
    let fixed = 1 <= userid && (userid as usize) <= len;
    let ghost fi: int = userid - 1;
    let ghost al = csv_alias@;
    let ghost ad = csv_addr@;
    let ghost fl = proxy_type@;
    let mut cur_port = port;
    let ghost mut fa: u16 = 443;
    let ghost mut fb: u16 = 80;
    let mut n: usize = 0;
    while n < ATTEMPTS
        invariant
            len == xs.len(),
            xs == items@,
            len > 0,
            *pool == YamlValue::Sequence(*items),
            fixed == (fixed_index(userid, len as nat) is Some),
            fi == userid - 1,
            al == csv_alias@,
            ad == csv_addr@,
            fl == proxy_type@,
            reachable(cur_port, port),
            n == 0 ==> cur_port == port,
            fixed && n > 0 ==> draws(fa, fb) && cur_port == reconcile(xs[fi], port, fa, fb)
                && outcome(xs, fi, port, fa, fb, al, ad, target, fl, tls_mode) is None,
            all_succeed(xs, port, al, ad, target, fl, tls_mode) ==> n == 0,
        decreases ATTEMPTS - n,
    {
        let index = if fixed {
            (userid - 1) as usize
        } else {
            random_below(len)
        };
        let tls_pick = tls_port_at(random_below(TLS_PORT_COUNT));
        let plain_pick = plain_port_at(random_below(PLAIN_PORT_COUNT));
        let t = &items[index];
        let ghost prev = cur_port;
        cur_port = reconcile_port(t, cur_port, tls_pick, plain_pick);
        let res = attempt(t, index, len, csv_alias, csv_addr, cur_port, target, proxy_type, tls_mode);
        proof {
            assert(draws(tls_pick, plain_pick));
            lemma_reconcile_reachable(xs[index as int], prev, port, tls_pick, plain_pick);
            assert(pair_view(res) == outcome(
                xs,
                index as int,
                prev,
                tls_pick,
                plain_pick,
                al,
                ad,
                target,
                fl,
                tls_mode,
            ));
            if fixed && n > 0 {
                lemma_reconcile_stable(xs[fi], port, fa, fb, tls_pick, plain_pick);
                assert(index == fi);
                assert(pair_view(res) is None);
            }
        }
        match res {
            Some(Some(found)) => {
                proof {
                    if fixed {
                        assert(n == 0);
                        assert((found.0@, found.1@) == as_pair(
                            outcome(xs, fi, port, tls_pick, plain_pick, al, ad, target, fl, tls_mode),
                        ));
                        if settled(xs[fi], port) {
                            assert(reconcile(xs[fi], port, tls_pick, plain_pick) == port);
                        }
                    }
                    if all_succeed(xs, port, al, ad, target, fl, tls_mode) {
                        assert(prev == port);
                    }
                }
                return found;
            },
            Some(None) => {
                proof {
                    if fixed {
                        assert(n == 0);
                        assert(no_pair() == as_pair(
                            outcome(xs, fi, port, tls_pick, plain_pick, al, ad, target, fl, tls_mode),
                        ));
                        if settled(xs[fi], port) {
                            assert(reconcile(xs[fi], port, tls_pick, plain_pick) == port);
                        }
                    }
                    if all_succeed(xs, port, al, ad, target, fl, tls_mode) {
                        assert(outcome(xs, index as int, port, tls_pick, plain_pick, al, ad, target, fl, tls_mode) matches Some(Some(_)));
                    }
                }
                return (String::new(), String::new());
            },
            None => {
                proof {
                    if fixed && n == 0 {
                        fa = tls_pick;
                        fb = plain_pick;
                    }
                    if all_succeed(xs, port, al, ad, target, fl, tls_mode) {
                        assert(outcome(xs, index as int, port, tls_pick, plain_pick, al, ad, target, fl, tls_mode) matches Some(Some(_)));
                    }
                }
            },
        }
        n += 1;
    }
    proof {
        if fixed {
            assert(no_pair() == as_pair(outcome(xs, fi, port, fa, fb, al, ad, target, fl, tls_mode)));
            if settled(xs[fi], port) {
                assert(reconcile(xs[fi], port, fa, fb) == port);
            }
        }
    }
    (String::new(), String::new())
}

} // verus!
