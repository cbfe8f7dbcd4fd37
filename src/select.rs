//! Port classes, the TLS-mode filter, and pages.
use vstd::prelude::*;
use crate::collect::{endpoints_view, MyData, MyDataV};
use crate::text::same_str;

verus! {

/// Well-known ports of plaintext HTTP front ends.
pub open spec fn is_plain_port(p: u16) -> bool {
    p == 80 || p == 8080 || p == 8880 || p == 2052 || p == 2082 || p == 2086 || p == 2095
}

/// Well-known ports of TLS front ends.
pub open spec fn is_tls_port(p: u16) -> bool {
    p == 443 || p == 2053 || p == 2083 || p == 2087 || p == 2096 || p == 8443
}

pub fn plain_port(p: u16) -> (r: bool)
    ensures
        r == is_plain_port(p),
{
    p == 80 || p == 8080 || p == 8880 || p == 2052 || p == 2082 || p == 2086 || p == 2095
}

pub fn tls_port(p: u16) -> (r: bool)
    ensures
        r == is_tls_port(p),
{
    p == 443 || p == 2053 || p == 2083 || p == 2087 || p == 2096 || p == 8443
}

pub const PLAIN_PORT_COUNT: usize = 7;

pub const TLS_PORT_COUNT: usize = 6;

/// The plaintext-class port at position `i`.
pub fn plain_port_at(i: usize) -> (r: u16)
    requires
        i < PLAIN_PORT_COUNT,
    ensures
        is_plain_port(r),
{
    match i {
        0 => 80,
        1 => 8080,
        2 => 8880,
        3 => 2052,
        4 => 2082,
        5 => 2086,
        _ => 2095,
    }
}

/// The TLS-class port at position `i`.
pub fn tls_port_at(i: usize) -> (r: u16)
    requires
        i < TLS_PORT_COUNT,
    ensures
        is_tls_port(r),
{
    match i {
        0 => 443,
        1 => 2053,
        2 => 2083,
        3 => 2087,
        4 => 2096,
        _ => 8443,
    }
}

/// Which port class a request asks for.
#[derive(Clone, Copy, Debug, PartialEq, Eq, Structural)]
pub enum TlsMode {
    RequireTls,
    RequirePlain,
    Any,
}

pub open spec fn tls_mode_spec(s: Seq<char>) -> TlsMode {
    if s == "true"@ || s == "1"@ {
        TlsMode::RequireTls
    } else if s == "false"@ || s == "0"@ {
        TlsMode::RequirePlain
    } else {
        TlsMode::Any
    }
}

/// Reads a mode: `true`/`1` ask for TLS, `false`/`0` for plaintext, anything else for
/// either.
pub fn tls_mode_of(s: &str) -> (r: TlsMode)
    ensures
        r == tls_mode_spec(s@),
{
    if same_str(s, "true") || same_str(s, "1") {
        TlsMode::RequireTls
    } else if same_str(s, "false") || same_str(s, "0") {
        TlsMode::RequirePlain
    } else {
        TlsMode::Any
    }
}

/// An endpoint passes the filter unless its port is in the class the mode leaves out:
/// TLS-class ports under `RequirePlain`, plaintext-class ports otherwise. An endpoint with
/// no port always passes.
pub open spec fn keeps(port: Option<u16>, mode: TlsMode) -> bool {
    match port {
        None => true,
        Some(p) => match mode {
            TlsMode::RequirePlain => !is_tls_port(p),
            _ => !is_plain_port(p),
        },
    }
}

pub fn keeps_port(port: Option<u16>, mode: TlsMode) -> (r: bool)
    ensures
        r == keeps(port, mode),
{
    match port {
        None => true,
        Some(p) => match mode {
            TlsMode::RequirePlain => !tls_port(p),
            _ => !plain_port(p),
        },
    }
}

/// Port 80 is left out when TLS is asked for and kept when plaintext is; an endpoint
/// whose port is unresolved is kept under every mode.
pub proof fn lemma_port_filter(mode: TlsMode)
    ensures
        !keeps(Some(80u16), TlsMode::RequireTls),
        keeps(Some(80u16), TlsMode::RequirePlain),
        keeps(None, mode),
{
}

pub open spec fn filtered(items: Seq<MyDataV>, mode: TlsMode) -> Seq<MyDataV>
    decreases items.len(),
{
    if items.len() == 0 {
        Seq::empty()
    } else if keeps(items.last().port, mode) {
        filtered(items.drop_last(), mode).push(items.last())
    } else {
        filtered(items.drop_last(), mode)
    }
}

pub fn filter_ports(items: &Vec<MyData>, mode: TlsMode) -> (r: Vec<MyData>)
    ensures
        endpoints_view(r@) == filtered(endpoints_view(items@), mode),
{
    let ghost iv = endpoints_view(items@);
    let mut out: Vec<MyData> = Vec::new();
    let mut i: usize = 0;
    assert(endpoints_view(out@) =~= filtered(iv.take(0), mode));
    while i < items.len()
        invariant
            i <= items@.len(),
            iv == endpoints_view(items@),
            endpoints_view(out@) == filtered(iv.take(i as int), mode),
        decreases items@.len() - i,
    {
        assert(iv.take(i as int + 1).drop_last() =~= iv.take(i as int));
        if keeps_port(items[i].port, mode) {
            let d = items[i].clone();
            let ghost before = endpoints_view(out@);
            out.push(d);
            assert(endpoints_view(out@) =~= before.push(iv[i as int]));
        }
        i += 1;
    }
    assert(iv.take(i as int) =~= iv);
    out
}

/// What a request renders.
#[derive(Clone, Copy, Debug, PartialEq, Eq, Structural)]
pub enum Target {
    /// Share links, one per line.
    Links,
    /// A structured proxy list.
    Clash,
    /// JSON outbound nodes.
    SingBox,
    /// Any other name: nothing is rendered.
    Unknown,
}

pub open spec fn target_spec(s: Seq<char>) -> Target {
    if s == "v2ray"@ {
        Target::Links
    } else if s == "clash"@ {
        Target::Clash
    } else if s == "singbox"@ {
        Target::SingBox
    } else {
        Target::Unknown
    }
}

pub fn target_of(s: &str) -> (r: Target)
    ensures
        r == target_spec(s@),
{
    if same_str(s, "v2ray") {
        Target::Links
    } else if same_str(s, "clash") {
        Target::Clash
    } else if same_str(s, "singbox") {
        Target::SingBox
    } else {
        Target::Unknown
    }
}

/// How many endpoints a page holds: for the structured targets the requested count when it
/// is from 1 to 150, else 50; for the others the requested count.
pub open spec fn page_size_spec(target: Target, node_count: usize) -> usize {
    match target {
        Target::Clash | Target::SingBox => if 1 <= node_count <= 150 {
            node_count
        } else {
            50
        },
        _ => node_count,
    }
}

pub fn page_size(target: Target, node_count: usize) -> (r: usize)
    ensures
        r == page_size_spec(target, node_count),
{
    match target {
        Target::Clash | Target::SingBox => if 1 <= node_count && node_count <= 150 {
            node_count
        } else {
            50
        },
        _ => node_count,
    }
}

/// Page `page` (from 1) of `items` cut into pieces of `size`; empty past the last.
pub open spec fn page_of(items: Seq<MyDataV>, size: nat, page: nat) -> Seq<MyDataV> {
    let start = (page - 1) * size;
    if start >= items.len() {
        Seq::empty()
    } else if start + size <= items.len() {
        items.subrange(start, start + size)
    } else {
        items.subrange(start, items.len() as int)
    }
}

/// The endpoints of one page, after the port filter.
pub fn select_page(items: &Vec<MyData>, mode: TlsMode, size: usize, page: usize) -> (r: Vec<
    MyData,
>)
    requires
        size > 0,
        page >= 1,
    ensures
        endpoints_view(r@) == page_of(
            filtered(endpoints_view(items@), mode),
            size as nat,
            page as nat,
        ),
{
    let kept = filter_ports(items, mode);
    let ghost kv = endpoints_view(kept@);
    let n = kept.len();
    let mut out: Vec<MyData> = Vec::new();
    let start = match (page - 1).checked_mul(size) {
        Some(v) => v,
        None => {
            return out;
        },
    };
    if start >= n {
        return out;
    }
    let end = if size <= n - start {
        start + size
    } else {
        n
    };
    let mut i = start;
    assert(endpoints_view(out@) =~= kv.subrange(start as int, start as int));
    while i < end
        invariant
            start <= i <= end <= n,
            n == kept@.len(),
            kv == endpoints_view(kept@),
            endpoints_view(out@) == kv.subrange(start as int, i as int),
        decreases end - i,
    {
        let d = kept[i].clone();
        let ghost before = endpoints_view(out@);
        assert(kv[i as int] == kept@[i as int]@);
        let ghost dv = d@;
        assert(dv == kv[i as int]);
        out.push(d);
        assert(endpoints_view(out@) =~= before.push(dv));
        assert(endpoints_view(out@) =~= kv.subrange(start as int, i as int + 1));
        i += 1;
    }
    out
}

} // verus!
