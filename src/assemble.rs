//! The payload: synthesised nodes merged for the target.
use vstd::prelude::*;
use crate::collect::{endpoints_view, MyData, MyDataV};
use crate::node::{subconvert, synthesis};
use crate::collect::port_or;
use crate::select::{filtered, page_of, page_size, page_size_spec, select_page, target_of, target_spec, tls_mode_of, tls_mode_spec, Target, TlsMode};
use crate::num::{parse_number, parse_port, read_number, read_port};
use crate::text::{lower_of, lowercase, same_str};
use crate::yaml::YamlValue;
use crate::text::{chars_of, find_char, find_from, lemma_find_from, push_all, push_str, starts_with, string_of};

verus! {

/// Names and nodes of a page, in order: empty ones left out, each node once, and each name
/// once where the target lists names.
pub open spec fn gather_step(
    st: (Seq<Seq<char>>, Seq<Seq<char>>),
    item: (Seq<char>, Seq<char>),
    lists_names: bool,
) -> (Seq<Seq<char>>, Seq<Seq<char>>) {
    let nodes = if item.1.len() > 0 && !st.1.contains(item.1) {
        st.1.push(item.1)
    } else {
        st.1
    };
    let names = if item.0.len() > 0 && lists_names && !st.0.contains(item.0) {
        st.0.push(item.0)
    } else {
        st.0
    };
    (names, nodes)
}

pub open spec fn gather_fold(items: Seq<(Seq<char>, Seq<char>)>, lists_names: bool) -> (
    Seq<Seq<char>>,
    Seq<Seq<char>>,
)
    decreases items.len(),
{
    if items.len() == 0 {
        (Seq::empty(), Seq::empty())
    } else {
        gather_step(gather_fold(items.drop_last(), lists_names), items.last(), lists_names)
    }
}

pub open spec fn lists_names(target: Target) -> bool {
    target == Target::Clash || target == Target::SingBox
}

fn holds_string(v: &Vec<String>, s: &String) -> (r: bool)
    ensures
        r == v.deep_view().contains(s@),
{
    let mut i: usize = 0;
    while i < v.len()
        invariant
            i <= v@.len(),
            forall|j: int| 0 <= j < i ==> v.deep_view()[j] != s@,
        decreases v@.len() - i,
    {
        assert(v.deep_view()[i as int] == v@[i as int]@);
        if v[i] == *s {
            return true;
        }
        i += 1;
    }
    false
}

/// Splits synthesised `(name, node)` pairs into the names and the nodes to assemble.
pub fn gather(pairs: &Vec<(String, String)>, target: Target) -> (r: (Vec<String>, Vec<String>))
    ensures
        (r.0.deep_view(), r.1.deep_view()) == gather_fold(pairs.deep_view(), lists_names(target)),
{
    let ghost pv = pairs.deep_view();
    let ln = target == Target::Clash || target == Target::SingBox;
    let mut names: Vec<String> = Vec::new();
    let mut nodes: Vec<String> = Vec::new();
    let mut i: usize = 0;
    assert(names.deep_view() =~= Seq::<Seq<char>>::empty());
    assert(nodes.deep_view() =~= Seq::<Seq<char>>::empty());
    assert(pv.take(0) =~= Seq::<(Seq<char>, Seq<char>)>::empty());
    while i < pairs.len()
        invariant
            i <= pairs@.len(),
            pv == pairs.deep_view(),
            ln == lists_names(target),
            (names.deep_view(), nodes.deep_view()) == gather_fold(pv.take(i as int), ln),
        decreases pairs@.len() - i,
    {
        assert(pv.take(i as int + 1).drop_last() =~= pv.take(i as int));
        assert(pv[i as int] == (pairs@[i as int].0@, pairs@[i as int].1@));
        let (name, node) = (&pairs[i].0, &pairs[i].1);
        if !node.as_str().is_empty() && !holds_string(&nodes, node) {
            let ghost before = nodes.deep_view();
            nodes.push(node.clone());
            assert(nodes.deep_view() =~= before.push(node@));
        }
        if !name.as_str().is_empty() && ln && !holds_string(&names, name) {
            let ghost before = names.deep_view();
            names.push(name.clone());
            assert(names.deep_view() =~= before.push(name@));
        }
        i += 1;
    }
    assert(pv.take(i as int) =~= pv);
    (names, nodes)
}

/// The items joined with `sep` between them.
pub open spec fn joined(items: Seq<Seq<char>>, sep: Seq<char>) -> Seq<char>
    decreases items.len(),
{
    if items.len() == 0 {
        Seq::empty()
    } else if items.len() == 1 {
        items[0]
    } else {
        joined(items.drop_last(), sep) + sep + items.last()
    }
}

pub fn join(items: &Vec<String>, sep: &str) -> (r: Vec<char>)
    ensures
        r@ == joined(items.deep_view(), sep@),
{
    let ghost iv = items.deep_view();
    let mut out: Vec<char> = Vec::new();
    let mut i: usize = 0;
    assert(out@ =~= joined(iv.take(0), sep@));
    while i < items.len()
        invariant
            i <= items@.len(),
            iv == items.deep_view(),
            out@ == joined(iv.take(i as int), sep@),
        decreases items@.len() - i,
    {
        assert(iv.take(i as int + 1).drop_last() =~= iv.take(i as int));
        assert(iv[i as int] == items@[i as int]@);
        if i > 0 {
            push_str(&mut out, sep);
        }
        push_str(&mut out, items[i].as_str());
        assert(out@ =~= joined(iv.take(i as int + 1), sep@));
        i += 1;
    }
    assert(iv.take(i as int) =~= iv);
    out
}

/// Whether `pat` occurs in `s`.
pub open spec fn occurs(s: Seq<char>, pat: Seq<char>) -> bool {
    exists|k: int| 0 <= k && k + pat.len() <= s.len() && #[trigger] s.subrange(k, k + pat.len()) == pat
}

/// Where the proxy block that opens at `p` ends: the first `}` after its opening `  - {`.
pub open spec fn block_end(s: Seq<char>, p: int) -> int {
    find_from(s, p + 5, '}')
}

/// A proxy block opens at `p`: `  - {`, text without `}` that holds `name:`, then `}`.
pub open spec fn block_at(s: Seq<char>, p: int) -> bool {
    &&& starts_with(s.skip(p), "  - {"@)
    &&& block_end(s, p) < s.len()
    &&& occurs(s.subrange(p + 5, block_end(s, p)), "name:"@)
}

/// `s` from `p` on, each proxy block replaced by `rep`, scanning left to right.
pub open spec fn replace_blocks(s: Seq<char>, p: int, rep: Seq<char>) -> Seq<char>
    decreases s.len() - p,
{
    if p < 0 || p >= s.len() {
        Seq::empty()
    } else if block_at(s, p) && block_end(s, p) >= p {
        rep + replace_blocks(s, block_end(s, p) + 1, rep)
    } else {
        seq![s[p]] + replace_blocks(s, p + 1, rep)
    }
}

/// `s` from `p` on, each occurrence of `pat` replaced by `rep`, scanning left to right.
pub open spec fn replace_lit(s: Seq<char>, p: int, pat: Seq<char>, rep: Seq<char>) -> Seq<char>
    decreases s.len() - p,
{
    if p < 0 || p >= s.len() {
        Seq::empty()
    } else if pat.len() > 0 && starts_with(s.skip(p), pat) {
        rep + replace_lit(s, p + pat.len(), pat, rep)
    } else {
        seq![s[p]] + replace_lit(s, p + 1, pat, rep)
    }
}

/// With no proxy block from `s` on, scanning copies the rest.
proof fn lemma_blocks_tail(t: Seq<char>, s: int, rep: Seq<char>)
    requires
        0 <= s <= t.len(),
        forall|x: int| s <= x < t.len() ==> !#[trigger] block_at(t, x),
    ensures
        replace_blocks(t, s, rep) == t.skip(s),
    decreases t.len() - s,
{
    if s < t.len() {
        lemma_blocks_tail(t, s + 1, rep);
        assert(seq![t[s]] + t.skip(s + 1) =~= t.skip(s));
    } else {
        assert(t.skip(s) =~= Seq::<char>::empty());
    }
}

/// Scanning from `s` up to the block at `p` copies the text before it.
proof fn lemma_blocks_head(t: Seq<char>, s: int, p: int, rep: Seq<char>)
    requires
        0 <= s <= p < t.len(),
        block_at(t, p),
        forall|x: int| s <= x < p ==> !#[trigger] block_at(t, x),
    ensures
        replace_blocks(t, s, rep) == t.subrange(s, p) + rep + replace_blocks(
            t,
            block_end(t, p) + 1,
            rep,
        ),
    decreases p - s,
{
    lemma_find_from(t, p + 5, '}');
    if s < p {
        lemma_blocks_head(t, s + 1, p, rep);
        assert(seq![t[s]] + t.subrange(s + 1, p) =~= t.subrange(s, p));
    } else {
        assert(t.subrange(s, p) =~= Seq::<char>::empty());
    }
}

/// With no occurrence of `pat` from `s` on, scanning copies the rest.
proof fn lemma_lit_tail(t: Seq<char>, s: int, pat: Seq<char>, rep: Seq<char>)
    requires
        0 <= s <= t.len(),
        forall|x: int| s <= x < t.len() ==> !#[trigger] starts_with(t.skip(x), pat),
    ensures
        replace_lit(t, s, pat, rep) == t.skip(s),
    decreases t.len() - s,
{
    if s < t.len() {
        lemma_lit_tail(t, s + 1, pat, rep);
        assert(seq![t[s]] + t.skip(s + 1) =~= t.skip(s));
    } else {
        assert(t.skip(s) =~= Seq::<char>::empty());
    }
}

/// Scanning from `s` up to the occurrence of `pat` at `p` copies the text before it.
proof fn lemma_lit_head(t: Seq<char>, s: int, p: int, pat: Seq<char>, rep: Seq<char>)
    requires
        0 <= s <= p < t.len(),
        pat.len() > 0,
        starts_with(t.skip(p), pat),
        forall|x: int| s <= x < p ==> !#[trigger] starts_with(t.skip(x), pat),
    ensures
        replace_lit(t, s, pat, rep) == t.subrange(s, p) + rep + replace_lit(
            t,
            p + pat.len(),
            pat,
            rep,
        ),
    decreases p - s,
{
    if s < p {
        lemma_lit_head(t, s + 1, p, pat, rep);
        assert(seq![t[s]] + t.subrange(s + 1, p) =~= t.subrange(s, p));
    } else {
        assert(t.subrange(s, p) =~= Seq::<char>::empty());
    }
}

/// The structured-list overlay with two entries and two names: where the base document
/// holds exactly one proxy block (at `p`), and the text with that block replaced holds the
/// reference line exactly once (at `q`), the payload is that text with the reference line
/// replaced by the two names, one per line; the block is replaced by the two entries.
pub proof fn lemma_overlay_two_entries(
    base: Seq<char>,
    p: int,
    q: int,
    n1: Seq<char>,
    n2: Seq<char>,
    a: Seq<char>,
    b: Seq<char>,
)
    requires
        0 <= p < base.len(),
        block_at(base, p),
        forall|x: int| 0 <= x < base.len() && x != p ==> !#[trigger] block_at(base, x),
        0 <= q < (base.take(p) + n1 + "\n"@ + n2 + base.skip(block_end(base, p) + 1)).len(),
        starts_with(
            (base.take(p) + n1 + "\n"@ + n2 + base.skip(block_end(base, p) + 1)).skip(q),
            reference_line(),
        ),
        forall|x: int|
            0 <= x < (base.take(p) + n1 + "\n"@ + n2 + base.skip(block_end(base, p) + 1)).len()
                && x != q ==> !#[trigger] starts_with(
                (base.take(p) + n1 + "\n"@ + n2 + base.skip(block_end(base, p) + 1)).skip(x),
                reference_line(),
            ),
    ensures
        ({
            let mid = base.take(p) + n1 + "\n"@ + n2 + base.skip(block_end(base, p) + 1);
            assembled(Target::Clash, true, seq![a, b], seq![n1, n2], base) == Some(
                mid.take(q) + "      - "@ + a + "\n"@ + "      - "@ + b + mid.skip(
                    q + reference_line().len(),
                ),
            )
        }),
{
    let e = block_end(base, p);
    lemma_find_from(base, p + 5, '}');
    let entries = joined(seq![n1, n2], "\n"@);
    assert(seq![n1, n2].drop_last() =~= seq![n1]);
    assert(joined(seq![n1], "\n"@) == n1);
    assert(seq![n1, n2].last() == n2);
    assert(entries == n1 + "\n"@ + n2);
    lemma_blocks_head(base, 0, p, entries);
    lemma_blocks_tail(base, e + 1, entries);
    let mid = base.take(p) + n1 + "\n"@ + n2 + base.skip(e + 1);
    assert(replace_blocks(base, 0, entries) =~= mid);
    reveal_strlit("      - 127.0.0.1:1080");
    let names = joined(listed(seq![a, b]), "\n"@);
    assert(listed(seq![a, b]) =~= seq!["      - "@ + a, "      - "@ + b]);
    let l = seq!["      - "@ + a, "      - "@ + b];
    assert(l.drop_last() =~= seq!["      - "@ + a]);
    assert(joined(seq!["      - "@ + a], "\n"@) == "      - "@ + a);
    assert(l.last() == "      - "@ + b);
    assert(joined(l, "\n"@) == "      - "@ + a + "\n"@ + "      - "@ + b);
    assert(names =~= "      - "@ + a + "\n"@ + "      - "@ + b);
    lemma_lit_head(mid, 0, q, reference_line(), names);
    lemma_lit_tail(mid, q + reference_line().len(), reference_line(), names);
    assert(replace_lit(mid, 0, reference_line(), names) =~= mid.take(q) + names + mid.skip(
        q + reference_line().len(),
    ));
    assert(base.len() > 0);
}

fn at(s: &[char], p: usize, pat: &[char]) -> (r: bool)
    requires
        p <= s@.len(),
    ensures
        r == starts_with(s@.skip(p as int), pat@),
{
    let n = s.len();
    if pat.len() > n - p {
        return false;
    }
    let mut k: usize = 0;
    while k < pat.len()
        invariant
            k <= pat@.len(),
            n == s@.len(),
            p <= n,
            p + pat@.len() <= n,
            forall|j: int| 0 <= j < k ==> s@[p + j] == pat@[j],
        decreases pat@.len() - k,
    {
        if s[p + k] != pat[k] {
            assert(s@.skip(p as int).take(pat@.len() as int)[k as int] != pat@[k as int]);
            return false;
        }
        k += 1;
    }
    assert(s@.skip(p as int).take(pat@.len() as int) =~= pat@);
    true
}

fn occurs_in(s: &[char], from: usize, to: usize, pat: &[char]) -> (r: bool)
    requires
        from <= to <= s@.len(),
    ensures
        r == occurs(s@.subrange(from as int, to as int), pat@),
{
    let ghost seg = s@.subrange(from as int, to as int);
    if pat.len() > to - from {
        return false;
    }
    let mut k: usize = from;
    let last = to - pat.len();
    loop
        invariant
            from <= k <= last,
            last + pat@.len() == to,
            to <= s@.len(),
            pat@.len() <= to - from,
            seg == s@.subrange(from as int, to as int),
            forall|j: int|
                0 <= j < k - from && j + pat@.len() <= seg.len() ==> #[trigger] seg.subrange(
                    j,
                    j + pat@.len(),
                ) != pat@,
        decreases last - k,
    {
        if at(s, k, pat) {
            assert(seg.subrange(k - from, k - from + pat@.len()) =~= s@.skip(k as int).take(
                pat@.len() as int,
            ));
            return true;
        }
        assert(seg.subrange(k - from, k - from + pat@.len()) =~= s@.skip(k as int).take(
            pat@.len() as int,
        ));
        if k == last {
            return false;
        }
        k += 1;
    }
}

/// Replaces every proxy block of `s` by `rep`.
pub fn replace_proxy_blocks(s: &[char], rep: &[char]) -> (r: Vec<char>)
    ensures
        r@ == replace_blocks(s@, 0, rep@),
{
    let opener = chars_of("  - {");
    let name = chars_of("name:");
    let mut out: Vec<char> = Vec::new();
    let mut p: usize = 0;
    while p < s.len()
        invariant
            p <= s@.len(),
            opener@ == "  - {"@,
            name@ == "name:"@,
            out@ + replace_blocks(s@, p as int, rep@) == replace_blocks(s@, 0, rep@),
        decreases s@.len() - p,
    {
        let mut matched = false;
        if at(s, p, opener.as_slice()) {
            proof {
                reveal_strlit("  - {");
            }
            let e = find_char(s, p + 5, '}');
            proof {
                lemma_find_from(s@, p + 5, '}');
            }
            if e < s.len() && occurs_in(s, p + 5, e, name.as_slice()) {
                push_all(&mut out, rep);
                assert(out@ + replace_blocks(s@, e + 1, rep@) =~= replace_blocks(s@, 0, rep@));
                p = e + 1;
                matched = true;
            }
        }
        if !matched {
            out.push(s[p]);
            assert(out@ + replace_blocks(s@, p + 1, rep@) =~= replace_blocks(s@, 0, rep@));
            p += 1;
        }
    }
    assert(replace_blocks(s@, p as int, rep@) =~= Seq::<char>::empty());
    assert(out@ + Seq::<char>::empty() =~= out@);
    out
}

/// Replaces every occurrence of `pat` in `s` by `rep`.
pub fn replace_all(s: &[char], pat: &[char], rep: &[char]) -> (r: Vec<char>)
    ensures
        r@ == replace_lit(s@, 0, pat@, rep@),
{
    let mut out: Vec<char> = Vec::new();
    let mut p: usize = 0;
    while p < s.len()
        invariant
            p <= s@.len(),
            out@ + replace_lit(s@, p as int, pat@, rep@) == replace_lit(s@, 0, pat@, rep@),
        decreases s@.len() - p,
    {
        if pat.len() > 0 && at(s, p, pat) {
            push_all(&mut out, rep);
            assert(out@ + replace_lit(s@, p + pat@.len(), pat@, rep@) =~= replace_lit(
                s@,
                0,
                pat@,
                rep@,
            ));
            p = p + pat.len();
        } else {
            out.push(s[p]);
            assert(out@ + replace_lit(s@, p + 1, pat@, rep@) =~= replace_lit(s@, 0, pat@, rep@));
            p += 1;
        }
    }
    assert(replace_lit(s@, p as int, pat@, rep@) =~= Seq::<char>::empty());
    assert(out@ + Seq::<char>::empty() =~= out@);
    out
}

/// The reference line of the base document that the node names replace.
pub open spec fn reference_line() -> Seq<char> {
    "      - 127.0.0.1:1080"@
}

pub open spec fn listed(names: Seq<Seq<char>>) -> Seq<Seq<char>> {
    names.map_values(|n: Seq<char>| "      - "@ + n)
}

/// `s` with every line but the first indented by four more spaces, and the first too.
pub open spec fn indented(s: Seq<char>) -> Seq<char>
    decreases s.len(),
{
    if s.len() == 0 {
        Seq::empty()
    } else if s.last() == '\n' {
        indented(s.drop_last()) + "\n    "@
    } else {
        indented(s.drop_last()).push(s.last())
    }
}

pub open spec fn as_element(n: Seq<char>) -> Seq<char> {
    "    "@ + indented(n)
}

/// A JSON document whose `outbounds` array holds the nodes, pretty-printed.
pub open spec fn outbounds_doc(nodes: Seq<Seq<char>>) -> Seq<char> {
    if nodes.len() == 0 {
        "{\n  \"outbounds\": []\n}"@
    } else {
        "{\n  \"outbounds\": [\n"@ + joined(nodes.map_values(|n: Seq<char>| as_element(n)), ",\n"@)
            + "\n  ]\n}"@
    }
}

/// The payload for a target. Links: the nodes one per line. Structured list: with the
/// base document, each proxy block of it replaced by the entries and each reference line
/// by the names (empty where there are no names or no document); without, a bare
/// `proxies:` block. JSON nodes: without a base document, an `outbounds` document; with
/// one, none here: the nodes are laid over the parsed document by `overlay::lay_over`.
pub open spec fn assembled(
    target: Target,
    template: bool,
    names: Seq<Seq<char>>,
    nodes: Seq<Seq<char>>,
    base: Seq<char>,
) -> Option<Seq<char>> {
    match target {
        Target::Clash => if template {
            if names.len() > 0 && base.len() > 0 {
                Some(
                    replace_lit(
                        replace_blocks(base, 0, joined(nodes, "\n"@)),
                        0,
                        reference_line(),
                        joined(listed(names), "\n"@),
                    ),
                )
            } else {
                Some(Seq::empty())
            }
        } else {
            Some("proxies:\n"@ + joined(nodes, "\n"@))
        },
        Target::SingBox => if template {
            None
        } else {
            Some(outbounds_doc(nodes))
        },
        _ => Some(joined(nodes, "\n"@)),
    }
}

fn indent_of(s: &[char]) -> (r: Vec<char>)
    ensures
        r@ == indented(s@),
{
    let mut out: Vec<char> = Vec::new();
    let mut i: usize = 0;
    assert(s@.take(0) =~= Seq::<char>::empty());
    while i < s.len()
        invariant
            i <= s@.len(),
            out@ == indented(s@.take(i as int)),
        decreases s@.len() - i,
    {
        assert(s@.take(i as int + 1).drop_last() =~= s@.take(i as int));
        if s[i] == '\n' {
            push_str(&mut out, "\n    ");
        } else {
            out.push(s[i]);
        }
        i += 1;
    }
    assert(s@.take(i as int) =~= s@);
    out
}

fn map_strings(items: &Vec<String>, prefix: &str, indent: bool) -> (r: Vec<String>)
    ensures
        r.deep_view() == if indent {
            items.deep_view().map_values(|n: Seq<char>| as_element(n))
        } else {
            items.deep_view().map_values(|n: Seq<char>| prefix@ + n)
        },
{
    let ghost iv = items.deep_view();
    let mut out: Vec<String> = Vec::new();
    let mut i: usize = 0;
    while i < items.len()
        invariant
            i <= items@.len(),
            iv == items.deep_view(),
            out@.len() == i,
            forall|j: int|
                0 <= j < i ==> out.deep_view()[j] == if indent {
                    as_element(#[trigger] iv[j])
                } else {
                    prefix@ + iv[j]
                },
        decreases items@.len() - i,
    {
        assert(iv[i as int] == items@[i as int]@);
        let mut v: Vec<char> = Vec::new();
        if indent {
            push_str(&mut v, "    ");
            let ind = indent_of(chars_of(items[i].as_str()).as_slice());
            push_all(&mut v, ind.as_slice());
        } else {
            push_str(&mut v, prefix);
            push_str(&mut v, items[i].as_str());
        }
        out.push(string_of(v.as_slice()));
        i += 1;
    }
    let ghost want = if indent {
        iv.map_values(|n: Seq<char>| as_element(n))
    } else {
        iv.map_values(|n: Seq<char>| prefix@ + n)
    };
    assert(out.deep_view() =~= want);
    out
}

/// Assembles the payload (see `assembled`); `clash_template` is the base document of the
/// structured list.
pub fn build_full_subscribe(
    target: Target,
    enable_template: bool,
    proxy_name_vec: &Vec<String>,
    nodes_vec: &Vec<String>,
    clash_template: &str,
) -> (r: Option<String>)
    ensures
        match r {
            Some(s) => assembled(
                target,
                enable_template,
                proxy_name_vec.deep_view(),
                nodes_vec.deep_view(),
                clash_template@,
            ) == Some(s@),
            None => assembled(
                target,
                enable_template,
                proxy_name_vec.deep_view(),
                nodes_vec.deep_view(),
                clash_template@,
            ) is None,
        },
{
    match target {
        Target::Clash => if enable_template {
            if proxy_name_vec.len() > 0 && !clash_template.is_empty() {
                let base = chars_of(clash_template);
                let entries = join(nodes_vec, "\n");
                let blocks = replace_proxy_blocks(base.as_slice(), entries.as_slice());
                let names = join(&map_strings(proxy_name_vec, "      - ", false), "\n");
                let line = chars_of("      - 127.0.0.1:1080");
                let out = replace_all(blocks.as_slice(), line.as_slice(), names.as_slice());
                Some(string_of(out.as_slice()))
            } else {
                Some(String::new())
            }
        } else {
            let mut out: Vec<char> = Vec::new();
            push_str(&mut out, "proxies:\n");
            push_all(&mut out, join(nodes_vec, "\n").as_slice());
            Some(string_of(out.as_slice()))
        },
        Target::SingBox => if enable_template {
            None
        } else if nodes_vec.len() == 0 {
            Some(string_of(chars_of("{\n  \"outbounds\": []\n}").as_slice()))
        } else {
            let mut out: Vec<char> = Vec::new();
            push_str(&mut out, "{\n  \"outbounds\": [\n");
            push_all(&mut out, join(&map_strings(nodes_vec, "", true), ",\n").as_slice());
            push_str(&mut out, "\n  ]\n}");
            Some(string_of(out.as_slice()))
        },
        _ => Some(string_of(join(nodes_vec, "\n").as_slice())),
    }
}

/// What one endpoint of a page gives: what synthesis gives for it, its port resolved to
/// `default_port` where it has none.
pub open spec fn synthesized(
    pool: YamlValue,
    d: MyDataV,
    default_port: u16,
    userid: u8,
    target: Target,
    filter: Seq<char>,
    mode: TlsMode,
    out: (Seq<char>, Seq<char>),
) -> bool {
    synthesis(pool, d.alias, d.addr, port_or(d.port, default_port), userid, target, filter, mode, out)
}

/// Synthesises a node for each endpoint of a page, the port defaulting to `default_port`.
pub fn synthesize_page(
    page: &Vec<MyData>,
    pool: &YamlValue,
    target: Target,
    proxy_type: &str,
    tls_mode: TlsMode,
    userid: u8,
    default_port: u16,
) -> (r: Vec<(String, String)>)
    ensures
        r@.len() == page@.len(),
        forall|i: int|
            0 <= i < page@.len() ==> synthesized(
                *pool,
                #[trigger] page@[i]@,
                default_port,
                userid,
                target,
                proxy_type@,
                tls_mode,
                r.deep_view()[i],
            ),
{
    let mut out: Vec<(String, String)> = Vec::new();
    let mut i: usize = 0;
    while i < page.len()
        invariant
            i <= page@.len(),
            out@.len() == i,
            forall|j: int|
                0 <= j < i ==> synthesized(
                    *pool,
                    #[trigger] page@[j]@,
                    default_port,
                    userid,
                    target,
                    proxy_type@,
                    tls_mode,
                    out.deep_view()[j],
                ),
        decreases page@.len() - i,
    {
        let d = &page[i];
        let port = match d.port {
            Some(p) => p,
            None => default_port,
        };
        let pair = subconvert(
            d.alias.as_str(),
            d.addr.as_str(),
            port,
            pool,
            target,
            proxy_type,
            tls_mode,
            userid,
        );
        let ghost pv = (pair.0@, pair.1@);
        assert(synthesized(*pool, d@, default_port, userid, target, proxy_type@, tls_mode, pv));
        out.push(pair);
        assert(out.deep_view()[i as int] == pv);
        i += 1;
    }
    out
}

/// The request parameters that the core works with.
pub struct Params {
    pub target: String,
    pub node_count: usize,
    pub default_port: u16,
    pub userid: u8,
    pub column_name: String,
    pub template: bool,
    pub proxy_type: String,
    pub tls_mode: String,
    pub data_source: String,
    pub page: usize,
}

pub struct ParamsV {
    pub target: Seq<char>,
    pub node_count: usize,
    pub default_port: u16,
    pub userid: u8,
    pub column_name: Seq<char>,
    pub template: bool,
    pub proxy_type: Seq<char>,
    pub tls_mode: Seq<char>,
    pub data_source: Seq<char>,
    pub page: usize,
}

impl View for Params {
    type V = ParamsV;

    open spec fn view(&self) -> ParamsV {
        ParamsV {
            target: self.target@,
            node_count: self.node_count,
            default_port: self.default_port,
            userid: self.userid,
            column_name: self.column_name@,
            template: self.template,
            proxy_type: self.proxy_type@,
            tls_mode: self.tls_mode@,
            data_source: self.data_source@,
            page: self.page,
        }
    }
}

/// What `bool::from_str` accepts.
pub open spec fn parse_flag(v: Seq<char>) -> Option<bool> {
    if v == "true"@ {
        Some(true)
    } else if v == "false"@ {
        Some(false)
    } else {
        None
    }
}

/// One query parameter applied: `key` compared in lower case, unknown keys and values
/// out of range leave the parameters as they are.
pub open spec fn applied(p: ParamsV, key: Seq<char>, value: Seq<char>) -> ParamsV {
    let k = lower_of(key);
    if k == "target"@ {
        ParamsV { target: value, ..p }
    } else if k == "n"@ || k == "nodesize"@ || k == "nodecount"@ {
        match parse_number(value, usize::MAX as nat) {
            Some(n) => ParamsV { node_count: n as usize, ..p },
            None => p,
        }
    } else if k == "dport"@ || k == "defaultport"@ {
        match parse_port(value) {
            Some(v) => if 80 <= v && v < 65535 {
                ParamsV { default_port: v, ..p }
            } else {
                p
            },
            None => p,
        }
    } else if k == "id"@ || k == "userid"@ {
        match parse_number(value, 255) {
            Some(v) => if 1 <= v {
                ParamsV { userid: v as u8, ..p }
            } else {
                p
            },
            None => p,
        }
    } else if k == "page"@ {
        match parse_number(value, usize::MAX as nat) {
            Some(v) => ParamsV { page: if v >= 1 { v as usize } else { 1 }, ..p },
            None => ParamsV { page: if p.page >= 1 { p.page } else { 1 }, ..p },
        }
    } else if k == "template"@ {
        ParamsV {
            template: match parse_flag(value) {
                Some(b) => b,
                None => true,
            },
            ..p
        }
    } else if k == "type"@ || k == "proxy"@ || k == "proxytype"@ {
        ParamsV { proxy_type: value, ..p }
    } else if k == "column"@ || k == "columnname"@ {
        ParamsV { column_name: value, ..p }
    } else if k == "source"@ || k == "datasource"@ {
        ParamsV { data_source: value, ..p }
    } else if k == "tls"@ || k == "mode"@ || k == "tls_mode"@ {
        if lower_of(value) == "1"@ || lower_of(value) == "true"@ {
            ParamsV { tls_mode: "true"@, ..p }
        } else if lower_of(value) == "0"@ || lower_of(value) == "false"@ {
            ParamsV { tls_mode: "false"@, ..p }
        } else {
            p
        }
    } else {
        p
    }
}

fn owned(s: &str) -> (r: String)
    ensures
        r@ == s@,
{
    string_of(chars_of(s).as_slice())
}

impl Params {
    /// The defaults of a request: the given target, 300 nodes a page, page 1, random
    /// templates, port 0 for endpoints without one, names prefixed by `colo`, base
    /// documents on, every protocol, no port-class preference, data from `./data`.
    pub fn new(target: &str) -> (r: Params)
        ensures
            r@ == (ParamsV {
                target: target@,
                node_count: 300,
                default_port: 0,
                userid: 0,
                column_name: "colo"@,
                template: true,
                proxy_type: "all"@,
                tls_mode: "all"@,
                data_source: "./data"@,
                page: 1,
            }),
    {
        Params {
            target: owned(target),
            node_count: 300,
            default_port: 0,
            userid: 0,
            column_name: owned("colo"),
            template: true,
            proxy_type: owned("all"),
            tls_mode: owned("all"),
            data_source: owned("./data"),
            page: 1,
        }
    }

    /// Applies one query parameter (see `applied`).
    pub fn apply(&mut self, key: &str, value: &str)
        ensures
            final(self)@ == applied(old(self)@, key@, value@),
    {
        let k = lowercase(key);
        let kc = chars_of(k.as_str());
        let vc = chars_of(value);
        let is = |w: &str| -> (r: bool)
            ensures
                r == (k@ == w@),
            { same_str(k.as_str(), w) };
        if is("target") {
            self.target = owned(value);
        } else if is("n") || is("nodesize") || is("nodecount") {
            match read_number(vc.as_slice(), usize::MAX as u64) {
                Some(n) => {
                    self.node_count = n as usize;
                },
                None => {},
            }
        } else if is("dport") || is("defaultport") {
            match read_port(vc.as_slice()) {
                Some(v) => if 80 <= v && v < 65535 {
                    self.default_port = v;
                },
                None => {},
            }
        } else if is("id") || is("userid") {
            match read_number(vc.as_slice(), 255) {
                Some(v) => if 1 <= v {
                    self.userid = v as u8;
                },
                None => {},
            }
        } else if is("page") {
            match read_number(vc.as_slice(), usize::MAX as u64) {
                Some(v) => {
                    self.page = if v >= 1 { v as usize } else { 1 };
                },
                None => {
                    if self.page < 1 {
                        self.page = 1;
                    }
                },
            }
        } else if is("template") {
            self.template = if same_str(value, "true") {
                true
            } else if same_str(value, "false") {
                false
            } else {
                true
            };
        } else if is("type") || is("proxy") || is("proxytype") {
            self.proxy_type = owned(value);
        } else if is("column") || is("columnname") {
            self.column_name = owned(value);
        } else if is("source") || is("datasource") {
            self.data_source = owned(value);
        } else if is("tls") || is("mode") || is("tls_mode") {
            let lv = lowercase(value);
            if same_str(lv.as_str(), "1") || same_str(lv.as_str(), "true") {
                self.tls_mode = owned("true");
            } else if same_str(lv.as_str(), "0") || same_str(lv.as_str(), "false") {
                self.tls_mode = owned("false");
            }
        }
    }
}

/// What a request yields: the payload, or the names and nodes for the JSON overlay.
pub enum Subscription {
    Ready(String),
    Overlay(Vec<String>, Vec<String>),
}

/// `r` is the payload of a page whose endpoints synthesised to `pairs`.
pub open spec fn page_payload(
    pool: YamlValue,
    params: Params,
    endpoints: Seq<MyDataV>,
    clash_template: Seq<char>,
    pairs: Seq<(Seq<char>, Seq<char>)>,
    r: Subscription,
) -> bool {
    let target = target_spec(params.target@);
    let page = page_of(
        filtered(endpoints, tls_mode_spec(params.tls_mode@)),
        page_size_spec(target, params.node_count) as nat,
        params.page as nat,
    );
    let g = gather_fold(pairs, lists_names(target));
    &&& pairs.len() == page.len()
    &&& forall|i: int|
        0 <= i < page.len() ==> synthesized(
            pool,
            #[trigger] page[i],
            params.default_port,
            params.userid,
            target,
            params.proxy_type@,
            tls_mode_spec(params.tls_mode@),
            pairs[i],
        )
    &&& match r {
        Subscription::Ready(s) => if g.1.len() == 0 {
            s@.len() == 0
        } else {
            assembled(target, params.template, g.0, g.1, clash_template) == Some(s@)
        },
        Subscription::Overlay(names, nodes) => g.1.len() > 0 && assembled(
            target,
            params.template,
            g.0,
            g.1,
            clash_template,
        ) is None && names.deep_view() == g.0 && nodes.deep_view() == g.1,
    }
}

/// The payload for one page of `endpoints`: the page after the port filter, a node per
/// endpoint, names and nodes gathered, then assembled; empty when no node came out. For
/// JSON nodes over a base document, the names and nodes to lay over it.
pub fn sorting_data_and_build_subscribe(
    pool: &YamlValue,
    params: &Params,
    endpoints: &Vec<MyData>,
    clash_template: &str,
) -> (r: Subscription)
    requires
        params.page >= 1,
        page_size_spec(target_spec(params.target@), params.node_count) > 0,
    ensures
        exists|pairs: Seq<(Seq<char>, Seq<char>)>| #[trigger]
            page_payload(*pool, *params, endpoints_view(endpoints@), clash_template@, pairs, r),
{
    let target = target_of(params.target.as_str());
    let mode = tls_mode_of(params.tls_mode.as_str());
    let size = page_size(target, params.node_count);
    let page = select_page(endpoints, mode, size, params.page);
    let pairs = synthesize_page(
        &page,
        pool,
        target,
        params.proxy_type.as_str(),
        mode,
        params.userid,
        params.default_port,
    );
    let (names, nodes) = gather(&pairs, target);
    let ghost pv = pairs.deep_view();
    proof {
        assert forall|i: int| 0 <= i < page@.len() implies page@[i]@ == endpoints_view(page@)[i] by {}
    }
    let r = if nodes.len() == 0 {
        Subscription::Ready(String::new())
    } else {
        match build_full_subscribe(target, params.template, &names, &nodes, clash_template) {
            Some(s) => Subscription::Ready(s),
            None => Subscription::Overlay(names, nodes),
        }
    };
    assert(page_payload(*pool, *params, endpoints_view(endpoints@), clash_template@, pv, r));
    r
}

} // verus!
