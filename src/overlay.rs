//! The JSON-node overlay: synthesised nodes laid over a base document.
use vstd::prelude::*;
use crate::text::same_str;
use crate::yaml::{entry_exact, is_text, YamlValue};

verus! {

/// The wildcard token that stands for "all nodes" in a group's member list.
pub open spec fn is_all_token(v: YamlValue) -> bool {
    match v {
        YamlValue::Text(s) => s@ == "{all}"@,
        _ => false,
    }
}

/// The members of a list without the wildcard token.
pub open spec fn kept_members(xs: Seq<YamlValue>) -> Seq<YamlValue>
    decreases xs.len(),
{
    if xs.len() == 0 {
        Seq::empty()
    } else if is_all_token(xs.last()) {
        kept_members(xs.drop_last())
    } else {
        kept_members(xs.drop_last()).push(xs.last())
    }
}

/// `ys` is the member list `xs` without the wildcard token, followed by the names.
pub open spec fn regrouped(xs: Seq<YamlValue>, ys: Seq<YamlValue>, names: Seq<Seq<char>>) -> bool {
    let k = kept_members(xs);
    &&& ys.len() == k.len() + names.len()
    &&& ys.take(k.len() as int) == k
    &&& forall|i: int| 0 <= i < names.len() ==> is_text(#[trigger] ys[k.len() + i], names[i])
}

/// `new` is the outbound `old` with the names in its member list: where `old` is an object
/// whose `outbounds` is a list, that list regrouped and the rest kept; otherwise unchanged.
pub open spec fn regroup_item(old: YamlValue, new: YamlValue, names: Seq<Seq<char>>) -> bool {
    match old {
        YamlValue::Mapping(es) => match entry_exact(es@, "outbounds"@, 0) {
            Some(j) => match es@[j].1 {
                YamlValue::Sequence(xs) => match new {
                    YamlValue::Mapping(es2) => {
                        &&& es2@.len() == es@.len()
                        &&& forall|i: int| 0 <= i < es@.len() && i != j ==> #[trigger] es2@[i] == es@[i]
                        &&& es2@[j].0 == es@[j].0
                        &&& match es2@[j].1 {
                            YamlValue::Sequence(ys) => regrouped(xs@, ys@, names),
                            _ => false,
                        }
                    },
                    _ => false,
                },
                _ => new == old,
            },
            None => new == old,
        },
        _ => new == old,
    }
}

/// `xs` with each node inserted at position 2 in turn (so the last node stands first).
pub open spec fn inserted(xs: Seq<YamlValue>, nodes: Seq<YamlValue>) -> Seq<YamlValue>
    decreases nodes.len(),
{
    if nodes.len() == 0 {
        xs
    } else {
        inserted(xs, nodes.drop_last()).insert(2, nodes.last())
    }
}

/// The base document can take nodes: where it has an `outbounds` list, that list holds at
/// least two outbounds.
pub open spec fn overlay_fits(base: YamlValue) -> bool {
    match base {
        YamlValue::Mapping(es) => match entry_exact(es@, "outbounds"@, 0) {
            Some(j) => match es@[j].1 {
                YamlValue::Sequence(xs) => xs@.len() >= 2,
                _ => true,
            },
            None => true,
        },
        _ => true,
    }
}

/// `out` is `base` with the nodes inserted into its `outbounds` list and each outbound's
/// member list regrouped; a base document without such a list is kept.
pub open spec fn overlaid(
    base: YamlValue,
    out: YamlValue,
    names: Seq<Seq<char>>,
    nodes: Seq<YamlValue>,
) -> bool {
    match base {
        YamlValue::Mapping(es) => match entry_exact(es@, "outbounds"@, 0) {
            Some(j) => match es@[j].1 {
                YamlValue::Sequence(xs) => match out {
                    YamlValue::Mapping(es2) => {
                        &&& es2@.len() == es@.len()
                        &&& forall|i: int| 0 <= i < es@.len() && i != j ==> #[trigger] es2@[i] == es@[i]
                        &&& es2@[j].0 == es@[j].0
                        &&& match es2@[j].1 {
                            YamlValue::Sequence(ys) => {
                                &&& ys@.len() == inserted(xs@, nodes).len()
                                &&& forall|i: int|
                                    0 <= i < ys@.len() ==> regroup_item(
                                        inserted(xs@, nodes)[i],
                                        #[trigger] ys@[i],
                                        names,
                                    )
                            },
                            _ => false,
                        }
                    },
                    _ => false,
                },
                _ => out == base,
            },
            None => out == base,
        },
        _ => out == base,
    }
}

fn all_token(v: &YamlValue) -> (r: bool)
    ensures
        r == is_all_token(*v),
{
    match v {
        YamlValue::Text(s) => same_str(s.as_str(), "{all}"),
        _ => false,
    }
}

fn find_outbounds(es: &Vec<(String, YamlValue)>) -> (r: Option<usize>)
    ensures
        match r {
            Some(j) => entry_exact(es@, "outbounds"@, 0) == Some(j as int) && j < es@.len(),
            None => entry_exact(es@, "outbounds"@, 0) is None,
        },
{
    let mut j: usize = 0;
    while j < es.len()
        invariant
            j <= es@.len(),
            entry_exact(es@, "outbounds"@, j as int) == entry_exact(es@, "outbounds"@, 0),
        decreases es@.len() - j,
    {
        if same_str(es[j].0.as_str(), "outbounds") {
            return Some(j);
        }
        j += 1;
    }
    None
}

/// The member list without the wildcard token, then the names.
fn regroup_members(xs: Vec<YamlValue>, names: &Vec<String>) -> (ys: Vec<YamlValue>)
    ensures
        regrouped(xs@, ys@, names.deep_view()),
{
    let ghost x0 = xs@;
    let mut rest = xs;
    let mut ys: Vec<YamlValue> = Vec::new();
    let mut i: usize = 0;
    let total = rest.len();
    assert(x0.take(0) =~= Seq::<YamlValue>::empty());
    while rest.len() > 0
        invariant
            total == x0.len(),
            i + rest@.len() == x0.len(),
            rest@ == x0.skip(i as int),
            ys@ == kept_members(x0.take(i as int)),
        decreases rest@.len(),
    {
        let v = rest.remove(0);
        assert(v == x0[i as int]);
        assert(x0.take(i as int + 1).drop_last() =~= x0.take(i as int));
        assert(rest@ =~= x0.skip(i as int + 1));
        if !all_token(&v) {
            ys.push(v);
        }
        i += 1;
    }
    assert(x0.take(i as int) =~= x0);
    let ghost k = ys@;
    let mut n: usize = 0;
    while n < names.len()
        invariant
            n <= names@.len(),
            k == kept_members(x0),
            ys@.len() == k.len() + n,
            ys@.take(k.len() as int) == k,
            forall|m: int| 0 <= m < n ==> is_text(#[trigger] ys@[k.len() + m], names.deep_view()[m]),
        decreases names@.len() - n,
    {
        assert(names.deep_view()[n as int] == names@[n as int]@);
        ys.push(YamlValue::Text(names[n].clone()));
        assert(ys@.take(k.len() as int) =~= k);
        n += 1;
    }
    ys
}

/// One outbound with the names in its member list.
fn regroup_one(item: YamlValue, names: &Vec<String>) -> (r: YamlValue)
    ensures
        regroup_item(item, r, names.deep_view()),
{
    match item {
        YamlValue::Mapping(es) => {
            let j = match find_outbounds(&es) {
                Some(j) => j,
                None => {
                    return YamlValue::Mapping(es);
                },
            };
            let is_list = match &es[j].1 {
                YamlValue::Sequence(_) => true,
                _ => false,
            };
            if !is_list {
                return YamlValue::Mapping(es);
            }
            let ghost e0 = es@;
            let mut es = es;
            let (k, v) = es.remove(j);
            match v {
                YamlValue::Sequence(xs) => {
                    let ys = regroup_members(xs, names);
                    es.insert(j, (k, YamlValue::Sequence(ys)));
                    assert(forall|i: int| 0 <= i < e0.len() && i != j ==> #[trigger] es@[i] == e0[i]);
                    YamlValue::Mapping(es)
                },
                _ => {
                    es.insert(j, (k, v));
                    YamlValue::Mapping(es)
                },
            }
        },
        other => other,
    }
}

/// Lays the nodes over a base document: each node inserted at position 2 of its
/// `outbounds` list (so the last node stands first), then in every outbound whose own
/// `outbounds` is a list, the `{all}` token taken out and the names appended. None when
/// there are no names or the base document is no object.
pub fn lay_over(base: YamlValue, names: &Vec<String>, nodes: Vec<YamlValue>) -> (r: Option<YamlValue>)
    requires
        overlay_fits(base),
    ensures
        r is None <==> (names@.len() == 0 || !(base is Mapping)),
        match r {
            Some(out) => overlaid(base, out, names.deep_view(), nodes@),
            None => true,
        },
{
    if names.len() == 0 {
        return None;
    }
    let es = match base {
        YamlValue::Mapping(es) => es,
        _ => {
            return None;
        },
    };
    let j = match find_outbounds(&es) {
        Some(j) => j,
        None => {
            return Some(YamlValue::Mapping(es));
        },
    };
    let is_list = match &es[j].1 {
        YamlValue::Sequence(_) => true,
        _ => false,
    };
    if !is_list {
        return Some(YamlValue::Mapping(es));
    }
    let ghost e0 = es@;
    let mut es = es;
    let (k, v) = es.remove(j);
    let xs = match v {
        YamlValue::Sequence(xs) => xs,
        _ => {
            return None;
        },
    };
    let ghost x0 = xs@;
    let mut items = xs;
    let mut pending = nodes;
    let ghost n0 = pending@;
    let total = pending.len();
    let mut i: usize = 0;
    while pending.len() > 0
        invariant
            total == n0.len(),
            x0.len() >= 2,
            i + pending@.len() == n0.len(),
            pending@ == n0.skip(i as int),
            items@ == inserted(x0, n0.take(i as int)),
            items@.len() == x0.len() + i,
        decreases pending@.len(),
    {
        let node = pending.remove(0);
        assert(node == n0[i as int]);
        assert(n0.take(i as int + 1).drop_last() =~= n0.take(i as int));
        assert(pending@ =~= n0.skip(i as int + 1));
        items.insert(2, node);
        i += 1;
    }
    assert(n0.take(i as int) =~= n0);
    let ghost z = items@;
    let mut out_items: Vec<YamlValue> = Vec::new();
    let mut m: usize = 0;
    let count = items.len();
    while items.len() > 0
        invariant
            count == z.len(),
            m + items@.len() == z.len(),
            items@ == z.skip(m as int),
            out_items@.len() == m,
            forall|q: int| 0 <= q < m ==> regroup_item(z[q], #[trigger] out_items@[q], names.deep_view()),
        decreases items@.len(),
    {
        let item = items.remove(0);
        assert(item == z[m as int]);
        assert(items@ =~= z.skip(m as int + 1));
        let g = regroup_one(item, names);
        out_items.push(g);
        m += 1;
    }
    es.insert(j, (k, YamlValue::Sequence(out_items)));
    assert(forall|q: int| 0 <= q < e0.len() && q != j ==> #[trigger] es@[q] == e0[q]);
    Some(YamlValue::Mapping(es))
}

} // verus!
