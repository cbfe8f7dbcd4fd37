//! Credential templates as a tree of YAML values.
use vstd::prelude::*;
use crate::num::{dec, dec_chars};
use crate::text::{chars_of, lower_of, lowercase, push_all, push_str, string_of};

verus! {

/// A YAML value. Numbers keep their JSON spelling; mapping keys are strings, in document
/// order.
pub enum YamlValue {
    Null,
    Bool(bool),
    Number(String),
    Text(String),
    Sequence(Vec<YamlValue>),
    Mapping(Vec<(String, YamlValue)>),
}

/// The first entry whose key equals `key` once both are lower-cased.
pub open spec fn entry_ci(es: Seq<(String, YamlValue)>, key: Seq<char>, j: int) -> Option<int>
    decreases es.len() - j,
{
    if j < 0 || j >= es.len() {
        None
    } else if lower_of(es[j].0@) == lower_of(key) {
        Some(j)
    } else {
        entry_ci(es, key, j + 1)
    }
}

/// The value at a path of keys, each matched without regard to case.
pub open spec fn lookup(v: YamlValue, keys: Seq<Seq<char>>) -> Option<YamlValue>
    decreases keys.len(),
{
    if keys.len() == 0 {
        Some(v)
    } else {
        match v {
            YamlValue::Mapping(es) => match entry_ci(es@, keys[0], 0) {
                Some(j) => lookup(es@[j].1, keys.skip(1)),
                None => None,
            },
            _ => None,
        }
    }
}

pub open spec fn keys_view(keys: Seq<&str>) -> Seq<Seq<char>> {
    keys.map_values(|k: &str| k@)
}

fn find_ci<'a>(es: &'a Vec<(String, YamlValue)>, key: &str) -> (r: Option<usize>)
    ensures
        match r {
            Some(j) => entry_ci(es@, key@, 0) == Some(j as int) && j < es@.len(),
            None => entry_ci(es@, key@, 0) is None,
        },
{
    let want = lowercase(key);
    let mut j: usize = 0;
    while j < es.len()
        invariant
            j <= es@.len(),
            want@ == lower_of(key@),
            entry_ci(es@, key@, j as int) == entry_ci(es@, key@, 0),
        decreases es@.len() - j,
    {
        let k = lowercase(es[j].0.as_str());
        if k == want {
            return Some(j);
        }
        j += 1;
    }
    None
}

/// The value at the path `keys` (keys compared without regard to case).
pub fn get_yaml_value<'a>(yaml: &'a YamlValue, keys: &[&str]) -> (r: Option<&'a YamlValue>)
    ensures
        match r {
            Some(v) => lookup(*yaml, keys_view(keys@)) == Some(*v),
            None => lookup(*yaml, keys_view(keys@)) is None,
        },
{
    let ghost kv = keys_view(keys@);
    let mut current = yaml;
    let mut i: usize = 0;
    assert(kv.skip(0) =~= kv);
    while i < keys.len()
        invariant
            i <= keys@.len(),
            kv == keys_view(keys@),
            lookup(*yaml, kv) == lookup(*current, kv.skip(i as int)),
        decreases keys@.len() - i,
    {
        assert(kv.skip(i as int)[0] == keys@[i as int]@);
        assert(kv.skip(i as int).skip(1) =~= kv.skip(i as int + 1));
        match current {
            YamlValue::Mapping(es) => match find_ci(es, keys[i]) {
                Some(j) => {
                    current = &es[j].1;
                },
                None => {
                    return None;
                },
            },
            _ => {
                return None;
            },
        }
        i += 1;
    }
    assert(kv.skip(i as int).len() == 0);
    Some(current)
}

pub open spec fn text_of(v: Option<YamlValue>) -> Option<Seq<char>> {
    match v {
        Some(YamlValue::Text(s)) => Some(s@),
        _ => None,
    }
}

/// The text at the first of `keys` (each a one-key path) that holds text.
pub open spec fn fallback_from(v: YamlValue, keys: Seq<Seq<char>>, i: int) -> Option<Seq<char>>
    decreases keys.len() - i,
{
    if i < 0 || i >= keys.len() {
        None
    } else {
        match text_of(lookup(v, seq![keys[i]])) {
            Some(s) => Some(s),
            None => fallback_from(v, keys, i + 1),
        }
    }
}

/// The text under the first of `keys` that holds text.
pub fn get_yaml_value_with_fallback<'a>(yaml: &'a YamlValue, keys: &[&str]) -> (r: Option<&'a str>)
    ensures
        match r {
            Some(s) => fallback_from(*yaml, keys_view(keys@), 0) == Some(s@),
            None => fallback_from(*yaml, keys_view(keys@), 0) is None,
        },
{
    let ghost kv = keys_view(keys@);
    let mut i: usize = 0;
    while i < keys.len()
        invariant
            i <= keys@.len(),
            kv == keys_view(keys@),
            fallback_from(*yaml, kv, i as int) == fallback_from(*yaml, kv, 0),
        decreases keys@.len() - i,
    {
        let one = [keys[i]];
        assert(keys_view(one@) =~= seq![kv[i as int]]);
        match get_yaml_value(yaml, &one) {
            Some(YamlValue::Text(s)) => {
                return Some(s.as_str());
            },
            _ => {},
        }
        i += 1;
    }
    None
}

/// The text at a path, or empty.
pub open spec fn text_at(v: YamlValue, keys: Seq<Seq<char>>) -> Seq<char> {
    match text_of(lookup(v, keys)) {
        Some(s) => s,
        None => Seq::empty(),
    }
}

pub fn text_at_path(yaml: &YamlValue, keys: &[&str]) -> (r: String)
    ensures
        r@ == text_at(*yaml, keys_view(keys@)),
{
    match get_yaml_value(yaml, keys) {
        Some(YamlValue::Text(s)) => s.clone(),
        _ => String::new(),
    }
}

/// The flag at a path, or `true`.
pub open spec fn flag_at(v: YamlValue, keys: Seq<Seq<char>>) -> bool {
    match lookup(v, keys) {
        Some(YamlValue::Bool(b)) => b,
        _ => true,
    }
}

pub fn flag_at_path(yaml: &YamlValue, keys: &[&str]) -> (r: bool)
    ensures
        r == flag_at(*yaml, keys_view(keys@)),
{
    match get_yaml_value(yaml, keys) {
        Some(YamlValue::Bool(b)) => *b,
        _ => true,
    }
}

/// The first entry whose key is exactly `key`.
pub open spec fn entry_exact(es: Seq<(String, YamlValue)>, key: Seq<char>, j: int) -> Option<int>
    decreases es.len() - j,
{
    if j < 0 || j >= es.len() {
        None
    } else if es[j].0@ == key {
        Some(j)
    } else {
        entry_exact(es, key, j + 1)
    }
}

fn find_exact(es: &Vec<(String, YamlValue)>, key: &str) -> (r: Option<usize>)
    ensures
        match r {
            Some(j) => entry_exact(es@, key@, 0) == Some(j as int) && j < es@.len(),
            None => entry_exact(es@, key@, 0) is None,
        },
{
    let want = string_of(chars_of(key).as_slice());
    let mut j: usize = 0;
    while j < es.len()
        invariant
            j <= es@.len(),
            want@ == key@,
            entry_exact(es@, key@, j as int) == entry_exact(es@, key@, 0),
        decreases es@.len() - j,
    {
        if es[j].0 == want {
            return Some(j);
        }
        j += 1;
    }
    None
}

/// The text under the key `key` of a mapping (exact match), or empty.
pub open spec fn field_text(v: YamlValue, key: Seq<char>) -> Seq<char> {
    match v {
        YamlValue::Mapping(es) => match entry_exact(es@, key, 0) {
            Some(j) => match es@[j].1 {
                YamlValue::Text(s) => s@,
                _ => Seq::empty(),
            },
            None => Seq::empty(),
        },
        _ => Seq::empty(),
    }
}

pub fn field_text_of(v: &YamlValue, key: &str) -> (r: String)
    ensures
        r@ == field_text(*v, key@),
{
    match v {
        YamlValue::Mapping(es) => match find_exact(es, key) {
            Some(j) => match &es[j].1 {
                YamlValue::Text(s) => s.clone(),
                _ => String::new(),
            },
            None => String::new(),
        },
        _ => String::new(),
    }
}

/// A mapping with the value under `key` (exact match) replaced, where there is one.
pub open spec fn set_field(es: Seq<(String, YamlValue)>, key: Seq<char>, val: YamlValue) -> Seq<
    (String, YamlValue),
> {
    match entry_exact(es, key, 0) {
        Some(j) => es.update(j, (es[j].0, val)),
        None => es,
    }
}

fn set_field_of(es: &mut Vec<(String, YamlValue)>, key: &str, val: YamlValue)
    ensures
        final(es)@ == set_field(old(es)@, key@, val),
{
    match find_exact(es, key) {
        Some(j) => {
            let k = es[j].0.clone();
            es.set(j, (k, val));
        },
        None => {},
    }
}

broadcast use vstd::std_specs::vec::group_vec_axioms, vstd::seq::group_seq_axioms;

/// The JSON text of a string, as `serde_json` writes it.
pub uninterp spec fn json_quoted(s: Seq<char>) -> Seq<char>;

/// Relies on `serde_json::to_string` on a string slice: the JSON literal of the text (a
/// string always serialises).
#[verifier::external_body]
pub(crate) fn json_string(s: &str) -> (r: String)
    ensures
        r@ == json_quoted(s@),
{
    serde_json::to_string(s).unwrap_or_default()
}

/// Compact JSON of a value.
pub open spec fn json_of(v: YamlValue) -> Seq<char>
    decreases v, 0nat,
{
    match v {
        YamlValue::Null => "null"@,
        YamlValue::Bool(b) => if b {
            "true"@
        } else {
            "false"@
        },
        YamlValue::Number(s) => s@,
        YamlValue::Text(s) => json_quoted(s@),
        YamlValue::Sequence(items) => seq!['['] + json_items(items@, items@.len() as int) + seq![']'],
        YamlValue::Mapping(es) => seq!['{'] + json_entries(es@, es@.len() as int) + seq!['}'],
    }
}

/// The first `n` values, comma-separated.
pub open spec fn json_items(items: Seq<YamlValue>, n: int) -> Seq<char>
    decreases items, n,
{
    if n <= 0 || n > items.len() {
        Seq::empty()
    } else if n == 1 {
        json_of(items[0])
    } else {
        json_items(items, n - 1) + seq![','] + json_of(items[n - 1])
    }
}

/// The first `n` entries as `"key":value`, comma-separated.
pub open spec fn json_entries(es: Seq<(String, YamlValue)>, n: int) -> Seq<char>
    decreases es, n,
{
    if n <= 0 || n > es.len() {
        Seq::empty()
    } else if n == 1 {
        json_quoted(es[0].0@) + seq![':'] + json_of(es[0].1)
    } else {
        json_entries(es, n - 1) + seq![','] + json_quoted(es[n - 1].0@) + seq![':'] + json_of(
            es[n - 1].1,
        )
    }
}

proof fn lemma_json_items_step(items: Seq<YamlValue>, i: int)
    requires
        0 <= i < items.len(),
    ensures
        json_items(items, i + 1) == if i == 0 {
            json_of(items[0])
        } else {
            json_items(items, i) + seq![','] + json_of(items[i])
        },
{
}

/// Compact JSON of a value, as `serde_json::to_string` writes it.
pub fn to_json(v: &YamlValue) -> (r: Vec<char>)
    ensures
        r@ == json_of(*v),
    decreases v,
{
    match v {
        YamlValue::Null => chars_of("null"),
        YamlValue::Bool(b) => if *b {
            chars_of("true")
        } else {
            chars_of("false")
        },
        YamlValue::Number(s) => chars_of(s.as_str()),
        YamlValue::Text(s) => chars_of(json_string(s.as_str()).as_str()),
        YamlValue::Sequence(items) => {
            let mut out: Vec<char> = Vec::new();
            out.push('[');
            let mut i: usize = 0;
            assert(out@ =~= seq!['['] + json_items(items@, 0));
            while i < items.len()
                invariant
                    i <= items@.len(),
                    *v == YamlValue::Sequence(*items),
                    out@ == seq!['['] + json_items(items@, i as int),
                decreases items@.len() - i,
            {
                proof {
                    assert(decreases_to!(*v => (*v)->Sequence_0));
                    assert(decreases_to!(*items => items[i as int]));
                    lemma_json_items_step(items@, i as int);
                }
                let ghost before = out@;
                if i > 0 {
                    out.push(',');
                }
                let part = to_json(&items[i]);
                push_all(&mut out, part.as_slice());
                assert(out@ =~= seq!['['] + json_items(items@, i as int + 1));
                i += 1;
            }
            out.push(']');
            out
        },
        YamlValue::Mapping(es) => {
            let mut out: Vec<char> = Vec::new();
            out.push('{');
            let mut i: usize = 0;
            assert(out@ =~= seq!['{'] + json_entries(es@, 0));
            while i < es.len()
                invariant
                    i <= es@.len(),
                    *v == YamlValue::Mapping(*es),
                    out@ == seq!['{'] + json_entries(es@, i as int),
                decreases es@.len() - i,
            {
                proof {
                    assert(decreases_to!(*v => (*v)->Mapping_0));
                    assert(decreases_to!(*es => es[i as int]));
                    assert(decreases_to!(es[i as int] => es[i as int].1));
                }
                if i > 0 {
                    out.push(',');
                }
                let k = json_string(es[i].0.as_str());
                push_str(&mut out, k.as_str());
                out.push(':');
                let part = to_json(&es[i].1);
                push_all(&mut out, part.as_slice());
                assert(out@ =~= seq!['{'] + json_entries(es@, i as int + 1));
                i += 1;
            }
            out.push('}');
            out
        },
    }
}

pub open spec fn is_text(v: YamlValue, s: Seq<char>) -> bool {
    match v {
        YamlValue::Text(t) => t@ == s,
        _ => false,
    }
}

pub open spec fn is_number(v: YamlValue, s: Seq<char>) -> bool {
    match v {
        YamlValue::Number(t) => t@ == s,
        _ => false,
    }
}

/// Which field entry `j` of a template mapping is, for a proxy entry.
pub open spec fn is_field(es: Seq<(String, YamlValue)>, key: Seq<char>, j: int) -> bool {
    entry_exact(es, key, 0) == Some(j)
}

/// The entries of a proxy entry made from template entries `old`: keys kept; the values
/// under `name`, `server` and `port` replaced by the node name, the address and the port;
/// the rest kept.
pub open spec fn clash_entries(
    old: Seq<(String, YamlValue)>,
    new: Seq<(String, YamlValue)>,
    remarks: Seq<char>,
    server: Seq<char>,
    port: u16,
) -> bool {
    &&& new.len() == old.len()
    &&& forall|j: int|
        0 <= j < old.len() ==> {
            &&& #[trigger] new[j].0 == old[j].0
            &&& if is_field(old, "name"@, j) {
                is_text(new[j].1, remarks)
            } else if is_field(old, "server"@, j) {
                is_text(new[j].1, server)
            } else if is_field(old, "port"@, j) {
                is_number(new[j].1, dec(port as nat))
            } else {
                new[j].1 == old[j].1
            }
        }
}

proof fn lemma_exact_same_keys(a: Seq<(String, YamlValue)>, b: Seq<(String, YamlValue)>, key: Seq<char>, j: int)
    requires
        a.len() == b.len(),
        forall|i: int| 0 <= i < a.len() ==> #[trigger] a[i].0 == b[i].0,
    ensures
        entry_exact(a, key, j) == entry_exact(b, key, j),
    decreases a.len() - j,
{
    if 0 <= j < a.len() {
        assert(a[j].0 == b[j].0);
        lemma_exact_same_keys(a, b, key, j + 1);
    }
}

/// Turns a template into a proxy entry: where the template is a mapping, the values under
/// `name`, `server` and `port` become the node name, the address and the port.
pub fn build_clash_yaml(yaml_value: &mut YamlValue, remarks: String, server_address: String, server_port: u16)
    ensures
        match *old(yaml_value) {
            YamlValue::Mapping(old_es) => match *final(yaml_value) {
                YamlValue::Mapping(new_es) => clash_entries(
                    old_es@,
                    new_es@,
                    remarks@,
                    server_address@,
                    server_port,
                ),
                _ => false,
            },
            _ => *final(yaml_value) == *old(yaml_value),
        },
{
    match yaml_value {
        YamlValue::Mapping(es) => {
            let ghost e0 = es@;
            set_field_of(es, "name", YamlValue::Text(remarks));
            let ghost e1 = es@;
            set_field_of(es, "server", YamlValue::Text(server_address));
            let ghost e2 = es@;
            let p = string_of(dec_chars(server_port as u64).as_slice());
            set_field_of(es, "port", YamlValue::Number(p));
            proof {
                lemma_set_field_keys(e0, "name"@, YamlValue::Text(remarks));
                lemma_set_field_keys(e1, "server"@, YamlValue::Text(server_address));
                lemma_set_field_keys(e2, "port"@, YamlValue::Number(p));
                lemma_exact_same_keys(e0, e1, "server"@, 0);
                lemma_exact_same_keys(e0, e1, "port"@, 0);
                lemma_exact_same_keys(e1, e2, "port"@, 0);
                reveal_strlit("name");
                reveal_strlit("server");
                reveal_strlit("port");
                assert("name"@.len() != "server"@.len());
                assert("port"@.len() != "server"@.len());
                assert("name"@[0] != "port"@[0]);
                lemma_exact_distinct(e0, "name"@, "server"@);
                lemma_exact_distinct(e0, "name"@, "port"@);
                lemma_exact_distinct(e0, "server"@, "port"@);
            }
        },
        _ => {},
    }
}

proof fn lemma_set_field_keys(es: Seq<(String, YamlValue)>, key: Seq<char>, val: YamlValue)
    ensures
        set_field(es, key, val).len() == es.len(),
        forall|i: int| 0 <= i < es.len() ==> #[trigger] set_field(es, key, val)[i].0 == es[i].0,
        forall|i: int|
            0 <= i < es.len() && entry_exact(es, key, 0) != Some(i) ==> #[trigger] set_field(
                es,
                key,
                val,
            )[i].1 == es[i].1,
        forall|i: int|
            0 <= i < es.len() && entry_exact(es, key, 0) == Some(i) ==> #[trigger] set_field(
                es,
                key,
                val,
            )[i].1 == val,
{
    lemma_exact_found(es, key, 0);
}

proof fn lemma_exact_found(es: Seq<(String, YamlValue)>, key: Seq<char>, j: int)
    requires
        0 <= j,
    ensures
        match entry_exact(es, key, j) {
            Some(i) => j <= i < es.len() && es[i].0@ == key,
            None => true,
        },
    decreases es.len() - j,
{
    if j < es.len() && es[j].0@ != key {
        lemma_exact_found(es, key, j + 1);
    }
}

proof fn lemma_exact_distinct(es: Seq<(String, YamlValue)>, a: Seq<char>, b: Seq<char>)
    requires
        a != b,
    ensures
        entry_exact(es, a, 0) is Some ==> entry_exact(es, a, 0) != entry_exact(es, b, 0),
{
    lemma_exact_found(es, a, 0);
    lemma_exact_found(es, b, 0);
}

/// The JSON of entry `j`'s value in a proxy entry.
pub open spec fn clash_value(
    es: Seq<(String, YamlValue)>,
    j: int,
    remarks: Seq<char>,
    server: Seq<char>,
    port: u16,
) -> Seq<char> {
    if is_field(es, "name"@, j) {
        json_quoted(remarks)
    } else if is_field(es, "server"@, j) {
        json_quoted(server)
    } else if is_field(es, "port"@, j) {
        dec(port as nat)
    } else {
        json_of(es[j].1)
    }
}

/// The first `n` entries of a proxy entry as `"key":value`, comma-separated.
pub open spec fn clash_pairs(
    es: Seq<(String, YamlValue)>,
    n: int,
    remarks: Seq<char>,
    server: Seq<char>,
    port: u16,
) -> Seq<char>
    decreases n,
{
    if n <= 0 || n > es.len() {
        Seq::empty()
    } else if n == 1 {
        json_quoted(es[0].0@) + seq![':'] + clash_value(es, 0, remarks, server, port)
    } else {
        clash_pairs(es, n - 1, remarks, server, port) + seq![','] + json_quoted(es[n - 1].0@)
            + seq![':'] + clash_value(es, n - 1, remarks, server, port)
    }
}

/// Compact JSON of the proxy entry that a template gives (see `build_clash_yaml`).
pub open spec fn clash_json(v: YamlValue, remarks: Seq<char>, server: Seq<char>, port: u16) -> Seq<
    char,
> {
    match v {
        YamlValue::Mapping(es) => seq!['{'] + clash_pairs(es@, es@.len() as int, remarks, server, port)
            + seq!['}'],
        _ => json_of(v),
    }
}

/// The JSON of a built proxy entry is the JSON the template gives.
pub proof fn lemma_clash_json(
    old: Seq<(String, YamlValue)>,
    new: Seq<(String, YamlValue)>,
    remarks: Seq<char>,
    server: Seq<char>,
    port: u16,
    n: int,
)
    requires
        clash_entries(old, new, remarks, server, port),
        0 <= n <= old.len(),
    ensures
        json_entries(new, n) == clash_pairs(old, n, remarks, server, port),
    decreases n,
{
    if n > 0 {
        let j = n - 1;
        assert(new[j].0 == old[j].0);
        assert(json_of(new[j].1) == clash_value(old, j, remarks, server, port));
        if n > 1 {
            lemma_clash_json(old, new, remarks, server, port, n - 1);
        }
    }
}

/// The proxy entry a template gives, as compact JSON: `build_clash_yaml` then
/// `serde_json::to_string`.
pub fn clash_json_of(v: &YamlValue, remarks: &str, server: &str, port: u16) -> (r: Vec<char>)
    ensures
        r@ == clash_json(*v, remarks@, server@, port),
{
    match v {
        YamlValue::Mapping(es) => {
            let rq = json_string(remarks);
            let sq = json_string(server);
            let pd = dec_chars(port as u64);
            let name_at = find_exact(es, "name");
            let server_at = find_exact(es, "server");
            let port_at = find_exact(es, "port");
            let mut out: Vec<char> = Vec::new();
            out.push('{');
            let mut i: usize = 0;
            assert(out@ =~= seq!['{'] + clash_pairs(es@, 0, remarks@, server@, port));
            while i < es.len()
                invariant
                    i <= es@.len(),
                    out@ == seq!['{'] + clash_pairs(es@, i as int, remarks@, server@, port),
                    rq@ == json_quoted(remarks@),
                    sq@ == json_quoted(server@),
                    pd@ == dec(port as nat),
                    opt_index(name_at) == entry_exact(es@, "name"@, 0),
                    opt_index(server_at) == entry_exact(es@, "server"@, 0),
                    opt_index(port_at) == entry_exact(es@, "port"@, 0),
                decreases es@.len() - i,
            {
                if i > 0 {
                    out.push(',');
                }
                let k = json_string(es[i].0.as_str());
                push_str(&mut out, k.as_str());
                out.push(':');
                if name_at == Some(i) {
                    push_str(&mut out, rq.as_str());
                } else if server_at == Some(i) {
                    push_str(&mut out, sq.as_str());
                } else if port_at == Some(i) {
                    push_all(&mut out, pd.as_slice());
                } else {
                    let part = to_json(&es[i].1);
                    push_all(&mut out, part.as_slice());
                }
                assert(out@ =~= seq!['{'] + clash_pairs(es@, i as int + 1, remarks@, server@, port));
                i += 1;
            }
            out.push('}');
            out
        },
        _ => to_json(v),
    }
}

pub open spec fn opt_index(o: Option<usize>) -> Option<int> {
    match o {
        Some(j) => Some(j as int),
        None => None,
    }
}

} // verus!
