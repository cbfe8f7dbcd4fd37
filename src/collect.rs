//! Endpoints gathered across sources: each `address:port` once, up to a count.
use vstd::prelude::*;
use crate::num::{dec, dec_chars};
use crate::source::{
    file_records, link_records, process_file, process_url, records_view, key_of,
    FileData, FileDataV,
};
use crate::text::{chars_of, has_prefix, holds, lower_of, lowercase, push_all, same_str, starts_with};

verus! {

/// An endpoint with the alias its node name is prefixed with (empty for none).
pub struct MyData {
    pub addr: String,
    pub port: Option<u16>,
    pub alias: String,
}

pub struct MyDataV {
    pub addr: Seq<char>,
    pub port: Option<u16>,
    pub alias: Seq<char>,
}

impl View for MyData {
    type V = MyDataV;

    open spec fn view(&self) -> MyDataV {
        MyDataV { addr: self.addr@, port: self.port, alias: self.alias@ }
    }
}

impl Clone for MyData {
    fn clone(&self) -> (r: MyData)
        ensures
            r@ == self@,
    {
        MyData { addr: self.addr.clone(), port: self.port, alias: self.alias.clone() }
    }
}

pub open spec fn endpoints_view(v: Seq<MyData>) -> Seq<MyDataV> {
    v.map_values(|d: MyData| d@)
}

/// A file of a directory: its name and what it holds.
pub struct SourceFile {
    pub name: String,
    pub text: String,
}

/// The descriptive column named by `column` (`colo`, `loc`, `region` or `city`); empty for
/// any other name.
pub open spec fn alias_for(f: FileDataV, column: Seq<char>) -> Seq<char> {
    if column == "colo"@ {
        f.colo
    } else if column == "loc"@ {
        f.loc
    } else if column == "region"@ {
        f.region
    } else if column == "city"@ {
        f.city
    } else {
        Seq::empty()
    }
}

pub open spec fn port_or(p: Option<u16>, default_port: u16) -> u16 {
    match p {
        Some(v) => v,
        None => default_port,
    }
}

/// One record into the running state: the keys seen and the endpoints kept. A record whose
/// key was seen is dropped; a new one is kept while fewer than `count` are.
pub open spec fn merge_step(
    st: (Seq<Seq<char>>, Seq<MyDataV>),
    f: FileDataV,
    column: Seq<char>,
    default_port: u16,
    count: nat,
) -> (Seq<Seq<char>>, Seq<MyDataV>) {
    let port = port_or(f.port, default_port);
    let key = key_of(f.addr, dec(port as nat));
    if st.0.contains(key) {
        st
    } else if st.1.len() < count {
        (
            st.0.push(key),
            st.1.push(MyDataV { addr: f.addr, port: Some(port), alias: alias_for(f, column) }),
        )
    } else {
        (st.0.push(key), st.1)
    }
}

pub open spec fn merge_from(
    st: (Seq<Seq<char>>, Seq<MyDataV>),
    items: Seq<FileDataV>,
    column: Seq<char>,
    default_port: u16,
    count: nat,
) -> (Seq<Seq<char>>, Seq<MyDataV>)
    decreases items.len(),
{
    if items.len() == 0 {
        st
    } else {
        merge_step(
            merge_from(st, items.drop_last(), column, default_port, count),
            items.last(),
            column,
            default_port,
            count,
        )
    }
}

/// The endpoints that a sequence of records gives.
pub open spec fn merged(items: Seq<FileDataV>, column: Seq<char>, default_port: u16, count: nat) -> Seq<
    MyDataV,
> {
    merge_from((Seq::empty(), Seq::empty()), items, column, default_port, count).1
}

/// Two records of one endpoint (same address, same port once resolved) give one entry.
pub proof fn lemma_same_endpoint_once(
    f1: FileDataV,
    f2: FileDataV,
    column: Seq<char>,
    default_port: u16,
    count: nat,
)
    requires
        f1.addr == f2.addr,
        port_or(f1.port, default_port) == port_or(f2.port, default_port),
        count >= 1,
    ensures
        merged(seq![f1, f2], column, default_port, count).len() == 1,
{
    let e = (Seq::<Seq<char>>::empty(), Seq::<MyDataV>::empty());
    assert(seq![f1, f2].drop_last() =~= seq![f1]);
    assert(seq![f1].drop_last() =~= Seq::<FileDataV>::empty());
    let st1 = merge_from(e, seq![f1], column, default_port, count);
    let key = key_of(f1.addr, dec(port_or(f1.port, default_port) as nat));
    assert(merge_from(e, Seq::<FileDataV>::empty(), column, default_port, count) == e);
    assert(st1 == merge_step(e, f1, column, default_port, count));
    assert(st1.0 =~= seq![key]);
    assert(st1.1.len() == 1);
    assert(st1.0[0] == key);
}

fn alias_of(f: &FileData, column: &str) -> (r: String)
    ensures
        r@ == alias_for(f@, column@),
{
    if same_str(column, "colo") {
        f.colo.clone()
    } else if same_str(column, "loc") {
        f.loc.clone()
    } else if same_str(column, "region") {
        f.region.clone()
    } else if same_str(column, "city") {
        f.city.clone()
    } else {
        String::new()
    }
}

proof fn lemma_merge_push(
    st: (Seq<Seq<char>>, Seq<MyDataV>),
    items: Seq<FileDataV>,
    f: FileDataV,
    column: Seq<char>,
    default_port: u16,
    count: nat,
)
    ensures
        merge_from(st, items.push(f), column, default_port, count) == merge_step(
            merge_from(st, items, column, default_port, count),
            f,
            column,
            default_port,
            count,
        ),
{
    assert(items.push(f).drop_last() =~= items);
}

/// Adds the records of `items` to the running state.
fn absorb(
    seen: &mut Vec<Vec<char>>,
    out: &mut Vec<MyData>,
    items: &Vec<FileData>,
    column: &str,
    default_port: u16,
    count: usize,
)
    ensures
        (final(seen).deep_view(), endpoints_view(final(out)@)) == merge_from(
            (old(seen).deep_view(), endpoints_view(old(out)@)),
            records_view(items@),
            column@,
            default_port,
            count as nat,
        ),
{
    let ghost st0 = (seen.deep_view(), endpoints_view(out@));
    let ghost iv = records_view(items@);
    let mut i: usize = 0;
    assert(iv.take(0) =~= Seq::<FileDataV>::empty());
    while i < items.len()
        invariant
            i <= items@.len(),
            iv == records_view(items@),
            (seen.deep_view(), endpoints_view(out@)) == merge_from(
                st0,
                iv.take(i as int),
                column@,
                default_port,
                count as nat,
            ),
        decreases items@.len() - i,
    {
        let f = &items[i];
        proof {
            assert(iv.take(i as int + 1) =~= iv.take(i as int).push(f@));
            lemma_merge_push(st0, iv.take(i as int), f@, column@, default_port, count as nat);
        }
        let port = match f.port {
            Some(p) => p,
            None => default_port,
        };
        let ac = chars_of(f.addr.as_str());
        let mut key: Vec<char> = Vec::new();
        push_all(&mut key, ac.as_slice());
        key.push(':');
        let pc = dec_chars(port as u64);
        push_all(&mut key, pc.as_slice());
        assert(key@ =~= key_of(f@.addr, dec(port as nat)));
        if !holds(seen, key.as_slice()) {
            let ghost kv = key@;
            let ghost before = seen.deep_view();
            seen.push(key);
            assert(seen@.last().deep_view() =~= kv);
            assert(seen.deep_view() =~= before.push(kv));
            if out.len() < count {
                let d = MyData { addr: f.addr.clone(), port: Some(port), alias: alias_of(f, column) };
                let ghost ob = endpoints_view(out@);
                out.push(d);
                assert(endpoints_view(out@) =~= ob.push(d@));
            }
        }
        i += 1;
    }
    assert(iv.take(i as int) =~= iv);
}

pub open spec fn files_view(files: Seq<SourceFile>) -> Seq<(Seq<char>, Seq<char>)> {
    files.map_values(|f: SourceFile| (f.name@, f.text@))
}

/// The records of all files in order; a file that gives an error gives none.
pub open spec fn all_records(files: Seq<(Seq<char>, Seq<char>)>, default_port: u16) -> Seq<
    FileDataV,
>
    decreases files.len(),
{
    if files.len() == 0 {
        Seq::empty()
    } else {
        all_records(files.drop_last(), default_port) + match file_records(
            files.last().0,
            files.last().1,
            default_port,
        ) {
            Ok(v) => v,
            Err(_) => Seq::empty(),
        }
    }
}

proof fn lemma_merge_concat(
    st: (Seq<Seq<char>>, Seq<MyDataV>),
    a: Seq<FileDataV>,
    b: Seq<FileDataV>,
    column: Seq<char>,
    default_port: u16,
    count: nat,
)
    ensures
        merge_from(st, a + b, column, default_port, count) == merge_from(
            merge_from(st, a, column, default_port, count),
            b,
            column,
            default_port,
            count,
        ),
    decreases b.len(),
{
    if b.len() == 0 {
        assert(a + b =~= a);
    } else {
        assert((a + b).drop_last() =~= a + b.drop_last());
        lemma_merge_concat(st, a, b.drop_last(), column, default_port, count);
    }
}

/// The endpoints of a set of files: records in file order, each `address:port` (port
/// resolved to `default_port` where missing) once, at most `count`, each with the alias
/// that `field_column` names.
pub fn read_files_data(field_column: &str, default_port: u16, count: usize, files: &Vec<SourceFile>) -> (r: Vec<MyData>)
    ensures
        endpoints_view(r@) == merged(
            all_records(files_view(files@), default_port),
            field_column@,
            default_port,
            count as nat,
        ),
{
    let mut seen: Vec<Vec<char>> = Vec::new();
    let mut out: Vec<MyData> = Vec::new();
    let ghost fv = files_view(files@);
    let ghost st0 = (Seq::<Seq<char>>::empty(), Seq::<MyDataV>::empty());
    assert(seen.deep_view() =~= st0.0);
    assert(endpoints_view(out@) =~= st0.1);
    assert(fv.take(0) =~= Seq::<(Seq<char>, Seq<char>)>::empty());
    let mut i: usize = 0;
    while i < files.len()
        invariant
            i <= files@.len(),
            fv == files_view(files@),
            (seen.deep_view(), endpoints_view(out@)) == merge_from(
                st0,
                all_records(fv.take(i as int), default_port),
                field_column@,
                default_port,
                count as nat,
            ),
        decreases files@.len() - i,
    {
        let file = &files[i];
        assert(fv.take(i as int + 1).drop_last() =~= fv.take(i as int));
        let got = process_file(file.name.as_str(), file.text.as_str(), default_port);
        let ghost prev = all_records(fv.take(i as int), default_port);
        match got {
            Ok(items) => {
                proof {
                    lemma_merge_concat(st0, prev, records_view(items@), field_column@, default_port, count as nat);
                }
                absorb(&mut seen, &mut out, &items, field_column, default_port, count);
            },
            Err(_) => {
                assert(prev + Seq::<FileDataV>::empty() =~= prev);
            },
        }
        i += 1;
    }
    assert(fv.take(i as int) =~= fv);
    out
}

/// The endpoints of one `https://` link that served `body`; none for another scheme or a
/// link whose records cannot be read.
pub fn process_network_data(
    field_column: &str,
    default_port: u16,
    count: usize,
    url: &str,
    body: &str,
) -> (r: Vec<MyData>)
    ensures
        endpoints_view(r@) == if starts_with(lower_of(url@), "https://"@) {
            match link_records(url@, body@, default_port) {
                Ok(items) => merged(items, field_column@, default_port, count as nat),
                Err(_) => Seq::empty(),
            }
        } else {
            Seq::empty()
        },
{
    let mut seen: Vec<Vec<char>> = Vec::new();
    let mut out: Vec<MyData> = Vec::new();
    assert(seen.deep_view() =~= Seq::<Seq<char>>::empty());
    assert(endpoints_view(out@) =~= Seq::<MyDataV>::empty());
    let low = lowercase(url);
    let lc = chars_of(low.as_str());
    if has_prefix(lc.as_slice(), "https://") {
        match process_url(url, body, default_port) {
            Ok(items) => {
                absorb(&mut seen, &mut out, &items, field_column, default_port, count);
            },
            Err(_) => {},
        }
    }
    out
}

} // verus!
