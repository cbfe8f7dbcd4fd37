//! Endpoint records read from text lists and CSV tables.
use vstd::prelude::*;
use crate::line::{classify, parse_line};
use crate::num::{parse_port, read_port};
use crate::text::{
    ends_with, has_suffix, same_chars, slice_of, lower_of, lowercase, chars_of, find_char, find_from, has_prefix, holds, lemma_find_from, push_all, string_of,
    trim, trimmed, starts_with,
};

verus! {

/// One endpoint as a source lists it, with the descriptive columns of a CSV row
/// (empty where the source has no such column).
pub struct FileData {
    pub addr: String,
    pub port: Option<u16>,
    pub colo: String,
    pub loc: String,
    pub region: String,
    pub city: String,
}

pub struct FileDataV {
    pub addr: Seq<char>,
    pub port: Option<u16>,
    pub colo: Seq<char>,
    pub loc: Seq<char>,
    pub region: Seq<char>,
    pub city: Seq<char>,
}

impl View for FileData {
    type V = FileDataV;

    open spec fn view(&self) -> FileDataV {
        FileDataV {
            addr: self.addr@,
            port: self.port,
            colo: self.colo@,
            loc: self.loc@,
            region: self.region@,
            city: self.city@,
        }
    }
}

pub open spec fn records_view(v: Seq<FileData>) -> Seq<FileDataV> {
    v.map_values(|f: FileData| f@)
}

/// Why a source gave no records.
#[derive(Clone, Copy, Debug, PartialEq, Eq, Structural)]
pub enum SourceError {
    /// The file is neither `.txt` nor `.csv`.
    UnsupportedFile,
    /// A text list whose name marks it as one to leave out.
    SkippedFile,
    /// The CSV text could not be read as a table.
    MalformedTable,
    /// The link ends neither in `.txt` nor in `.csv`.
    UnsupportedLink,
}

/// A record of a text list: address and port, no descriptive columns.
pub open spec fn text_record(addr: Seq<char>, port: Option<u16>) -> FileDataV {
    FileDataV {
        addr,
        port,
        colo: Seq::empty(),
        loc: Seq::empty(),
        region: Seq::empty(),
        city: Seq::empty(),
    }
}

/// The `address:port` text that identifies an endpoint.
pub open spec fn key_of(addr: Seq<char>, port: Seq<char>) -> Seq<char> {
    addr + seq![':'] + port
}

/// One line of a text list, given the keys seen so far and the records so far.
pub open spec fn txt_step(
    st: (Seq<Seq<char>>, Seq<FileDataV>),
    line: Seq<char>,
    default_port: u16,
) -> (Seq<Seq<char>>, Seq<FileDataV>) {
    let t = trimmed(line);
    if t.len() == 0 || t.contains('/') || st.0.contains(t) {
        st
    } else {
        match classify(t, default_port) {
            Some((a, p)) => if st.0.contains(key_of(a, p)) || a.len() == 0 {
                st
            } else {
                (st.0.push(key_of(a, p)), st.1.push(text_record(a, parse_port(p))))
            },
            None => st,
        }
    }
}

pub open spec fn txt_fold(lines: Seq<Seq<char>>, default_port: u16) -> (
    Seq<Seq<char>>,
    Seq<FileDataV>,
)
    decreases lines.len(),
{
    if lines.len() == 0 {
        (Seq::empty(), Seq::empty())
    } else {
        txt_step(txt_fold(lines.drop_last(), default_port), lines.last(), default_port)
    }
}

/// Lines cut at `'\n'`: the finished lines and the one still open.
pub open spec fn split_lines(s: Seq<char>) -> (Seq<Seq<char>>, Seq<char>)
    decreases s.len(),
{
    if s.len() == 0 {
        (Seq::empty(), Seq::empty())
    } else if s.last() == '\n' {
        (split_lines(s.drop_last()).0.push(split_lines(s.drop_last()).1), Seq::empty())
    } else {
        (split_lines(s.drop_last()).0, split_lines(s.drop_last()).1.push(s.last()))
    }
}

/// The lines of a text, as `str::lines` gives them (a `'\r'` before `'\n'` stays; trimming
/// takes it off).
pub open spec fn lines_of(s: Seq<char>) -> Seq<Seq<char>> {
    if split_lines(s).1.len() == 0 {
        split_lines(s).0
    } else {
        split_lines(s).0.push(split_lines(s).1)
    }
}

/// The records of a text list.
pub open spec fn txt_records(text: Seq<char>, default_port: u16) -> Seq<FileDataV> {
    txt_fold(lines_of(text), default_port).1
}

fn new_record(addr: Vec<char>, port: Option<u16>) -> (r: FileData)
    ensures
        r@ == text_record(addr@, port),
{
    FileData {
        addr: string_of(addr.as_slice()),
        port,
        colo: String::new(),
        loc: String::new(),
        region: String::new(),
        city: String::new(),
    }
}

/// One line of a text list into the running state.
fn take_line(seen: &mut Vec<Vec<char>>, out: &mut Vec<FileData>, line: &[char], default_port: u16)
    ensures
        (final(seen).deep_view(), records_view(final(out)@)) == txt_step(
            (old(seen).deep_view(), records_view(old(out)@)),
            line@,
            default_port,
        ),
{
    let ghost st = (seen.deep_view(), records_view(out@));
    let t = trim(line);
    if t.len() == 0 {
        return;
    }
    let slash = find_char(t.as_slice(), 0, '/');
    proof {
        lemma_find_from(t@, 0, '/');
        if t@.contains('/') {
            let k = choose|k: int| 0 <= k < t@.len() && t@[k] == '/';
            assert(find_from(t@, 0, '/') <= k);
        }
    }
    if slash < t.len() || holds(seen, t.as_slice()) {
        return;
    }
    match parse_line(t.as_slice(), default_port) {
        Some((a, p)) => {
            let mut key: Vec<char> = Vec::new();
            push_all(&mut key, a.as_slice());
            key.push(':');
            push_all(&mut key, p.as_slice());
            assert(key@ =~= key_of(a@, p@));
            if holds(seen, key.as_slice()) || a.len() == 0 {
                return;
            }
            let port = read_port(p.as_slice());
            let ghost k = key@;
            let rec = new_record(a, port);
            seen.push(key);
            out.push(rec);
            proof {
                assert(seen@.last().deep_view() =~= k);
                assert(seen.deep_view() =~= st.0.push(key_of(a@, p@)));
                assert(records_view(out@) =~= st.1.push(text_record(a@, parse_port(p@))));
            }
        },
        None => {},
    }
}

/// Two lines that spell the same endpoint give a single record: the first gives it, and
/// the second repeats its `address:port` key.
pub proof fn lemma_same_endpoint_collapses(l1: Seq<char>, l2: Seq<char>, default_port: u16)
    requires
        trimmed(l1).len() > 0,
        !trimmed(l1).contains('/'),
        match classify(trimmed(l1), default_port) {
            Some((a, _p)) => a.len() > 0,
            None => false,
        },
        classify(trimmed(l1), default_port) == classify(trimmed(l2), default_port),
    ensures
        txt_fold(seq![l1, l2], default_port).1.len() == 1,
{
    let e = Seq::<Seq<char>>::empty();
    assert(seq![l1, l2].drop_last() =~= seq![l1]);
    assert(seq![l1].drop_last() =~= e);
    assert(txt_fold(e, default_port) == (e, Seq::<FileDataV>::empty()));
    let st1 = txt_fold(seq![l1], default_port);
    let (a, p) = classify(trimmed(l1), default_port)->0;
    assert(st1.0 == seq![key_of(a, p)]);
    assert(st1.0.contains(key_of(a, p))) by {
        assert(st1.0[0] == key_of(a, p));
    }
    assert(st1.1.len() == 1);
}

/// The records of a text list: each line trimmed; empty lines, lines with `/` and lines
/// seen before left out; each line parsed by the cascade; each `address:port` kept once.
pub fn parse_txt(text: &str, default_port: u16) -> (r: Vec<FileData>)
    ensures
        records_view(r@) == txt_records(text@, default_port),
{
    let cs = chars_of(text);
    let mut seen: Vec<Vec<char>> = Vec::new();
    let mut out: Vec<FileData> = Vec::new();
    let mut cur: Vec<char> = Vec::new();
    let mut i: usize = 0;
    proof {
        assert(seen.deep_view() =~= Seq::<Seq<char>>::empty());
        assert(records_view(out@) =~= Seq::<FileDataV>::empty());
        assert(cs@.take(0) =~= Seq::<char>::empty());
    }
    while i < cs.len()
        invariant
            i <= cs@.len(),
            cs@ == text@,
            cur@ == split_lines(cs@.take(i as int)).1,
            (seen.deep_view(), records_view(out@)) == txt_fold(
                split_lines(cs@.take(i as int)).0,
                default_port,
            ),
        decreases cs@.len() - i,
    {
        let ghost pre = cs@.take(i as int);
        assert(cs@.take(i as int + 1).drop_last() =~= pre);
        if cs[i] == '\n' {
            take_line(&mut seen, &mut out, cur.as_slice(), default_port);
            proof {
                let ls = split_lines(pre).0.push(split_lines(pre).1);
                assert(ls.drop_last() =~= split_lines(pre).0);
            }
            cur = Vec::new();
            assert(cur@ =~= Seq::<char>::empty());
        } else {
            cur.push(cs[i]);
        }
        i += 1;
    }
    assert(cs@.take(cs@.len() as int) =~= cs@);
    if cur.len() > 0 {
        take_line(&mut seen, &mut out, cur.as_slice(), default_port);
        proof {
            let ls = split_lines(cs@).0.push(split_lines(cs@).1);
            assert(ls.drop_last() =~= split_lines(cs@).0);
        }
    }
    out
}

/// The header fields and rows of a CSV text, as the `csv` crate reads it.
pub uninterp spec fn csv_table(text: Seq<char>) -> Option<(Seq<Seq<char>>, Seq<Seq<Seq<char>>>)>;

pub open spec fn table_view(r: Option<(Vec<String>, Vec<Vec<String>>)>) -> Option<
    (Seq<Seq<char>>, Seq<Seq<Seq<char>>>),
> {
    match r {
        Some((h, rows)) => Some((h.deep_view(), rows.deep_view())),
        None => None,
    }
}

/// Relies on `csv::ReaderBuilder` with its defaults (a header row, commas, rows as long as
/// the header): the header fields and the rows, or nothing where the text is no such table.
#[verifier::external_body]
fn read_table(text: &str) -> (r: Option<(Vec<String>, Vec<Vec<String>>)>)
    ensures
        table_view(r) == csv_table(text@),
{
    let mut rdr = csv::ReaderBuilder::new().from_reader(text.as_bytes());
    let headers: Vec<String> = rdr.headers().ok()?.iter().map(String::from).collect();
    let rows: Result<Vec<Vec<String>>, csv::Error> = rdr
        .records()
        .map(|rec| rec.map(|r| r.iter().map(String::from).collect()))
        .collect();
    Some((headers, rows.ok()?))
}

/// The fields that a CSV column can fill.
#[derive(Clone, Copy, Debug, PartialEq, Eq, Structural)]
pub enum Field {
    Addr,
    Port,
    Colo,
    Loc,
    Region,
    City,
}

/// The header names that stand for each field, in order of preference.
pub open spec fn aliases(f: Field) -> Seq<Seq<char>> {
    match f {
        Field::Addr => seq!["IP"@, "IP地址"@, "IP 地址"@, "网络地址"@],
        Field::Port => seq!["PORT"@, "端口"@],
        Field::Colo => seq!["colo"@, "iata"@, "数据中心"@],
        Field::Loc => seq!["cca2"@, "alpha-2"@, "Country Code"@, "CountryCode"@, "国家代码"@],
        Field::Region => seq!["region"@, "区域"@, "地区"@],
        Field::City => seq!["city"@, "城市"@],
    }
}

fn push_name(v: &mut Vec<Vec<char>>, name: &str)
    ensures
        final(v).deep_view() == old(v).deep_view().push(name@),
{
    let c = chars_of(name);
    let ghost cv = c@;
    v.push(c);
    assert(v@.last().deep_view() =~= cv);
    assert(v.deep_view() =~= old(v).deep_view().push(name@));
}

pub fn field_aliases(f: Field) -> (r: Vec<Vec<char>>)
    ensures
        r.deep_view() == aliases(f),
{
    let mut v: Vec<Vec<char>> = Vec::new();
    assert(v.deep_view() =~= Seq::<Seq<char>>::empty());
    match f {
        Field::Addr => {
            push_name(&mut v, "IP");
            push_name(&mut v, "IP地址");
            push_name(&mut v, "IP 地址");
            push_name(&mut v, "网络地址");
        },
        Field::Port => {
            push_name(&mut v, "PORT");
            push_name(&mut v, "端口");
        },
        Field::Colo => {
            push_name(&mut v, "colo");
            push_name(&mut v, "iata");
            push_name(&mut v, "数据中心");
        },
        Field::Loc => {
            push_name(&mut v, "cca2");
            push_name(&mut v, "alpha-2");
            push_name(&mut v, "Country Code");
            push_name(&mut v, "CountryCode");
            push_name(&mut v, "国家代码");
        },
        Field::Region => {
            push_name(&mut v, "region");
            push_name(&mut v, "区域");
            push_name(&mut v, "地区");
        },
        Field::City => {
            push_name(&mut v, "city");
            push_name(&mut v, "城市");
        },
    }
    assert(v.deep_view() =~= aliases(f));
    v
}

/// A header name as it is compared: trimmed, then lower-cased.
pub open spec fn header_key(s: Seq<char>) -> Seq<char> {
    lower_of(trimmed(s))
}

/// The first header at or after `j` whose key is `key`.
pub open spec fn position_from(keys: Seq<Seq<char>>, key: Seq<char>, j: int) -> Option<int>
    decreases keys.len() - j,
{
    if j < 0 || j >= keys.len() {
        None
    } else if keys[j] == key {
        Some(j)
    } else {
        position_from(keys, key, j + 1)
    }
}

/// The column of the first name, from `k` on, that some header matches.
pub open spec fn column_from(keys: Seq<Seq<char>>, names: Seq<Seq<char>>, k: int) -> Option<int>
    decreases names.len() - k,
{
    if k < 0 || k >= names.len() {
        None
    } else {
        match position_from(keys, header_key(names[k]), 0) {
            Some(j) => Some(j),
            None => column_from(keys, names, k + 1),
        }
    }
}

/// The column that holds field `f`, headers compared without case and surrounding space.
pub open spec fn column_of(headers: Seq<Seq<char>>, f: Field) -> Option<int> {
    column_from(headers.map_values(|h: Seq<char>| header_key(h)), aliases(f), 0)
}

/// Headers are compared by their keys alone: two header rows whose names trim and
/// lower-case alike give every field the same column.
pub proof fn lemma_columns_follow_keys(h1: Seq<Seq<char>>, h2: Seq<Seq<char>>, f: Field)
    requires
        h1.len() == h2.len(),
        forall|i: int| 0 <= i < h1.len() ==> #[trigger] header_key(h1[i]) == header_key(h2[i]),
    ensures
        column_of(h1, f) == column_of(h2, f),
{
    let k1 = h1.map_values(|h: Seq<char>| header_key(h));
    let k2 = h2.map_values(|h: Seq<char>| header_key(h));
    assert(k1 =~= k2);
}

fn key_of_header(s: &[char]) -> (r: String)
    ensures
        r@ == header_key(s@),
{
    let t = trim(s);
    let ts = string_of(t.as_slice());
    lowercase(ts.as_str())
}

/// Where in `keys` the header key of `name` first stands.
fn position_of(keys: &Vec<String>, name: &[char]) -> (r: Option<usize>)
    ensures
        match r {
            Some(j) => position_from(keys.deep_view(), header_key(name@), 0) == Some(j as int),
            None => position_from(keys.deep_view(), header_key(name@), 0) is None,
        },
{
    let key = key_of_header(name);
    let mut j: usize = 0;
    while j < keys.len()
        invariant
            j <= keys@.len(),
            key@ == header_key(name@),
            position_from(keys.deep_view(), key@, j as int) == position_from(
                keys.deep_view(),
                key@,
                0,
            ),
        decreases keys@.len() - j,
    {
        assert(keys.deep_view()[j as int] == keys@[j as int]@);
        if keys[j] == key {
            return Some(j);
        }
        j += 1;
    }
    None
}

/// The column that holds field `f`, given the header keys.
pub fn find_column(keys: &Vec<String>, f: Field) -> (r: Option<usize>)
    ensures
        match r {
            Some(j) => column_from(keys.deep_view(), aliases(f), 0) == Some(j as int),
            None => column_from(keys.deep_view(), aliases(f), 0) is None,
        },
{
    let names = field_aliases(f);
    let mut k: usize = 0;
    while k < names.len()
        invariant
            k <= names@.len(),
            names.deep_view() == aliases(f),
            column_from(keys.deep_view(), aliases(f), k as int) == column_from(
                keys.deep_view(),
                aliases(f),
                0,
            ),
        decreases names@.len() - k,
    {
        assert(names.deep_view()[k as int] == names@[k as int]@);
        match position_of(keys, names[k].as_slice()) {
            Some(j) => {
                return Some(j);
            },
            None => {},
        }
        k += 1;
    }
    None
}

/// The cell of a row in a column, if both exist.
pub open spec fn cell(row: Seq<Seq<char>>, c: Option<int>) -> Option<Seq<char>> {
    match c {
        Some(j) => if 0 <= j < row.len() {
            Some(row[j])
        } else {
            None
        },
        None => None,
    }
}

pub open spec fn cell_text(row: Seq<Seq<char>>, c: Option<int>) -> Seq<char> {
    match cell(row, c) {
        Some(s) => s,
        None => Seq::empty(),
    }
}

/// One CSV row as a record: none without an address; the port read from its column, the
/// default where it is missing or no port; the descriptive columns empty where missing.
pub open spec fn csv_row(row: Seq<Seq<char>>, headers: Seq<Seq<char>>, default_port: u16) -> Option<
    FileDataV,
> {
    let addr = cell_text(row, column_of(headers, Field::Addr));
    if addr.len() == 0 {
        None
    } else {
        Some(
            FileDataV {
                addr,
                port: Some(
                    match cell(row, column_of(headers, Field::Port)) {
                        Some(p) => match parse_port(p) {
                            Some(v) => v,
                            None => default_port,
                        },
                        None => default_port,
                    },
                ),
                colo: cell_text(row, column_of(headers, Field::Colo)),
                loc: cell_text(row, column_of(headers, Field::Loc)),
                region: cell_text(row, column_of(headers, Field::Region)),
                city: cell_text(row, column_of(headers, Field::City)),
            },
        )
    }
}

pub open spec fn csv_fold(
    rows: Seq<Seq<Seq<char>>>,
    headers: Seq<Seq<char>>,
    default_port: u16,
) -> Seq<FileDataV>
    decreases rows.len(),
{
    if rows.len() == 0 {
        Seq::empty()
    } else {
        let prev = csv_fold(rows.drop_last(), headers, default_port);
        match csv_row(rows.last(), headers, default_port) {
            Some(f) => prev.push(f),
            None => prev,
        }
    }
}

/// The records of a CSV text, or none where the text is no table.
pub open spec fn csv_records(text: Seq<char>, default_port: u16) -> Option<Seq<FileDataV>> {
    match csv_table(text) {
        Some((headers, rows)) => Some(csv_fold(rows, headers, default_port)),
        None => None,
    }
}

fn cell_of(row: &Vec<String>, c: Option<usize>) -> (r: Option<String>)
    ensures
        match r {
            Some(s) => cell(row.deep_view(), opt_int(c)) == Some(s@),
            None => cell(row.deep_view(), opt_int(c)) is None,
        },
{
    match c {
        Some(j) => if j < row.len() {
            assert(row.deep_view()[j as int] == row@[j as int]@);
            Some(row[j].clone())
        } else {
            None
        },
        None => None,
    }
}

fn cell_or_empty(row: &Vec<String>, c: Option<usize>) -> (r: String)
    ensures
        r@ == cell_text(row.deep_view(), opt_int(c)),
{
    match cell_of(row, c) {
        Some(s) => s,
        None => String::new(),
    }
}

pub open spec fn opt_int(c: Option<usize>) -> Option<int> {
    match c {
        Some(j) => Some(j as int),
        None => None,
    }
}

/// The records of a CSV text: columns found by their header names; rows without an
/// address left out.
pub fn process_csv(text: &str, default_port: u16) -> (r: Result<Vec<FileData>, SourceError>)
    ensures
        match r {
            Ok(v) => csv_records(text@, default_port) == Some(records_view(v@)),
            Err(e) => e == SourceError::MalformedTable && csv_records(text@, default_port) is None,
        },
{
    match read_table(text) {
        Some((headers, rows)) => Ok(map_table(&headers, &rows, default_port)),
        None => Err(SourceError::MalformedTable),
    }
}

/// The records of a table: columns found by their header names; rows without an address
/// left out.
pub fn map_table(headers: &Vec<String>, rows: &Vec<Vec<String>>, default_port: u16) -> (r: Vec<
    FileData,
>)
    ensures
        records_view(r@) == csv_fold(rows.deep_view(), headers.deep_view(), default_port),
{
    let mut keys: Vec<String> = Vec::new();
    let mut h: usize = 0;
    while h < headers.len()
        invariant
            h <= headers@.len(),
            keys.deep_view() =~= headers.deep_view().take(h as int).map_values(
                |s: Seq<char>| header_key(s),
            ),
        decreases headers@.len() - h,
    {
        let hc = chars_of(headers[h].as_str());
        let k = key_of_header(hc.as_slice());
        let ghost kv = k@;
        let ghost before = keys.deep_view();
        keys.push(k);
        proof {
            assert(keys@.last().deep_view() =~= kv);
            assert(keys.deep_view() =~= before.push(kv));
            assert(headers.deep_view()[h as int] == headers@[h as int]@);
            assert(headers.deep_view().take(h as int + 1).map_values(|s: Seq<char>| header_key(s))
                =~= headers.deep_view().take(h as int).map_values(|s: Seq<char>| header_key(s)).push(
                header_key(headers.deep_view()[h as int]),
            ));
        }
        h += 1;
    }
    assert(headers.deep_view().take(h as int) =~= headers.deep_view());
    let ghost hv = headers.deep_view();
    let ghost rv = rows.deep_view();
    let addr_c = find_column(&keys, Field::Addr);
    let port_c = find_column(&keys, Field::Port);
    let colo_c = find_column(&keys, Field::Colo);
    let loc_c = find_column(&keys, Field::Loc);
    let region_c = find_column(&keys, Field::Region);
    let city_c = find_column(&keys, Field::City);
    assert(opt_int(addr_c) == column_of(hv, Field::Addr));
    assert(opt_int(port_c) == column_of(hv, Field::Port));
    assert(opt_int(colo_c) == column_of(hv, Field::Colo));
    assert(opt_int(loc_c) == column_of(hv, Field::Loc));
    assert(opt_int(region_c) == column_of(hv, Field::Region));
    assert(opt_int(city_c) == column_of(hv, Field::City));
    let mut out: Vec<FileData> = Vec::new();
    let mut i: usize = 0;
    while i < rows.len()
        invariant
            i <= rows@.len(),
            rv == rows.deep_view(),
            opt_int(addr_c) == column_of(hv, Field::Addr),
            opt_int(port_c) == column_of(hv, Field::Port),
            opt_int(colo_c) == column_of(hv, Field::Colo),
            opt_int(loc_c) == column_of(hv, Field::Loc),
            opt_int(region_c) == column_of(hv, Field::Region),
            opt_int(city_c) == column_of(hv, Field::City),
            records_view(out@) == csv_fold(rv.take(i as int), hv, default_port),
        decreases rows@.len() - i,
    {
        assert(rv.take(i as int + 1).drop_last() =~= rv.take(i as int));
        let row = &rows[i];
        assert(rv[i as int] == row.deep_view());
        let addr = cell_or_empty(row, addr_c);
        if !addr.as_str().is_empty() {
            let port = match cell_of(row, port_c) {
                Some(p) => {
                    let pc = chars_of(p.as_str());
                    match read_port(pc.as_slice()) {
                        Some(v) => v,
                        None => default_port,
                    }
                },
                None => default_port,
            };
            let rec = FileData {
                addr,
                port: Some(port),
                colo: cell_or_empty(row, colo_c),
                loc: cell_or_empty(row, loc_c),
                region: cell_or_empty(row, region_c),
                city: cell_or_empty(row, city_c),
            };
            out.push(rec);
            assert(records_view(out@) =~= csv_fold(rv.take(i as int), hv, default_port).push(
                rec@,
            ));
        }
        i += 1;
    }
    assert(rv.take(i as int) =~= rv);
    out
}

pub open spec fn result_view(r: Result<Vec<FileData>, SourceError>) -> Result<
    Seq<FileDataV>,
    SourceError,
> {
    match r {
        Ok(v) => Ok(records_view(v@)),
        Err(e) => Err(e),
    }
}

/// The last position before `j` that holds `c`, or -1.
pub open spec fn rfind(s: Seq<char>, c: char, j: int) -> int
    decreases j,
{
    if j <= 0 || j > s.len() {
        -1
    } else if s[j - 1] == c {
        j - 1
    } else {
        rfind(s, c, j - 1)
    }
}

/// The extension of a path, as `Path::extension` gives it: the text after the last dot of
/// the last component, where that dot is not the component's first character.
pub open spec fn extension(path: Seq<char>) -> Option<Seq<char>> {
    let name = path.skip(rfind(path, '/', path.len() as int) + 1);
    let dot = rfind(name, '.', name.len() as int);
    if dot <= 0 || name == ".."@ {
        None
    } else {
        Some(name.skip(dot + 1))
    }
}

fn rfind_char(s: &[char], c: char) -> (r: usize)
    ensures
        r as int == rfind(s@, c, s@.len() as int) + 1,
        r <= s@.len(),
{
    let mut j = s.len();
    while j > 0 && s[j - 1] != c
        invariant
            j <= s@.len(),
            rfind(s@, c, j as int) == rfind(s@, c, s@.len() as int),
        decreases j,
    {
        j -= 1;
    }
    j
}

fn extension_of(path: &[char]) -> (r: Option<Vec<char>>)
    ensures
        match r {
            Some(e) => extension(path@) == Some(e@),
            None => extension(path@) is None,
        },
{
    let start = rfind_char(path, '/');
    let name = slice_of(path, start, path.len());
    assert(name@ =~= path@.skip(rfind(path@, '/', path@.len() as int) + 1));
    let dot = rfind_char(name.as_slice(), '.');
    let dots = chars_of("..");
    if dot <= 1 || same_chars(name.as_slice(), dots.as_slice()) {
        None
    } else {
        let e = slice_of(name.as_slice(), dot, name.len());
        assert(e@ =~= name@.skip(rfind(name@, '.', name@.len() as int) + 1));
        Some(e)
    }
}

/// The records of a text list file; a list whose name starts with `ips-v` or `ipv` is
/// left out.
pub open spec fn txt_file_records(filename: Seq<char>, text: Seq<char>, default_port: u16) -> Result<
    Seq<FileDataV>,
    SourceError,
> {
    if starts_with(filename, "ips-v"@) || starts_with(filename, "ipv"@) {
        Err(SourceError::SkippedFile)
    } else {
        Ok(txt_records(text, default_port))
    }
}

pub fn process_txt(filename: &str, text: &str, default_port: u16) -> (r: Result<
    Vec<FileData>,
    SourceError,
>)
    ensures
        result_view(r) == txt_file_records(filename@, text@, default_port),
{
    let name = chars_of(filename);
    if has_prefix(name.as_slice(), "ips-v") || has_prefix(name.as_slice(), "ipv") {
        return Err(SourceError::SkippedFile);
    }
    Ok(parse_txt(text, default_port))
}

pub open spec fn csv_result(text: Seq<char>, default_port: u16) -> Result<Seq<FileDataV>, SourceError> {
    match csv_records(text, default_port) {
        Some(v) => Ok(v),
        None => Err(SourceError::MalformedTable),
    }
}

/// The records of a file, by its extension: `csv` a table, `txt` a list.
pub open spec fn file_records(filename: Seq<char>, text: Seq<char>, default_port: u16) -> Result<
    Seq<FileDataV>,
    SourceError,
> {
    match extension(filename) {
        Some(e) => if e == "csv"@ {
            csv_result(text, default_port)
        } else if e == "txt"@ {
            txt_file_records(filename, text, default_port)
        } else {
            Err(SourceError::UnsupportedFile)
        },
        None => Err(SourceError::UnsupportedFile),
    }
}

/// The records of a file named `filename` that holds `text`.
pub fn process_file(filename: &str, text: &str, default_port: u16) -> (r: Result<
    Vec<FileData>,
    SourceError,
>)
    ensures
        result_view(r) == file_records(filename@, text@, default_port),
{
    let name = chars_of(filename);
    match extension_of(name.as_slice()) {
        Some(e) => {
            let csv = chars_of("csv");
            let txt = chars_of("txt");
            if same_chars(e.as_slice(), csv.as_slice()) {
                process_csv(text, default_port)
            } else if same_chars(e.as_slice(), txt.as_slice()) {
                process_txt(filename, text, default_port)
            } else {
                Err(SourceError::UnsupportedFile)
            }
        },
        None => Err(SourceError::UnsupportedFile),
    }
}

/// What a file holds by its name: a table for `csv`, a list for `txt` unless the name
/// marks it as one to leave out; none for other files.
pub open spec fn file_kind_spec(filename: Seq<char>) -> Option<SourceKind> {
    match extension(filename) {
        Some(e) => if e == "csv"@ {
            Some(SourceKind::Table)
        } else if e == "txt"@ && !(starts_with(filename, "ips-v"@) || starts_with(
            filename,
            "ipv"@,
        )) {
            Some(SourceKind::List)
        } else {
            None
        },
        None => None,
    }
}

/// Whether a file is read at all, and as what (see `process_file`).
pub fn file_kind(filename: &str) -> (r: Option<SourceKind>)
    ensures
        r == file_kind_spec(filename@),
        r is None ==> file_records(filename@, Seq::empty(), 0) is Err,
{
    let name = chars_of(filename);
    match extension_of(name.as_slice()) {
        Some(e) => {
            let csv = chars_of("csv");
            let txt = chars_of("txt");
            if same_chars(e.as_slice(), csv.as_slice()) {
                Some(SourceKind::Table)
            } else if same_chars(e.as_slice(), txt.as_slice()) && !(has_prefix(
                name.as_slice(),
                "ips-v",
            ) || has_prefix(name.as_slice(), "ipv")) {
                Some(SourceKind::List)
            } else {
                None
            }
        },
        None => None,
    }
}

/// What a link holds, by the end of its lower-cased form.
#[derive(Clone, Copy, Debug, PartialEq, Eq, Structural)]
pub enum SourceKind {
    List,
    Table,
}

pub open spec fn kind_of_link(url: Seq<char>) -> Option<SourceKind> {
    if ends_with(lower_of(url), ".txt"@) {
        Some(SourceKind::List)
    } else if ends_with(lower_of(url), ".csv"@) {
        Some(SourceKind::Table)
    } else {
        None
    }
}

pub fn link_kind(url: &str) -> (r: Option<SourceKind>)
    ensures
        r == kind_of_link(url@),
{
    let low = lowercase(url);
    let lc = chars_of(low.as_str());
    if has_suffix(lc.as_slice(), ".txt") {
        Some(SourceKind::List)
    } else if has_suffix(lc.as_slice(), ".csv") {
        Some(SourceKind::Table)
    } else {
        None
    }
}

pub open spec fn link_records(url: Seq<char>, body: Seq<char>, default_port: u16) -> Result<
    Seq<FileDataV>,
    SourceError,
> {
    match kind_of_link(url) {
        Some(SourceKind::List) => Ok(txt_records(body, default_port)),
        Some(SourceKind::Table) => csv_result(body, default_port),
        None => Err(SourceError::UnsupportedLink),
    }
}

/// The records of what the link `url` served (`body`).
pub fn process_url(url: &str, body: &str, default_port: u16) -> (r: Result<
    Vec<FileData>,
    SourceError,
>)
    ensures
        result_view(r) == link_records(url@, body@, default_port),
{
    match link_kind(url) {
        Some(SourceKind::List) => Ok(parse_txt(body, default_port)),
        Some(SourceKind::Table) => process_csv(body, default_port),
        None => Err(SourceError::UnsupportedLink),
    }
}

} // verus!
