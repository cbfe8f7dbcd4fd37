//! The line grammar: one text line to an address and the text of its port.
use vstd::prelude::*;
use crate::num::{dec, dec_chars};
use crate::text::{
    count_char, count_of, find_char, find_from, in_class, is_hex, is_ws, lemma_find_from,
    run_end, scan, slice_of, Class,
};

verus! {

pub open spec fn bracketed(s: Seq<char>) -> Seq<char> {
    seq!['['] + s + seq![']']
}

/// A part with more than one colon is an IPv6 literal: it gets brackets unless it has them.
pub open spec fn wrap_v6(s: Seq<char>) -> Seq<char> {
    if count_of(s, ':') > 1 && !(s.len() > 0 && s[0] == '[' && s.last() == ']') {
        bracketed(s)
    } else {
        s
    }
}

/// The comma form starting at `s`: the run of hex digits and colons from `s` (with a colon
/// strictly inside), optional white space, a comma, optional white space, digits.
pub open spec fn comma_at(t: Seq<char>, s: int) -> Option<(Seq<char>, Seq<char>)> {
    let r = run_end(t, s, Class::HexColon);
    let b = run_end(t, r, Class::Space);
    let c = run_end(t, b + 1, Class::Space);
    let d = run_end(t, c, Class::Digit);
    if 0 <= s && r >= s + 3 && count_of(t.subrange(s + 1, r - 1), ':') > 0 && b < t.len() && t[b]
        == ',' && c < d {
        Some((bracketed(t.subrange(s, r)), t.subrange(c, d)))
    } else {
        None
    }
}

/// The leftmost comma form at or after `s`.
pub open spec fn comma_from(t: Seq<char>, s: int) -> Option<(Seq<char>, Seq<char>)>
    decreases t.len() - s,
{
    if s < 0 || s >= t.len() {
        None
    } else if comma_at(t, s) is Some {
        comma_at(t, s)
    } else {
        comma_from(t, s + 1)
    }
}

/// `IPv6 , PORT` anywhere in the line, the leftmost occurrence: hex digits and colons
/// (bracketed), a comma with optional white space around it, digits.
pub open spec fn comma_form(t: Seq<char>) -> Option<(Seq<char>, Seq<char>)> {
    comma_from(t, 0)
}

/// Groups of one to four hex digits, each followed by a colon, read from `pos` with `count`
/// read so far: the line opens with an IPv6 literal once up to seven groups are followed by
/// a second colon, or seven groups by a hex digit.
pub open spec fn v6_groups(t: Seq<char>, pos: int, count: int) -> bool
    decreases t.len() - pos,
{
    let h = run_end(t, pos, Class::Hex);
    if pos < 0 || pos >= t.len() || count < 0 || count >= 7 || h <= pos || h - pos > 4 || h
        >= t.len() || t[h] != ':' {
        false
    } else if h + 1 < t.len() && t[h + 1] == ':' {
        true
    } else if count + 1 == 7 {
        h + 1 < t.len() && is_hex(t[h + 1])
    } else {
        v6_groups(t, h + 1, count + 1)
    }
}

/// The line opens with text that an IPv6 address pattern accepts: `::`, `fe80:%` and a
/// zone letter or digit, or hex groups as `v6_groups` reads them.
pub open spec fn v6_head(t: Seq<char>) -> bool {
    (t.len() >= 2 && t[0] == ':' && t[1] == ':') || (t.len() > 6 && t.take(6) == "fe80:%"@
        && in_class(t[6], Class::Alnum)) || v6_groups(t, 0, 0)
}

/// Split once at the first run of white space.
pub open spec fn space_split(t: Seq<char>) -> Option<(Seq<char>, Seq<char>)> {
    let w = run_end(t, 0, Class::NonSpace);
    if w < t.len() {
        Some((t.take(w), t.skip(run_end(t, w, Class::Space))))
    } else {
        None
    }
}

/// `[IPv6]:PORT`.
pub open spec fn bracket_form(t: Seq<char>) -> Option<(Seq<char>, Seq<char>)> {
    let a = run_end(t, 1, Class::HexColonDot);
    let d = run_end(t, a + 2, Class::Digit);
    if t.len() > 0 && t[0] == '[' && a > 1 && a + 1 < t.len() && t[a] == ']' && t[a + 1] == ':'
        && d > a + 2 && d == t.len() {
        Some((t.take(a + 1), t.subrange(a + 2, d)))
    } else {
        None
    }
}

/// `IPv4 PORT`: digits and dots, white space, digits.
pub open spec fn v4_space_form(t: Seq<char>) -> Option<(Seq<char>, Seq<char>)> {
    let a = run_end(t, 0, Class::Dotted);
    let b = run_end(t, a, Class::Space);
    let d = run_end(t, b, Class::Digit);
    if a > 0 && b > a && d > b && d == t.len() {
        Some((t.take(a), t.subrange(b, d)))
    } else {
        None
    }
}

/// Split once at the first occurrence of `c`.
pub open spec fn split_at_char(t: Seq<char>, c: char) -> (Seq<char>, Seq<char>) {
    let i = find_from(t, 0, c);
    (t.take(i), t.skip(i + 1))
}

/// The first position at or after `i` where `", "` starts, or the length.
pub open spec fn find_comma_space(t: Seq<char>, i: int) -> int
    decreases t.len() - i,
{
    if i < 0 || i + 1 >= t.len() {
        t.len() as int
    } else if t[i] == ',' && t[i + 1] == ' ' {
        i
    } else {
        find_comma_space(t, i + 1)
    }
}

/// The ordered cascade, first match wins. `None`: the line does not give two parts.
pub open spec fn classify(t: Seq<char>, default_port: u16) -> Option<(Seq<char>, Seq<char>)> {
    if comma_form(t) is Some {
        comma_form(t)
    } else if v6_head(t) {
        match space_split(t) {
            Some((a, p)) => Some((wrap_v6(a), wrap_v6(p))),
            None => None,
        }
    } else if bracket_form(t) is Some {
        bracket_form(t)
    } else if v4_space_form(t) is Some {
        v4_space_form(t)
    } else if count_of(t, ':') == 1 {
        Some(split_at_char(t, ':'))
    } else if find_comma_space(t, 0) < t.len() {
        let i = find_comma_space(t, 0);
        Some((t.take(i), t.skip(i + 2)))
    } else if find_from(t, 0, ',') < t.len() {
        Some(split_at_char(t, ','))
    } else if space_split(t) is Some {
        space_split(t)
    } else {
        Some((t, dec(default_port as nat)))
    }
}

pub open spec fn pair_view(r: Option<(Vec<char>, Vec<char>)>) -> Option<(Seq<char>, Seq<char>)> {
    match r {
        Some((a, p)) => Some((a@, p@)),
        None => None,
    }
}

fn bracket(s: &[char]) -> (r: Vec<char>)
    ensures
        r@ == bracketed(s@),
{
    let mut v: Vec<char> = Vec::new();
    v.push('[');
    crate::text::push_all(&mut v, s);
    v.push(']');
    assert(v@ =~= bracketed(s@));
    v
}

fn wrap_part(s: Vec<char>) -> (r: Vec<char>)
    ensures
        r@ == wrap_v6(s@),
{
    if count_char(s.as_slice(), ':') > 1 && !(s.len() > 0 && s[0] == '[' && s[s.len() - 1]
        == ']') {
        bracket(s.as_slice())
    } else {
        s
    }
}

fn comma_at_of(t: &[char], s: usize) -> (r: Option<(Vec<char>, Vec<char>)>)
    requires
        s < t@.len(),
    ensures
        pair_view(r) == comma_at(t@, s as int),
{
    let r = scan(t, s, Class::HexColon);
    let b = scan(t, r, Class::Space);
    if r - s < 3 || b >= t.len() || t[b] != ',' {
        return None;
    }
    let c = scan(t, b + 1, Class::Space);
    let d = scan(t, c, Class::Digit);
    let inner = slice_of(t, s + 1, r - 1);
    if count_char(inner.as_slice(), ':') > 0 && c < d {
        let head = slice_of(t, s, r);
        Some((bracket(head.as_slice()), slice_of(t, c, d)))
    } else {
        None
    }
}

fn comma_form_of(t: &[char]) -> (r: Option<(Vec<char>, Vec<char>)>)
    ensures
        pair_view(r) == comma_form(t@),
{
    let mut s: usize = 0;
    while s < t.len()
        invariant
            s <= t@.len(),
            comma_from(t@, s as int) == comma_from(t@, 0),
        decreases t@.len() - s,
    {
        let here = comma_at_of(t, s);
        if here.is_some() {
            return here;
        }
        s += 1;
    }
    None
}

fn v6_head_of(t: &[char]) -> (r: bool)
    ensures
        r == v6_head(t@),
{
    if t.len() >= 2 && t[0] == ':' && t[1] == ':' {
        return true;
    }
    if t.len() > 6 {
        let head = slice_of(t, 0, 6);
        assert(head@ =~= t@.take(6));
        let fe = crate::text::chars_of("fe80:%");
        if crate::text::same_chars(head.as_slice(), fe.as_slice()) && crate::text::is_in_class(
            t[6],
            Class::Alnum,
        ) {
            return true;
        }
    }
    let mut pos: usize = 0;
    let mut count: usize = 0;
    while count < 7 && pos < t.len()
        invariant
            pos <= t@.len(),
            count <= 7,
            v6_head(t@) == v6_groups(t@, 0, 0),
            v6_groups(t@, pos as int, count as int) == v6_groups(t@, 0, 0),
        decreases t@.len() - pos,
    {
        let h = scan(t, pos, Class::Hex);
        if h == pos || h - pos > 4 || h >= t.len() || t[h] != ':' {
            return false;
        }
        if h + 1 < t.len() && t[h + 1] == ':' {
            return true;
        }
        if count + 1 == 7 {
            return h + 1 < t.len() && crate::text::is_in_class(t[h + 1], Class::Hex);
        }
        pos = h + 1;
        count += 1;
    }
    false
}

fn space_split_of(t: &[char]) -> (r: Option<(Vec<char>, Vec<char>)>)
    ensures
        pair_view(r) == space_split(t@),
{
    let w = scan(t, 0, Class::NonSpace);
    if w < t.len() {
        let e = scan(t, w, Class::Space);
        let head = slice_of(t, 0, w);
        let rest = slice_of(t, e, t.len());
        assert(head@ =~= t@.take(w as int));
        assert(rest@ =~= t@.skip(e as int));
        Some((head, rest))
    } else {
        None
    }
}

fn bracket_form_of(t: &[char]) -> (r: Option<(Vec<char>, Vec<char>)>)
    ensures
        pair_view(r) == bracket_form(t@),
{
    if t.len() == 0 || t[0] != '[' {
        return None;
    }
    let a = scan(t, 1, Class::HexColonDot);
    if !(a > 1 && a < t.len() - 1 && t[a] == ']' && t[a + 1] == ':') {
        return None;
    }
    let d = scan(t, a + 2, Class::Digit);
    if d > a + 2 && d == t.len() {
        let head = slice_of(t, 0, a + 1);
        assert(head@ =~= t@.take(a + 1));
        Some((head, slice_of(t, a + 2, d)))
    } else {
        None
    }
}

fn v4_space_form_of(t: &[char]) -> (r: Option<(Vec<char>, Vec<char>)>)
    ensures
        pair_view(r) == v4_space_form(t@),
{
    let a = scan(t, 0, Class::Dotted);
    let b = scan(t, a, Class::Space);
    let d = scan(t, b, Class::Digit);
    if a > 0 && b > a && d > b && d == t.len() {
        let head = slice_of(t, 0, a);
        assert(head@ =~= t@.take(a as int));
        Some((head, slice_of(t, b, d)))
    } else {
        None
    }
}

fn split_once(t: &[char], c: char) -> (r: (Vec<char>, Vec<char>))
    requires
        find_from(t@, 0, c) < t@.len(),
    ensures
        (r.0@, r.1@) == split_at_char(t@, c),
{
    let i = find_char(t, 0, c);
    assert(i < t.len());
    let head = slice_of(t, 0, i);
    let rest = slice_of(t, i + 1, t.len());
    assert(head@ =~= t@.take(i as int));
    assert(rest@ =~= t@.skip(i + 1));
    (head, rest)
}

fn find_comma_space_of(t: &[char]) -> (r: usize)
    ensures
        r == find_comma_space(t@, 0),
        r <= t@.len(),
{
    let mut i: usize = 0;
    while i < t.len() && i < t.len() - 1 && !(t[i] == ',' && t[i + 1] == ' ')
        invariant
            i <= t@.len(),
            find_comma_space(t@, i as int) == find_comma_space(t@, 0),
        decreases t@.len() - i,
    {
        i += 1;
    }
    if i >= t.len() || i >= t.len() - 1 {
        t.len()
    } else {
        i
    }
}

/// Classifies one trimmed line.
pub fn parse_line(t: &[char], default_port: u16) -> (r: Option<(Vec<char>, Vec<char>)>)
    ensures
        pair_view(r) == classify(t@, default_port),
{
    let comma = comma_form_of(t);
    if comma.is_some() {
        return comma;
    }
    if v6_head_of(t) {
        return match space_split_of(t) {
            Some((a, p)) => Some((wrap_part(a), wrap_part(p))),
            None => None,
        };
    }
    let br = bracket_form_of(t);
    if br.is_some() {
        return br;
    }
    let v4 = v4_space_form_of(t);
    if v4.is_some() {
        return v4;
    }
    if count_char(t, ':') == 1 {
        proof {
            lemma_count_pos_found(t@, ':');
        }
        let (a, p) = split_once(t, ':');
        return Some((a, p));
    }
    let i = find_comma_space_of(t);
    if i < t.len() {
        let head = slice_of(t, 0, i);
        proof {
            lemma_find_comma_space(t@, 0);
        }
        let rest = slice_of(t, i + 2, t.len());
        assert(head@ =~= t@.take(i as int));
        assert(rest@ =~= t@.skip(i + 2));
        return Some((head, rest));
    }
    if find_char(t, 0, ',') < t.len() {
        let (a, p) = split_once(t, ',');
        return Some((a, p));
    }
    let sp = space_split_of(t);
    if sp.is_some() {
        return sp;
    }
    let mut whole: Vec<char> = Vec::new();
    crate::text::push_all(&mut whole, t);
    Some((whole, dec_chars(default_port as u64)))
}

proof fn lemma_find_comma_space(t: Seq<char>, i: int)
    requires
        0 <= i <= t.len(),
    ensures
        i <= find_comma_space(t, i) <= t.len(),
        find_comma_space(t, i) < t.len() ==> find_comma_space(t, i) + 2 <= t.len(),
    decreases t.len() - i,
{
    if i + 1 < t.len() && !(t[i] == ',' && t[i + 1] == ' ') {
        lemma_find_comma_space(t, i + 1);
    }
}

/// A character that occurs is found.
proof fn lemma_count_pos_found(t: Seq<char>, c: char)
    requires
        count_of(t, c) > 0,
    ensures
        find_from(t, 0, c) < t.len(),
    decreases t.len(),
{
    lemma_find_from(t, 0, c);
    if find_from(t, 0, c) >= t.len() {
        lemma_count_absent(t, c);
    }
}

proof fn lemma_count_absent(t: Seq<char>, c: char)
    requires
        forall|j: int| 0 <= j < t.len() ==> #[trigger] t[j] != c,
    ensures
        count_of(t, c) == 0,
    decreases t.len(),
{
    if t.len() > 0 {
        lemma_count_absent(t.drop_last(), c);
    }
}

} // verus!
