//! Decimal spelling and reading of unsigned numbers.
use vstd::prelude::*;
use crate::text::is_digit;

verus! {

pub open spec fn digit_char(d: nat) -> char {
    if d == 0 {
        '0'
    } else if d == 1 {
        '1'
    } else if d == 2 {
        '2'
    } else if d == 3 {
        '3'
    } else if d == 4 {
        '4'
    } else if d == 5 {
        '5'
    } else if d == 6 {
        '6'
    } else if d == 7 {
        '7'
    } else if d == 8 {
        '8'
    } else {
        '9'
    }
}

/// The decimal spelling of `n`, without leading zeros.
pub open spec fn dec(n: nat) -> Seq<char>
    decreases n,
{
    if n < 10 {
        seq![digit_char(n)]
    } else {
        dec(n / 10).push(digit_char(n % 10))
    }
}

/// `s` padded on the left with zeros to at least `w` characters.
pub open spec fn zero_pad(s: Seq<char>, w: nat) -> Seq<char> {
    if s.len() >= w {
        s
    } else {
        Seq::new((w - s.len()) as nat, |_i: int| '0') + s
    }
}

fn digit_of(d: u64) -> (c: char)
    requires
        d < 10,
    ensures
        c == digit_char(d as nat),
{
    match d {
        0 => '0',
        1 => '1',
        2 => '2',
        3 => '3',
        4 => '4',
        5 => '5',
        6 => '6',
        7 => '7',
        8 => '8',
        _ => '9',
    }
}

/// The decimal spelling of `n`.
pub fn dec_chars(n: u64) -> (r: Vec<char>)
    ensures
        r@ == dec(n as nat),
    decreases n,
{
    if n < 10 {
        let mut v: Vec<char> = Vec::new();
        v.push(digit_of(n));
        assert(v@ =~= seq![digit_char(n as nat)]);
        v
    } else {
        let mut v = dec_chars(n / 10);
        v.push(digit_of(n % 10));
        v
    }
}

/// The decimal spelling of `n`, zero-padded to `w` characters.
pub fn padded_chars(n: u64, w: usize) -> (r: Vec<char>)
    ensures
        r@ == zero_pad(dec(n as nat), w as nat),
{
    let d = dec_chars(n);
    if d.len() >= w {
        return d;
    }
    let mut v: Vec<char> = Vec::new();
    let k = w - d.len();
    while v.len() < k
        invariant
            v@.len() <= k,
            forall|i: int| 0 <= i < v@.len() ==> v@[i] == '0',
        decreases k - v@.len(),
    {
        v.push('0');
    }
    let mut i: usize = 0;
    let ghost zeros = v@;
    while i < d.len()
        invariant
            i <= d@.len(),
            v@ == zeros + d@.take(i as int),
        decreases d@.len() - i,
    {
        v.push(d[i]);
        i += 1;
        assert(v@ =~= zeros + d@.take(i as int));
    }
    assert(d@.take(d@.len() as int) =~= d@);
    assert(zeros =~= Seq::new((w - d@.len()) as nat, |_i: int| '0'));
    v
}

pub open spec fn digit_val(c: char) -> nat {
    (c as u32 - '0' as u32) as nat
}

/// The number that a run of decimal digits spells.
pub open spec fn digits_val(s: Seq<char>) -> nat
    decreases s.len(),
{
    if s.len() == 0 {
        0
    } else {
        digits_val(s.drop_last()) * 10 + digit_val(s.last())
    }
}

/// The digits of a port spelling: the text after an optional leading `+`.
pub open spec fn port_digits(s: Seq<char>) -> Seq<char> {
    if s.len() > 0 && s[0] == '+' {
        s.skip(1)
    } else {
        s
    }
}

pub open spec fn all_digits(d: Seq<char>) -> bool {
    forall|i: int| 0 <= i < d.len() ==> is_digit(#[trigger] d[i])
}

/// What `str::parse::<u16>` accepts: an optional `+`, then one or more ASCII digits
/// whose value fits in 16 bits.
pub open spec fn parse_port(s: Seq<char>) -> Option<u16> {
    if port_digits(s).len() > 0 && all_digits(port_digits(s)) && digits_val(port_digits(s))
        <= 65535 {
        Some(digits_val(port_digits(s)) as u16)
    } else {
        None
    }
}

/// What `str::parse` accepts for an unsigned type whose largest value is `limit`.
pub open spec fn parse_number(s: Seq<char>, limit: nat) -> Option<nat> {
    if port_digits(s).len() > 0 && all_digits(port_digits(s)) && digits_val(port_digits(s))
        <= limit {
        Some(digits_val(port_digits(s)))
    } else {
        None
    }
}

/// Reads an unsigned number no larger than `limit`: `parse_number` computed.
pub fn read_number(s: &[char], limit: u64) -> (r: Option<u64>)
    ensures
        match r {
            Some(v) => parse_number(s@, limit as nat) == Some(v as nat),
            None => parse_number(s@, limit as nat) is None,
        },
{
    let start: usize = if s.len() > 0 && s[0] == '+' {
        1
    } else {
        0
    };
    let ghost d = s@.skip(start as int);
    assert(d =~= port_digits(s@));
    if start >= s.len() {
        assert(d.len() == 0);
        return None;
    }
    let cap: u128 = limit as u128 + 1;
    let mut i = start;
    let mut val: u128 = 0;
    while i < s.len()
        invariant
            start <= i <= s@.len(),
            d == s@.skip(start as int),
            d == port_digits(s@),
            cap == limit + 1,
            forall|j: int| start <= j < i ==> is_digit(#[trigger] s@[j]),
            val == if digits_val(d.take(i - start)) < cap {
                digits_val(d.take(i - start))
            } else {
                cap as nat
            },
        decreases s@.len() - i,
    {
        let c = s[i];
        if !('0' <= c && c <= '9') {
            assert(d[i - start] == s@[i as int]);
            assert(!is_digit(d[i - start]));
            return None;
        }
        let dv = (c as u32 - '0' as u32) as u128;
        assert(d.take(i - start + 1).drop_last() =~= d.take(i - start));
        let ghost prev = digits_val(d.take(i - start));
        assert(digits_val(d.take(i - start + 1)) == prev * 10 + dv);
        if val >= cap || val * 10 + dv >= cap {
            assert(prev * 10 + dv >= cap) by (nonlinear_arith)
                requires
                    val >= cap ==> prev >= cap,
                    val < cap ==> prev == val,
                    val >= cap || val * 10 + dv >= cap,
            ;
            val = cap;
        } else {
            val = val * 10 + dv;
        }
        i += 1;
    }
    assert(d.take(i - start) =~= d);
    if val < cap {
        Some(val as u64)
    } else {
        None
    }
}

/// Reads a port number: `parse_port` computed.
pub fn read_port(s: &[char]) -> (r: Option<u16>)
    ensures
        r == parse_port(s@),
{
    match read_number(s, 65535) {
        Some(v) => Some(v as u16),
        None => None,
    }
}

} // verus!
