//! Text primitives of the wire format: literals, decimal integers, booleans
//! and quoted strings, each as a specification over byte sequences, with an
//! executable writer, an executable reader and the lemma that reading what
//! was written gives the value back.
//!
//! A reader is specified as a function from the unread input to the value
//! read and the input left over: `Option<(T, Seq<u8>)>`.

use vstd::prelude::*;
use vstd::string::StringSliceAdditionalSpecFns;
use vstd::utf8::*;

verus! {

pub const QUOTE: u8 = 0x22;

pub const BACKSLASH: u8 = 0x5c;

pub const COMMA: u8 = 0x2c;

pub const MINUS: u8 = 0x2d;

pub const OPEN_BRACKET: u8 = 0x5b;

pub const CLOSE_BRACKET: u8 = 0x5d;

pub const OPEN_BRACE: u8 = 0x7b;

pub const CLOSE_BRACE: u8 = 0x7d;

// ---------------------------------------------------------------------------
// Literals
// ---------------------------------------------------------------------------
/// The bytes of a piece of fixed text.
pub open spec fn lit(s: &str) -> Seq<u8> {
    s.spec_bytes()
}

/// Reading a fixed byte string: succeeds when the input starts with it.
pub open spec fn take_lit(s: Seq<u8>, l: Seq<u8>) -> Option<Seq<u8>> {
    if l.is_prefix_of(s) {
        Some(s.skip(l.len() as int))
    } else {
        None
    }
}

pub proof fn lemma_take_lit(l: Seq<u8>, rest: Seq<u8>)
    ensures
        take_lit(l + rest, l) == Some(rest),
{
    assert((l + rest).subrange(0, l.len() as int) =~= l);
    assert((l + rest).skip(l.len() as int) =~= rest);
}

pub proof fn lemma_skip_skip(s: Seq<u8>, a: int, b: int)
    requires
        0 <= a,
        0 <= b,
        a + b <= s.len(),
    ensures
        s.skip(a).skip(b) == s.skip(a + b),
{
    assert(s.skip(a).skip(b) =~= s.skip(a + b));
}

pub fn put_lit(out: &mut Vec<u8>, s: &str)
    ensures
        final(out)@ == old(out)@ + lit(s),
{
    out.extend_from_slice(s.as_bytes());
}

/// Whether `data[pos..]` starts with `l`; the position after it if so.
pub fn eat_bytes(data: &[u8], pos: usize, l: &[u8]) -> (r: Option<usize>)
    requires
        pos <= data.len(),
    ensures
        match r {
            Some(next) => pos <= next <= data.len() && take_lit(data@.skip(pos as int), l@)
                == Some(data@.skip(next as int)),
            None => take_lit(data@.skip(pos as int), l@) is None,
        },
{
    let n: usize = l.len();
    if data.len() - pos < n {
        return None;
    }
    let mut i: usize = 0;
    while i < n
        invariant
            i <= n,
            n == l.len(),
            pos + n <= data.len(),
            forall|j: int| 0 <= j < i ==> data@[pos + j] == l@[j],
        decreases n - i,
    {
        if data[pos + i] != l[i] {
            assert(data@.skip(pos as int)[i as int] != l@[i as int]);
            return None;
        }
        i += 1;
    }
    proof {
        assert(l@ =~= data@.skip(pos as int).subrange(0, n as int));
        lemma_skip_skip(data@, pos as int, n as int);
    }
    Some(pos + n)
}

pub fn eat_lit(data: &[u8], pos: usize, s: &str) -> (r: Option<usize>)
    requires
        pos <= data.len(),
    ensures
        match r {
            Some(next) => pos <= next <= data.len() && take_lit(data@.skip(pos as int), lit(s))
                == Some(data@.skip(next as int)),
            None => take_lit(data@.skip(pos as int), lit(s)) is None,
        },
{
    eat_bytes(data, pos, s.as_bytes())
}

/// Reading one given byte.
pub open spec fn take_byte(s: Seq<u8>, b: u8) -> Option<Seq<u8>> {
    if s.len() > 0 && s[0] == b {
        Some(s.skip(1))
    } else {
        None
    }
}

pub fn eat_byte(data: &[u8], pos: usize, b: u8) -> (r: Option<usize>)
    requires
        pos <= data.len(),
    ensures
        match r {
            Some(next) => pos < next <= data.len() && next == pos + 1 && take_byte(
                data@.skip(pos as int),
                b,
            ) == Some(data@.skip(next as int)),
            None => take_byte(data@.skip(pos as int), b) is None,
        },
{
    if pos < data.len() && data[pos] == b {
        proof {
            lemma_skip_skip(data@, pos as int, 1);
        }
        Some(pos + 1)
    } else {
        None
    }
}

/// Whether the next unread byte is `b`.
pub fn next_is(data: &[u8], pos: usize, b: u8) -> (r: bool)
    requires
        pos <= data.len(),
    ensures
        r == (data@.skip(pos as int).len() > 0 && data@.skip(pos as int)[0] == b),
{
    pos < data.len() && data[pos] == b
}

/// Equality of two texts, decided on their bytes.
pub fn text_eq(a: &str, b: &str) -> (r: bool)
    ensures
        r == (a@ == b@),
{
    let x = a.as_bytes();
    let y = b.as_bytes();
    proof {
        encode_utf8_decode_utf8(a@);
        encode_utf8_decode_utf8(b@);
    }
    if x.len() != y.len() {
        return false;
    }
    let mut i: usize = 0;
    while i < x.len()
        invariant
            i <= x.len(),
            x.len() == y.len(),
            x@ == encode_utf8(a@),
            y@ == encode_utf8(b@),
            forall|j: int| 0 <= j < i ==> x@[j] == y@[j],
        decreases x.len() - i,
    {
        if x[i] != y[i] {
            return false;
        }
        i += 1;
    }
    assert(x@ =~= y@);
    true
}

/// Equality of two byte strings.
pub fn bytes_eq(a: &[u8], b: &[u8]) -> (r: bool)
    ensures
        r == (a@ == b@),
{
    if a.len() != b.len() {
        return false;
    }
    let mut i: usize = 0;
    while i < a.len()
        invariant
            i <= a.len(),
            a.len() == b.len(),
            forall|j: int| 0 <= j < i ==> a@[j] == b@[j],
        decreases a.len() - i,
    {
        if a[i] != b[i] {
            return false;
        }
        i += 1;
    }
    assert(a@ =~= b@);
    true
}

// ---------------------------------------------------------------------------
// Decimal integers
// ---------------------------------------------------------------------------
pub open spec fn is_digit(b: u8) -> bool {
    0x30 <= b <= 0x39
}

pub open spec fn digit(d: nat) -> u8 {
    (0x30 + d) as u8
}

/// Decimal text of a natural number, without leading zeros.
pub open spec fn ser_nat(n: nat) -> Seq<u8>
    decreases n,
{
    if n < 10 {
        seq![digit(n)]
    } else {
        ser_nat(n / 10).push(digit(n % 10))
    }
}

/// Decimal text of an integer: a minus sign before the digits of a negative
/// one.
pub open spec fn ser_int(i: int) -> Seq<u8> {
    if i < 0 {
        seq![MINUS] + ser_nat((-i) as nat)
    } else {
        ser_nat(i as nat)
    }
}

/// Length of the longest run of digits at the start of `s`.
pub open spec fn digit_run(s: Seq<u8>) -> nat
    decreases s.len(),
{
    if s.len() > 0 && is_digit(s[0]) {
        1 + digit_run(s.skip(1))
    } else {
        0
    }
}

/// The number that a string of digits denotes.
pub open spec fn digits_value(d: Seq<u8>) -> nat
    decreases d.len(),
{
    if d.len() == 0 {
        0
    } else {
        10 * digits_value(d.drop_last()) + (d.last() - 0x30) as nat
    }
}

/// Reading a natural number: the longest run of digits, which must not be
/// empty.
pub open spec fn parse_nat(s: Seq<u8>) -> Option<(nat, Seq<u8>)> {
    let k = digit_run(s);
    if k == 0 {
        None
    } else {
        Some((digits_value(s.take(k as int)), s.skip(k as int)))
    }
}

/// Reading an integer: an optional minus sign, then a natural number.
pub open spec fn parse_int(s: Seq<u8>) -> Option<(int, Seq<u8>)> {
    if s.len() > 0 && s[0] == MINUS {
        match parse_nat(s.skip(1)) {
            Some((n, rest)) => Some((-(n as int), rest)),
            None => None,
        }
    } else {
        match parse_nat(s) {
            Some((n, rest)) => Some((n as int, rest)),
            None => None,
        }
    }
}

/// Reading an integer that must lie between `lo` and `hi`.
pub open spec fn parse_int_in(s: Seq<u8>, lo: int, hi: int) -> Option<(int, Seq<u8>)> {
    match parse_int(s) {
        Some((v, rest)) => if lo <= v <= hi {
            Some((v, rest))
        } else {
            None
        },
        None => None,
    }
}

pub proof fn lemma_ser_nat_digits(n: nat)
    ensures
        ser_nat(n).len() > 0,
        forall|j: int| 0 <= j < ser_nat(n).len() ==> is_digit(#[trigger] ser_nat(n)[j]),
        digits_value(ser_nat(n)) == n,
    decreases n,
{
    if n < 10 {
        assert(ser_nat(n).drop_last() =~= Seq::<u8>::empty());
        assert(digits_value(ser_nat(n).drop_last()) == 0);
    } else {
        lemma_ser_nat_digits(n / 10);
        let d = ser_nat(n / 10);
        assert(ser_nat(n).drop_last() =~= d);
        assert(ser_nat(n).last() == digit(n % 10));
    }
}

/// A run of `k` digits that ends the input, or is followed by something that
/// is no digit, is the longest run.
pub proof fn lemma_digit_run_exact(s: Seq<u8>, k: nat)
    requires
        k <= s.len(),
        forall|j: int| 0 <= j < k ==> is_digit(#[trigger] s[j]),
        k == s.len() || !is_digit(s[k as int]),
    ensures
        digit_run(s) == k,
    decreases k,
{
    if k > 0 {
        let t = s.skip(1);
        assert forall|j: int| 0 <= j < k - 1 implies is_digit(#[trigger] t[j]) by {
            assert(t[j] == s[j + 1]);
        }
        lemma_digit_run_exact(t, (k - 1) as nat);
    }
}

/// A run of `k` digits is no longer than the longest run.
pub proof fn lemma_digit_run_at_least(s: Seq<u8>, k: nat)
    requires
        k <= s.len(),
        forall|j: int| 0 <= j < k ==> is_digit(#[trigger] s[j]),
    ensures
        digit_run(s) >= k,
        digit_run(s) <= s.len(),
    decreases s.len(),
{
    if s.len() > 0 && is_digit(s[0]) {
        let t = s.skip(1);
        let k1: nat = if k > 0 {
            (k - 1) as nat
        } else {
            0
        };
        assert forall|j: int| 0 <= j < k1 implies is_digit(#[trigger] t[j]) by {
            assert(t[j] == s[j + 1]);
        }
        lemma_digit_run_at_least(t, k1);
    }
}

/// A longer string of digits denotes no smaller a number than its start.
pub proof fn lemma_digits_value_grows(d: Seq<u8>, j: int)
    requires
        0 <= j <= d.len(),
        forall|i: int| 0 <= i < d.len() ==> is_digit(#[trigger] d[i]),
    ensures
        digits_value(d.take(j)) <= digits_value(d),
    decreases d.len() - j,
{
    if j == d.len() {
        assert(d.take(j) =~= d);
    } else {
        let p = d.drop_last();
        if j == d.len() - 1 {
            assert(d.take(j) =~= p);
        } else {
            assert(p.take(j) =~= d.take(j));
            lemma_digits_value_grows(p, j);
        }
    }
}

/// A number below the `k`-th power of ten has at most `k` digits.
pub open spec fn pow10(k: nat) -> nat
    decreases k,
{
    if k == 0 {
        1
    } else {
        10 * pow10((k - 1) as nat)
    }
}

pub proof fn lemma_ser_nat_len(n: nat, k: nat)
    requires
        k >= 1,
        n < pow10(k),
    ensures
        ser_nat(n).len() <= k,
    decreases k,
{
    if n >= 10 {
        assert(pow10(k) == 10 * pow10((k - 1) as nat));
        if k == 1 {
            assert(pow10(0) == 1);
        } else {
            lemma_ser_nat_len(n / 10, (k - 1) as nat);
        }
    }
}

/// The text of a 64-bit integer has at most twenty bytes.
pub proof fn lemma_ser_int_len(v: int)
    requires
        i64::MIN <= v <= i64::MAX,
    ensures
        ser_int(v).len() <= 20,
{
    let n: nat = if v < 0 {
        (-v) as nat
    } else {
        v as nat
    };
    assert(pow10(19) == 10_000_000_000_000_000_000nat) by {
        reveal_with_fuel(pow10, 20);
    }
    lemma_ser_nat_len(n, 19);
}

/// The bytes of a piece of fixed text in ASCII are as many as its characters.
pub proof fn lemma_lit_len(s: &str)
    requires
        vstd::utf8::is_ascii_chars(s@),
    ensures
        lit(s).len() == s@.len(),
{
    vstd::utf8::is_ascii_chars_encode_utf8(s@);
}

pub proof fn lemma_parse_nat_roundtrip(n: nat, rest: Seq<u8>)
    requires
        rest.len() == 0 || !is_digit(rest[0]),
    ensures
        parse_nat(ser_nat(n) + rest) == Some((n, rest)),
{
    let d = ser_nat(n);
    let s = d + rest;
    lemma_ser_nat_digits(n);
    assert forall|j: int| 0 <= j < d.len() implies is_digit(#[trigger] s[j]) by {
        assert(s[j] == d[j]);
    }
    lemma_digit_run_exact(s, d.len());
    assert(s.take(d.len() as int) =~= d);
    assert(s.skip(d.len() as int) =~= rest);
}

pub proof fn lemma_parse_int_roundtrip(v: int, rest: Seq<u8>)
    requires
        rest.len() == 0 || !is_digit(rest[0]),
    ensures
        parse_int(ser_int(v) + rest) == Some((v, rest)),
{
    if v < 0 {
        let n = (-v) as nat;
        let s = ser_int(v) + rest;
        assert(s.skip(1) =~= ser_nat(n) + rest);
        lemma_parse_nat_roundtrip(n, rest);
    } else {
        lemma_ser_nat_digits(v as nat);
        let s = ser_int(v) + rest;
        assert(s[0] == ser_nat(v as nat)[0]);
        lemma_parse_nat_roundtrip(v as nat, rest);
    }
}

pub proof fn lemma_parse_int_in_roundtrip(v: int, lo: int, hi: int, rest: Seq<u8>)
    requires
        lo <= v <= hi,
        rest.len() == 0 || !is_digit(rest[0]),
    ensures
        parse_int_in(ser_int(v) + rest, lo, hi) == Some((v, rest)),
{
    lemma_parse_int_roundtrip(v, rest);
}

pub fn put_nat(out: &mut Vec<u8>, n: u64)
    ensures
        final(out)@ == old(out)@ + ser_nat(n as nat),
    decreases n,
{
    if n >= 10 {
        put_nat(out, n / 10);
    }
    let d: u8 = (n % 10) as u8;
    out.push(0x30 + d);
    proof {
        if n >= 10 {
            assert(final(out)@ =~= old(out)@ + ser_nat((n / 10) as nat).push(digit((n % 10) as nat)));
        } else {
            assert(final(out)@ =~= old(out)@ + seq![digit(n as nat)]);
        }
    }
}

pub fn put_int(out: &mut Vec<u8>, v: i64)
    ensures
        final(out)@ == old(out)@ + ser_int(v as int),
{
    if v < 0 {
        out.push(MINUS);
        let m: u64 = ((-(v + 1)) as u64) + 1;
        put_nat(out, m);
        assert(final(out)@ =~= old(out)@ + (seq![MINUS] + ser_nat((-v) as nat)));
    } else {
        put_nat(out, v as u64);
    }
}

/// Reads a run of digits as a number below 2^64.
pub fn parse_nat_exec(data: &[u8], pos: usize) -> (r: Option<(u64, usize)>)
    requires
        pos <= data.len(),
    ensures
        match r {
            Some((n, next)) => pos < next <= data.len() && parse_nat(data@.skip(pos as int))
                == Some((n as nat, data@.skip(next as int))),
            None => match parse_nat(data@.skip(pos as int)) {
                Some((n, _)) => n > u64::MAX,
                None => true,
            },
        },
{
    let ghost s = data@.skip(pos as int);
    let mut i: usize = pos;
    let mut acc: u64 = 0;
    while i < data.len() && 0x30 <= data[i] && data[i] <= 0x39
        invariant
            pos <= i <= data.len(),
            s == data@.skip(pos as int),
            forall|j: int| 0 <= j < i - pos ==> is_digit(#[trigger] s[j]),
            acc == digits_value(s.take(i - pos)),
        decreases data.len() - i,
    {
        let d: u64 = (data[i] - 0x30) as u64;
        proof {
            let t = s.take(i - pos + 1);
            assert(t.drop_last() =~= s.take(i - pos));
            assert(t.last() == data@[i as int]);
            assert(digits_value(t) == 10 * acc + d);
        }
        if acc > (u64::MAX - d) / 10 {
            proof {
                let k = digit_run(s);
                lemma_digit_run_at_least(s, (i - pos + 1) as nat);
                let run = s.take(k as int);
                assert forall|j: int| 0 <= j < run.len() implies is_digit(#[trigger] run[j]) by {
                    lemma_digit_run_all_digits(s, j);
                }
                lemma_digits_value_grows(run, i - pos + 1);
                assert(run.take(i - pos + 1) =~= s.take(i - pos + 1));
            }
            return None;
        }
        acc = acc * 10 + d;
        i += 1;
    }
    proof {
        lemma_digit_run_exact(s, (i - pos) as nat);
        lemma_skip_skip(data@, pos as int, i - pos);
    }
    if i == pos {
        None
    } else {
        Some((acc, i))
    }
}

/// Every byte inside the longest run of digits is a digit.
pub proof fn lemma_digit_run_all_digits(s: Seq<u8>, j: int)
    requires
        0 <= j < digit_run(s),
    ensures
        j < s.len(),
        is_digit(s[j]),
    decreases j,
{
    if j > 0 {
        lemma_digit_run_all_digits(s.skip(1), j - 1);
    }
}

/// Reads an integer between `lo` and `hi`.
pub fn parse_int_exec(data: &[u8], pos: usize, lo: i64, hi: i64) -> (r: Option<(i64, usize)>)
    requires
        pos <= data.len(),
    ensures
        match r {
            Some((v, next)) => pos < next <= data.len() && parse_int_in(
                data@.skip(pos as int),
                lo as int,
                hi as int,
            ) == Some((v as int, data@.skip(next as int))),
            None => parse_int_in(data@.skip(pos as int), lo as int, hi as int) is None,
        },
{
    let negative: bool = next_is(data, pos, MINUS);
    let start: usize = if negative {
        pos + 1
    } else {
        pos
    };
    proof {
        if negative {
            lemma_skip_skip(data@, pos as int, 1);
        }
    }
    match parse_nat_exec(data, start) {
        None => None,
        Some((m, next)) => {
            if negative {
                if m > 0x8000_0000_0000_0000 {
                    return None;
                }
                let v: i64 = if m == 0x8000_0000_0000_0000 {
                    i64::MIN
                } else {
                    -(m as i64)
                };
                if lo <= v && v <= hi {
                    Some((v, next))
                } else {
                    None
                }
            } else {
                if m > 0x7fff_ffff_ffff_ffff {
                    return None;
                }
                let v: i64 = m as i64;
                if lo <= v && v <= hi {
                    Some((v, next))
                } else {
                    None
                }
            }
        },
    }
}

// ---------------------------------------------------------------------------
// Booleans
// ---------------------------------------------------------------------------
pub open spec fn ser_bool(b: bool) -> Seq<u8> {
    if b {
        lit("true")
    } else {
        lit("false")
    }
}

pub open spec fn parse_bool(s: Seq<u8>) -> Option<(bool, Seq<u8>)> {
    match take_lit(s, lit("true")) {
        Some(rest) => Some((true, rest)),
        None => match take_lit(s, lit("false")) {
            Some(rest) => Some((false, rest)),
            None => None,
        },
    }
}

pub proof fn lemma_parse_bool_roundtrip(b: bool, rest: Seq<u8>)
    ensures
        parse_bool(ser_bool(b) + rest) == Some((b, rest)),
{
    if b {
        lemma_take_lit(lit("true"), rest);
    } else {
        reveal_strlit("true");
        reveal_strlit("false");
        assert(is_ascii_chars("true"@));
        assert(is_ascii_chars("false"@));
        is_ascii_chars_encode_utf8("true"@);
        is_ascii_chars_encode_utf8("false"@);
        let s = lit("false") + rest;
        assert(s[0] == lit("false")[0]);
        assert(!lit("true").is_prefix_of(s)) by {
            if lit("true").is_prefix_of(s) {
                assert(s.subrange(0, 4)[0] == lit("true")[0]);
            }
        }
        lemma_take_lit(lit("false"), rest);
    }
}

pub fn put_bool(out: &mut Vec<u8>, b: bool)
    ensures
        final(out)@ == old(out)@ + ser_bool(b),
{
    if b {
        put_lit(out, "true");
    } else {
        put_lit(out, "false");
    }
}

pub fn parse_bool_exec(data: &[u8], pos: usize) -> (r: Option<(bool, usize)>)
    requires
        pos <= data.len(),
    ensures
        match r {
            Some((b, next)) => pos <= next <= data.len() && parse_bool(data@.skip(pos as int))
                == Some((b, data@.skip(next as int))),
            None => parse_bool(data@.skip(pos as int)) is None,
        },
{
    match eat_lit(data, pos, "true") {
        Some(next) => Some((true, next)),
        None => match eat_lit(data, pos, "false") {
            Some(next) => Some((false, next)),
            None => None,
        },
    }
}

} // verus!
