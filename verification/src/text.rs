//! Quoted strings of the wire format, and lists of them.
//!
//! A string is written between double quotes as its UTF-8 bytes, with the
//! double quote, the backslash and the control characters below 0x20 escaped
//! behind a backslash.

use crate::script::texts;
use crate::json::{lemma_skip_skip, next_is, BACKSLASH, CLOSE_BRACKET, COMMA, OPEN_BRACKET, QUOTE};
use vstd::prelude::*;
use vstd::string::StringSliceAdditionalSpecFns;
use vstd::utf8::*;

verus! {

// ---------------------------------------------------------------------------
// Escaping
// ---------------------------------------------------------------------------
/// The hexadecimal digit, in lower case, for a value below 16.
pub open spec fn hex_digit(v: u8) -> u8 {
    if v < 10 {
        (0x30 + v) as u8
    } else {
        (0x61 + v - 10) as u8
    }
}

/// The value of a hexadecimal digit in lower case.
pub open spec fn hex_value(b: u8) -> Option<u8> {
    if 0x30 <= b <= 0x39 {
        Some((b - 0x30) as u8)
    } else if 0x61 <= b <= 0x66 {
        Some((b - 0x61 + 10) as u8)
    } else {
        None
    }
}

/// How one byte of a string is written between the quotes.
pub open spec fn esc_byte(b: u8) -> Seq<u8> {
    if b == QUOTE {
        seq![BACKSLASH, QUOTE]
    } else if b == BACKSLASH {
        seq![BACKSLASH, BACKSLASH]
    } else if b == 0x08 {
        seq![BACKSLASH, 0x62u8]
    } else if b == 0x0c {
        seq![BACKSLASH, 0x66u8]
    } else if b == 0x0a {
        seq![BACKSLASH, 0x6eu8]
    } else if b == 0x0d {
        seq![BACKSLASH, 0x72u8]
    } else if b == 0x09 {
        seq![BACKSLASH, 0x74u8]
    } else if b < 0x20 {
        seq![BACKSLASH, 0x75u8, 0x30u8, 0x30u8, hex_digit(b / 16), hex_digit(b % 16)]
    } else {
        seq![b]
    }
}

/// How the bytes of a string are written between the quotes.
pub open spec fn esc(bytes: Seq<u8>) -> Seq<u8>
    decreases bytes.len(),
{
    if bytes.len() == 0 {
        Seq::empty()
    } else {
        esc_byte(bytes[0]) + esc(bytes.skip(1))
    }
}

/// A string on the wire.
pub open spec fn ser_str(chars: Seq<char>) -> Seq<u8> {
    seq![QUOTE] + esc(encode_utf8(chars)) + seq![QUOTE]
}

/// Reading the byte that stands at the start of `s` between the quotes: the
/// byte itself, or the one that an escape stands for; and how many bytes of
/// input it took.
pub open spec fn unesc_step(s: Seq<u8>) -> Option<(u8, nat)>
    recommends
        s.len() > 0,
        s[0] != QUOTE,
{
    if s[0] != BACKSLASH {
        Some((s[0], 1))
    } else if s.len() < 2 {
        None
    } else if s[1] == QUOTE {
        Some((QUOTE, 2))
    } else if s[1] == BACKSLASH {
        Some((BACKSLASH, 2))
    } else if s[1] == 0x62 {
        Some((0x08, 2))
    } else if s[1] == 0x66 {
        Some((0x0c, 2))
    } else if s[1] == 0x6e {
        Some((0x0a, 2))
    } else if s[1] == 0x72 {
        Some((0x0d, 2))
    } else if s[1] == 0x74 {
        Some((0x09, 2))
    } else if s[1] == 0x75 && s.len() >= 6 && s[2] == 0x30 && s[3] == 0x30 {
        match (hex_value(s[4]), hex_value(s[5])) {
            (Some(h), Some(l)) => if h < 2 {
                Some(((h * 16 + l) as u8, 6))
            } else {
                None
            },
            _ => None,
        }
    } else {
        None
    }
}

/// Reading up to the closing quote: the bytes of the string, and the input
/// after the quote.
pub open spec fn unesc(s: Seq<u8>) -> Option<(Seq<u8>, Seq<u8>)>
    decreases s.len(),
{
    if s.len() == 0 {
        None
    } else if s[0] == QUOTE {
        Some((Seq::empty(), s.skip(1)))
    } else {
        match unesc_step(s) {
            None => None,
            Some((b, k)) => if 1 <= k <= s.len() {
                match unesc(s.skip(k as int)) {
                    None => None,
                    Some((bytes, rest)) => Some((seq![b] + bytes, rest)),
                }
            } else {
                None
            },
        }
    }
}

/// Reading a string: a quote, the escaped bytes up to the closing quote, and
/// those bytes must be UTF-8.
pub open spec fn parse_str(s: Seq<u8>) -> Option<(Seq<char>, Seq<u8>)> {
    if s.len() > 0 && s[0] == QUOTE {
        match unesc(s.skip(1)) {
            Some((bytes, rest)) => if valid_utf8(bytes) {
                Some((decode_utf8(bytes), rest))
            } else {
                None
            },
            None => None,
        }
    } else {
        None
    }
}

pub proof fn lemma_esc_push(a: Seq<u8>, x: u8)
    ensures
        esc(a.push(x)) == esc(a) + esc_byte(x),
    decreases a.len(),
{
    if a.len() == 0 {
        assert(a.push(x).skip(1) =~= Seq::<u8>::empty());
        assert(esc(a.push(x).skip(1)) =~= Seq::<u8>::empty());
        assert(esc(a.push(x)) =~= esc_byte(x));
        assert(esc(a) + esc_byte(x) =~= esc_byte(x));
    } else {
        assert(a.push(x).skip(1) =~= a.skip(1).push(x));
        lemma_esc_push(a.skip(1), x);
        assert(esc(a.push(x)) =~= esc(a) + esc_byte(x));
    }
}

proof fn lemma_hex_roundtrip(v: u8)
    requires
        v < 16,
    ensures
        hex_value(hex_digit(v)) == Some(v),
{
}

/// Reading the escape of one byte gives the byte back.
pub proof fn lemma_unesc_step(x: u8, tail: Seq<u8>)
    ensures
        (esc_byte(x) + tail)[0] != QUOTE,
        unesc_step(esc_byte(x) + tail) == Some((x, esc_byte(x).len())),
{
    let e = esc_byte(x);
    let s = e + tail;
    assert(s[0] == e[0]);
    if e.len() >= 2 {
        assert(s[1] == e[1]);
    }
    if x < 0x20 && x != 0x08 && x != 0x0c && x != 0x0a && x != 0x0d && x != 0x09 {
        assert(e.len() == 6);
        assert(s[2] == e[2]);
        assert(s[3] == e[3]);
        assert(s[4] == e[4]);
        assert(s[5] == e[5]);
        lemma_hex_roundtrip(x / 16);
        lemma_hex_roundtrip(x % 16);
        assert((x / 16) * 16 + x % 16 == x);
    }
}

pub proof fn lemma_unesc_roundtrip(bytes: Seq<u8>, rest: Seq<u8>)
    ensures
        unesc(esc(bytes) + seq![QUOTE] + rest) == Some((bytes, rest)),
    decreases bytes.len(),
{
    let s = esc(bytes) + seq![QUOTE] + rest;
    if bytes.len() == 0 {
        assert(s[0] == QUOTE);
        assert(s.skip(1) =~= rest);
    } else {
        let e = esc_byte(bytes[0]);
        let tail = esc(bytes.skip(1)) + seq![QUOTE] + rest;
        assert(s =~= e + tail);
        lemma_unesc_step(bytes[0], tail);
        assert(s.skip(e.len() as int) =~= tail);
        lemma_unesc_roundtrip(bytes.skip(1), rest);
        assert(seq![bytes[0]] + bytes.skip(1) =~= bytes);
    }
}

pub proof fn lemma_parse_str_roundtrip(chars: Seq<char>, rest: Seq<u8>)
    ensures
        parse_str(ser_str(chars) + rest) == Some((chars, rest)),
{
    let b = encode_utf8(chars);
    let s = ser_str(chars) + rest;
    assert(s[0] == QUOTE);
    assert(s.skip(1) =~= esc(b) + seq![QUOTE] + rest);
    lemma_unesc_roundtrip(b, rest);
    encode_utf8_valid_utf8(chars);
    encode_utf8_decode_utf8(chars);
}

/// Escaping makes a string at most six times as long.
pub proof fn lemma_esc_len(bytes: Seq<u8>)
    ensures
        esc(bytes).len() <= 6 * bytes.len(),
    decreases bytes.len(),
{
    if bytes.len() > 0 {
        lemma_esc_len(bytes.skip(1));
    }
}

/// A written string in ASCII has at most six bytes for each character, and
/// the two quotes.
pub proof fn lemma_ser_str_len(chars: Seq<char>)
    requires
        is_ascii_chars(chars),
    ensures
        ser_str(chars).len() <= 6 * chars.len() + 2,
{
    is_ascii_chars_encode_utf8(chars);
    lemma_esc_len(encode_utf8(chars));
}

/// The first byte of a written string is the quote.
pub proof fn lemma_ser_str_first(chars: Seq<char>)
    ensures
        ser_str(chars).len() >= 2,
        ser_str(chars)[0] == QUOTE,
{
}

// ---------------------------------------------------------------------------
// Writing and reading strings
// ---------------------------------------------------------------------------
fn hex_digit_exec(v: u8) -> (r: u8)
    requires
        v < 16,
    ensures
        r == hex_digit(v),
{
    if v < 10 {
        0x30 + v
    } else {
        0x61 + (v - 10)
    }
}

fn hex_value_exec(b: u8) -> (r: Option<u8>)
    ensures
        r == hex_value(b),
{
    if 0x30 <= b && b <= 0x39 {
        Some(b - 0x30)
    } else if 0x61 <= b && b <= 0x66 {
        Some(b - 0x61 + 10)
    } else {
        None
    }
}

fn put_esc_byte(out: &mut Vec<u8>, b: u8)
    ensures
        final(out)@ == old(out)@ + esc_byte(b),
{
    if b == QUOTE {
        out.push(BACKSLASH);
        out.push(QUOTE);
    } else if b == BACKSLASH {
        out.push(BACKSLASH);
        out.push(BACKSLASH);
    } else if b == 0x08 {
        out.push(BACKSLASH);
        out.push(0x62);
    } else if b == 0x0c {
        out.push(BACKSLASH);
        out.push(0x66);
    } else if b == 0x0a {
        out.push(BACKSLASH);
        out.push(0x6e);
    } else if b == 0x0d {
        out.push(BACKSLASH);
        out.push(0x72);
    } else if b == 0x09 {
        out.push(BACKSLASH);
        out.push(0x74);
    } else if b < 0x20 {
        out.push(BACKSLASH);
        out.push(0x75);
        out.push(0x30);
        out.push(0x30);
        out.push(hex_digit_exec(b / 16));
        out.push(hex_digit_exec(b % 16));
    } else {
        out.push(b);
    }
    assert(final(out)@ =~= old(out)@ + esc_byte(b));
}

pub fn put_str(out: &mut Vec<u8>, s: &str)
    ensures
        final(out)@ == old(out)@ + ser_str(s@),
{
    let bytes = s.as_bytes();
    out.push(QUOTE);
    let mut i: usize = 0;
    while i < bytes.len()
        invariant
            i <= bytes.len(),
            bytes@ == encode_utf8(s@),
            out@ == old(out)@ + seq![QUOTE] + esc(bytes@.take(i as int)),
        decreases bytes.len() - i,
    {
        proof {
            lemma_esc_push(bytes@.take(i as int), bytes@[i as int]);
            assert(bytes@.take(i as int).push(bytes@[i as int]) =~= bytes@.take(i + 1));
        }
        put_esc_byte(out, bytes[i]);
        assert(out@ =~= old(out)@ + seq![QUOTE] + esc(bytes@.take(i + 1)));
        i += 1;
    }
    out.push(QUOTE);
    proof {
        assert(bytes@.take(i as int) =~= bytes@);
        assert(final(out)@ =~= old(out)@ + ser_str(s@));
    }
}

/// `String::from_utf8` of std: the text that the bytes encode, where they
/// are UTF-8, and nothing where they are not.
#[verifier::external_body]
fn string_from_utf8(bytes: Vec<u8>) -> (r: Option<String>)
    ensures
        match r {
            Some(s) => valid_utf8(bytes@) && s@ == decode_utf8(bytes@),
            None => !valid_utf8(bytes@),
        },
{
    String::from_utf8(bytes).ok()
}

/// Reads the byte, plain or escaped, at `data[i]`.
fn read_unesc_step(data: &[u8], i: usize) -> (r: Option<(u8, usize)>)
    requires
        i < data.len(),
        data@[i as int] != QUOTE,
    ensures
        match r {
            Some((b, k)) => 1 <= k && i + k <= data.len() && unesc_step(data@.skip(i as int))
                == Some((b, k as nat)),
            None => unesc_step(data@.skip(i as int)) is None,
        },
{
    let ghost s = data@.skip(i as int);
    let n: usize = data.len() - i;
    assert(s.len() == n);
    assert(s[0] == data@[i as int]);
    if data[i] != BACKSLASH {
        return Some((data[i], 1));
    }
    if n < 2 {
        return None;
    }
    assert(s[1] == data@[i + 1]);
    let c: u8 = data[i + 1];
    if c == QUOTE {
        Some((QUOTE, 2))
    } else if c == BACKSLASH {
        Some((BACKSLASH, 2))
    } else if c == 0x62 {
        Some((0x08, 2))
    } else if c == 0x66 {
        Some((0x0c, 2))
    } else if c == 0x6e {
        Some((0x0a, 2))
    } else if c == 0x72 {
        Some((0x0d, 2))
    } else if c == 0x74 {
        Some((0x09, 2))
    } else if c == 0x75 && n >= 6 {
        assert(s[2] == data@[i + 2]);
        assert(s[3] == data@[i + 3]);
        assert(s[4] == data@[i + 4]);
        assert(s[5] == data@[i + 5]);
        if data[i + 2] != 0x30 || data[i + 3] != 0x30 {
            return None;
        }
        match (hex_value_exec(data[i + 4]), hex_value_exec(data[i + 5])) {
            (Some(h), Some(l)) => if h < 2 {
                Some((h * 16 + l, 6))
            } else {
                None
            },
            _ => None,
        }
    } else {
        None
    }
}

/// What `unesc` gives once `acc` has been read before it.
pub open spec fn unesc_after(acc: Seq<u8>, r: Option<(Seq<u8>, Seq<u8>)>) -> Option<
    (Seq<u8>, Seq<u8>),
> {
    match r {
        Some((bytes, rest)) => Some((acc + bytes, rest)),
        None => None,
    }
}

pub fn parse_str_exec(data: &[u8], pos: usize) -> (r: Option<(String, usize)>)
    requires
        pos <= data.len(),
    ensures
        match r {
            Some((s, next)) => pos < next <= data.len() && parse_str(data@.skip(pos as int))
                == Some((s@, data@.skip(next as int))),
            None => parse_str(data@.skip(pos as int)) is None,
        },
{
    if !next_is(data, pos, QUOTE) {
        return None;
    }
    let ghost body = data@.skip(pos as int).skip(1);
    proof {
        lemma_skip_skip(data@, pos as int, 1);
    }
    let mut acc: Vec<u8> = Vec::new();
    let mut i: usize = pos + 1;
    loop
        invariant
            pos < i <= data.len(),
            data@.skip(pos as int).len() > 0,
            data@.skip(pos as int)[0] == QUOTE,
            body == data@.skip(pos as int).skip(1),
            unesc(body) == unesc_after(acc@, unesc(data@.skip(i as int))),
        decreases data.len() - i,
    {
        if i >= data.len() {
            return None;
        }
        let ghost s = data@.skip(i as int);
        assert(s[0] == data@[i as int]);
        if data[i] == QUOTE {
            proof {
                lemma_skip_skip(data@, i as int, 1);
                assert(acc@ + Seq::<u8>::empty() =~= acc@);
            }
            return match string_from_utf8(acc) {
                Some(text) => Some((text, i + 1)),
                None => None,
            };
        }
        match read_unesc_step(data, i) {
            None => {
                return None;
            },
            Some((b, k)) => {
                proof {
                    lemma_skip_skip(data@, i as int, k as int);
                    let ghost after = unesc(data@.skip(i + k));
                    assert(unesc_after(acc@, unesc(s)) == unesc_after(acc@.push(b), after)) by {
                        match after {
                            Some((bytes, rest)) => {
                                assert(acc@ + (seq![b] + bytes) =~= acc@.push(b) + bytes);
                            },
                            None => {},
                        }
                    }
                }
                acc.push(b);
                i = i + k;
            },
        }
    }
}

// ---------------------------------------------------------------------------
// Lists of strings
// ---------------------------------------------------------------------------
/// The strings of a list after its first, each behind a comma.
pub open spec fn ser_str_tail(v: Seq<Seq<char>>) -> Seq<u8>
    decreases v.len(),
{
    if v.len() == 0 {
        Seq::empty()
    } else {
        seq![COMMA] + ser_str(v[0]) + ser_str_tail(v.skip(1))
    }
}

/// A list of strings on the wire: between square brackets, with commas
/// between the strings.
pub open spec fn ser_str_list(v: Seq<Seq<char>>) -> Seq<u8> {
    if v.len() == 0 {
        seq![OPEN_BRACKET, CLOSE_BRACKET]
    } else {
        seq![OPEN_BRACKET] + ser_str(v[0]) + ser_str_tail(v.skip(1)) + seq![CLOSE_BRACKET]
    }
}

/// Reading what follows the first string of a list, up to the closing
/// bracket.
pub open spec fn parse_str_tail(s: Seq<u8>) -> Option<(Seq<Seq<char>>, Seq<u8>)>
    decreases s.len(),
{
    if s.len() == 0 {
        None
    } else if s[0] == CLOSE_BRACKET {
        Some((Seq::empty(), s.skip(1)))
    } else if s[0] == COMMA {
        match parse_str(s.skip(1)) {
            None => None,
            Some((x, rest)) => if rest.len() < s.len() {
                match parse_str_tail(rest) {
                    None => None,
                    Some((xs, rest2)) => Some((seq![x] + xs, rest2)),
                }
            } else {
                None
            },
        }
    } else {
        None
    }
}

pub open spec fn parse_str_list(s: Seq<u8>) -> Option<(Seq<Seq<char>>, Seq<u8>)> {
    if s.len() == 0 || s[0] != OPEN_BRACKET {
        None
    } else if s.len() > 1 && s[1] == CLOSE_BRACKET {
        Some((Seq::empty(), s.skip(2)))
    } else {
        match parse_str(s.skip(1)) {
            None => None,
            Some((x, rest)) => match parse_str_tail(rest) {
                None => None,
                Some((xs, rest2)) => Some((seq![x] + xs, rest2)),
            },
        }
    }
}

pub proof fn lemma_ser_str_tail_push(v: Seq<Seq<char>>, x: Seq<char>)
    ensures
        ser_str_tail(v.push(x)) == ser_str_tail(v) + seq![COMMA] + ser_str(x),
    decreases v.len(),
{
    if v.len() == 0 {
        assert(v.push(x).skip(1) =~= Seq::<Seq<char>>::empty());
        assert(ser_str_tail(v.push(x).skip(1)) =~= Seq::<u8>::empty());
        assert(v.push(x)[0] == x);
        assert(ser_str_tail(v.push(x)) =~= seq![COMMA] + ser_str(x));
        assert(ser_str_tail(v) + seq![COMMA] + ser_str(x) =~= seq![COMMA] + ser_str(x));
    } else {
        assert(v.push(x).skip(1) =~= v.skip(1).push(x));
        lemma_ser_str_tail_push(v.skip(1), x);
        assert(ser_str_tail(v.push(x)) =~= ser_str_tail(v) + seq![COMMA] + ser_str(x));
    }
}

pub proof fn lemma_parse_str_tail_roundtrip(v: Seq<Seq<char>>, rest: Seq<u8>)
    ensures
        parse_str_tail(ser_str_tail(v) + seq![CLOSE_BRACKET] + rest) == Some((v, rest)),
    decreases v.len(),
{
    let s = ser_str_tail(v) + seq![CLOSE_BRACKET] + rest;
    if v.len() == 0 {
        assert(s[0] == CLOSE_BRACKET);
        assert(s.skip(1) =~= rest);
    } else {
        let after = ser_str_tail(v.skip(1)) + seq![CLOSE_BRACKET] + rest;
        assert(s[0] == COMMA);
        assert(s.skip(1) =~= ser_str(v[0]) + after);
        lemma_parse_str_roundtrip(v[0], after);
        lemma_ser_str_first(v[0]);
        assert(after.len() < s.len());
        lemma_parse_str_tail_roundtrip(v.skip(1), rest);
        assert(seq![v[0]] + v.skip(1) =~= v);
    }
}

pub proof fn lemma_parse_str_list_roundtrip(v: Seq<Seq<char>>, rest: Seq<u8>)
    ensures
        parse_str_list(ser_str_list(v) + rest) == Some((v, rest)),
{
    let s = ser_str_list(v) + rest;
    assert(s[0] == OPEN_BRACKET);
    if v.len() == 0 {
        assert(s[1] == CLOSE_BRACKET);
        assert(s.skip(2) =~= rest);
    } else {
        let after = ser_str_tail(v.skip(1)) + seq![CLOSE_BRACKET] + rest;
        lemma_ser_str_first(v[0]);
        assert(s[1] == ser_str(v[0])[0]);
        assert(s.skip(1) =~= ser_str(v[0]) + after);
        lemma_parse_str_roundtrip(v[0], after);
        lemma_parse_str_tail_roundtrip(v.skip(1), rest);
        assert(seq![v[0]] + v.skip(1) =~= v);
    }
}

pub fn put_str_list(out: &mut Vec<u8>, v: &Vec<String>)
    ensures
        final(out)@ == old(out)@ + ser_str_list(texts(v@)),
{
    let ghost t = texts(v@);
    out.push(OPEN_BRACKET);
    if v.len() == 0 {
        out.push(CLOSE_BRACKET);
        assert(final(out)@ =~= old(out)@ + ser_str_list(t));
        return ;
    }
    put_str(out, v[0].as_str());
    let mut i: usize = 1;
    assert(t.skip(1).take(0) =~= Seq::<Seq<char>>::empty());
    assert(out@ =~= old(out)@ + seq![OPEN_BRACKET] + ser_str(t[0]) + ser_str_tail(
        t.skip(1).take(0),
    ));
    while i < v.len()
        invariant
            1 <= i <= v.len(),
            t == texts(v@),
            out@ == old(out)@ + seq![OPEN_BRACKET] + ser_str(t[0]) + ser_str_tail(
                t.skip(1).take(i - 1),
            ),
        decreases v.len() - i,
    {
        proof {
            lemma_ser_str_tail_push(t.skip(1).take(i - 1), t[i as int]);
            assert(t.skip(1).take(i - 1).push(t[i as int]) =~= t.skip(1).take(i as int));
        }
        out.push(COMMA);
        put_str(out, v[i].as_str());
        assert(out@ =~= old(out)@ + seq![OPEN_BRACKET] + ser_str(t[0]) + ser_str_tail(
            t.skip(1).take(i as int),
        ));
        i += 1;
    }
    out.push(CLOSE_BRACKET);
    proof {
        assert(t.skip(1).take(i - 1) =~= t.skip(1));
        assert(final(out)@ =~= old(out)@ + ser_str_list(t));
    }
}

/// What `parse_str_tail` gives once `acc` has been read before it.
pub open spec fn str_tail_after(
    acc: Seq<Seq<char>>,
    r: Option<(Seq<Seq<char>>, Seq<u8>)>,
) -> Option<(Seq<Seq<char>>, Seq<u8>)> {
    match r {
        Some((xs, rest)) => Some((acc + xs, rest)),
        None => None,
    }
}

pub fn parse_str_list_exec(data: &[u8], pos: usize) -> (r: Option<(Vec<String>, usize)>)
    requires
        pos <= data.len(),
    ensures
        match r {
            Some((v, next)) => pos < next <= data.len() && parse_str_list(data@.skip(pos as int))
                == Some((texts(v@), data@.skip(next as int))),
            None => parse_str_list(data@.skip(pos as int)) is None,
        },
{
    let ghost s = data@.skip(pos as int);
    if !next_is(data, pos, OPEN_BRACKET) {
        return None;
    }
    proof {
        lemma_skip_skip(data@, pos as int, 1);
    }
    let mut acc: Vec<String> = Vec::new();
    if next_is(data, pos + 1, CLOSE_BRACKET) {
        proof {
            lemma_skip_skip(data@, pos as int, 2);
        }
        assert(s[1] == data@.skip(pos + 1)[0]);
        assert(texts(acc@) =~= Seq::<Seq<char>>::empty());
        return Some((acc, pos + 2));
    }
    assert(s.len() > 1 ==> s[1] == data@.skip(pos + 1)[0]);
    let mut i: usize = match parse_str_exec(data, pos + 1) {
        None => {
            return None;
        },
        Some((x, next)) => {
            acc.push(x);
            next
        },
    };
    assert(texts(acc@) =~= seq![acc@[0]@]);
    loop
        invariant
            pos < i <= data.len(),
            s == data@.skip(pos as int),
            acc@.len() > 0,
            parse_str_list(s) == str_tail_after(texts(acc@), parse_str_tail(data@.skip(i as int))),
        decreases data.len() - i,
    {
        let ghost cur = data@.skip(i as int);
        if i >= data.len() {
            return None;
        }
        assert(cur[0] == data@[i as int]);
        if data[i] == CLOSE_BRACKET {
            proof {
                lemma_skip_skip(data@, i as int, 1);
                assert(texts(acc@) + Seq::<Seq<char>>::empty() =~= texts(acc@));
            }
            return Some((acc, i + 1));
        }
        if data[i] != COMMA {
            return None;
        }
        proof {
            lemma_skip_skip(data@, i as int, 1);
        }
        match parse_str_exec(data, i + 1) {
            None => {
                return None;
            },
            Some((x, next)) => {
                proof {
                    let ghost after = parse_str_tail(data@.skip(next as int));
                    assert(data@.skip(next as int).len() < cur.len());
                    assert(str_tail_after(texts(acc@), parse_str_tail(cur)) == str_tail_after(
                        texts(acc@.push(x)),
                        after,
                    )) by {
                        assert(texts(acc@.push(x)) =~= texts(acc@).push(x@));
                        match after {
                            Some((xs, rest)) => {
                                assert(texts(acc@) + (seq![x@] + xs) =~= texts(acc@).push(x@)
                                    + xs);
                            },
                            None => {},
                        }
                    }
                }
                acc.push(x);
                i = next;
            },
        }
    }
}

} // verus!
