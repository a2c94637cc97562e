//! Members of a record on the wire: a key, then a value.
//!
//! A key is the fixed text that stands before the value, quotes and colon
//! included. Each reader here reads the key first and then the value.

use crate::json::{
    eat_lit, is_digit, lemma_parse_bool_roundtrip, lemma_parse_int_in_roundtrip, lemma_take_lit,
    lit, parse_bool, parse_bool_exec, parse_int_exec, parse_int_in, put_bool, put_int, put_lit,
    ser_bool, ser_int, take_lit, MINUS,
};
use crate::script::{opt_text, texts};
use crate::text::{
    lemma_parse_str_list_roundtrip, lemma_parse_str_roundtrip, lemma_ser_str_first, parse_str,
    parse_str_exec, parse_str_list, parse_str_list_exec, put_str, put_str_list, ser_str,
    ser_str_list,
};
use vstd::prelude::*;
use vstd::utf8::is_ascii_chars;
use vstd::utf8::is_ascii_chars_encode_utf8;

verus! {

pub const COLON: u8 = 0x3a;

pub const U32_MAX: i64 = 0xffff_ffff;

pub const I32_MIN: i64 = -0x8000_0000;

pub const I32_MAX: i64 = 0x7fff_ffff;

/// The first byte of the text for an absent value is the letter n.
pub proof fn lemma_null_first()
    ensures
        lit("null").len() == 4,
        lit("null")[0] == 0x6e,
{
    reveal_strlit("null");
    assert(is_ascii_chars("null"@));
    is_ascii_chars_encode_utf8("null"@);
}

/// The first byte of a written integer is a digit or the minus sign.
pub proof fn lemma_ser_int_first(v: int)
    ensures
        ser_int(v).len() > 0,
        is_digit(ser_int(v)[0]) || ser_int(v)[0] == MINUS,
{
    crate::json::lemma_ser_nat_digits(
        if v < 0 {
            (-v) as nat
        } else {
            v as nat
        },
    );
}

// ---------------------------------------------------------------------------
// Integers
// ---------------------------------------------------------------------------
#[verifier::opaque]
pub open spec fn ser_key_int(key: Seq<u8>, v: int) -> Seq<u8> {
    key + ser_int(v)
}

#[verifier::opaque]
pub open spec fn parse_key_int(s: Seq<u8>, key: Seq<u8>, lo: int, hi: int) -> Option<
    (int, Seq<u8>),
> {
    match take_lit(s, key) {
        Some(s1) => parse_int_in(s1, lo, hi),
        None => None,
    }
}

pub proof fn lemma_key_int(key: Seq<u8>, v: int, lo: int, hi: int, rest: Seq<u8>)
    requires
        lo <= v <= hi,
        rest.len() == 0 || !is_digit(rest[0]),
    ensures
        parse_key_int(ser_key_int(key, v) + rest, key, lo, hi) == Some((v, rest)),
{
    reveal(ser_key_int);
    reveal(parse_key_int);
    assert(ser_key_int(key, v) + rest =~= key + (ser_int(v) + rest));
    lemma_take_lit(key, ser_int(v) + rest);
    lemma_parse_int_in_roundtrip(v, lo, hi, rest);
}

pub fn put_key_int(out: &mut Vec<u8>, key: &str, v: i64)
    ensures
        final(out)@ == old(out)@ + ser_key_int(lit(key), v as int),
{
    reveal(ser_key_int);
    put_lit(out, key);
    put_int(out, v);
    assert(final(out)@ =~= old(out)@ + ser_key_int(lit(key), v as int));
}

pub fn read_key_i64(data: &[u8], pos: usize, key: &str) -> (r: Option<(i64, usize)>)
    requires
        pos <= data.len(),
    ensures
        match r {
            Some((v, next)) => pos < next <= data.len() && parse_key_int(
                data@.skip(pos as int),
                lit(key),
                i64::MIN as int,
                i64::MAX as int,
            ) == Some((v as int, data@.skip(next as int))),
            None => parse_key_int(
                data@.skip(pos as int),
                lit(key),
                i64::MIN as int,
                i64::MAX as int,
            ) is None,
        },
{
    reveal(parse_key_int);
    let p: usize = eat_lit(data, pos, key)?;
    parse_int_exec(data, p, i64::MIN, i64::MAX)
}

pub fn read_key_u32(data: &[u8], pos: usize, key: &str) -> (r: Option<(u32, usize)>)
    requires
        pos <= data.len(),
    ensures
        match r {
            Some((v, next)) => pos < next <= data.len() && parse_key_int(
                data@.skip(pos as int),
                lit(key),
                0,
                U32_MAX as int,
            ) == Some((v as int, data@.skip(next as int))),
            None => parse_key_int(data@.skip(pos as int), lit(key), 0, U32_MAX as int) is None,
        },
{
    reveal(parse_key_int);
    let p: usize = eat_lit(data, pos, key)?;
    let (v, next) = parse_int_exec(data, p, 0, U32_MAX)?;
    Some((v as u32, next))
}

pub fn read_key_i32(data: &[u8], pos: usize, key: &str) -> (r: Option<(i32, usize)>)
    requires
        pos <= data.len(),
    ensures
        match r {
            Some((v, next)) => pos < next <= data.len() && parse_key_int(
                data@.skip(pos as int),
                lit(key),
                I32_MIN as int,
                I32_MAX as int,
            ) == Some((v as int, data@.skip(next as int))),
            None => parse_key_int(
                data@.skip(pos as int),
                lit(key),
                I32_MIN as int,
                I32_MAX as int,
            ) is None,
        },
{
    reveal(parse_key_int);
    let p: usize = eat_lit(data, pos, key)?;
    let (v, next) = parse_int_exec(data, p, I32_MIN, I32_MAX)?;
    Some((v as i32, next))
}

// ---------------------------------------------------------------------------
// Integers that may be absent
// ---------------------------------------------------------------------------
#[verifier::opaque]
pub open spec fn ser_key_opt_u32(key: Seq<u8>, v: Option<u32>) -> Seq<u8> {
    match v {
        Some(x) => key + ser_int(x as int),
        None => key + lit("null"),
    }
}

#[verifier::opaque]
pub open spec fn parse_key_opt_u32(s: Seq<u8>, key: Seq<u8>) -> Option<(Option<u32>, Seq<u8>)> {
    match take_lit(s, key) {
        Some(s1) => match take_lit(s1, lit("null")) {
            Some(rest) => Some((None, rest)),
            None => match parse_int_in(s1, 0, U32_MAX as int) {
                Some((v, rest)) => Some((Some(v as u32), rest)),
                None => None,
            },
        },
        None => None,
    }
}

pub proof fn lemma_key_opt_u32(key: Seq<u8>, v: Option<u32>, rest: Seq<u8>)
    requires
        rest.len() == 0 || !is_digit(rest[0]),
    ensures
        parse_key_opt_u32(ser_key_opt_u32(key, v) + rest, key) == Some((v, rest)),
{
    reveal(ser_key_opt_u32);
    reveal(parse_key_opt_u32);
    lemma_null_first();
    match v {
        Some(x) => {
            let s1 = ser_int(x as int) + rest;
            assert(ser_key_opt_u32(key, v) + rest =~= key + s1);
            lemma_take_lit(key, s1);
            lemma_ser_int_first(x as int);
            assert(s1[0] == ser_int(x as int)[0]);
            assert(!lit("null").is_prefix_of(s1)) by {
                if lit("null").is_prefix_of(s1) {
                    assert(s1.subrange(0, 4)[0] == lit("null")[0]);
                }
            }
            lemma_parse_int_in_roundtrip(x as int, 0, U32_MAX as int, rest);
        },
        None => {
            assert(ser_key_opt_u32(key, v) + rest =~= key + (lit("null") + rest));
            lemma_take_lit(key, lit("null") + rest);
            lemma_take_lit(lit("null"), rest);
        },
    }
}

pub fn put_key_opt_u32(out: &mut Vec<u8>, key: &str, v: Option<u32>)
    ensures
        final(out)@ == old(out)@ + ser_key_opt_u32(lit(key), v),
{
    reveal(ser_key_opt_u32);
    put_lit(out, key);
    match v {
        Some(x) => {
            put_int(out, x as i64);
        },
        None => {
            put_lit(out, "null");
        },
    }
    assert(final(out)@ =~= old(out)@ + ser_key_opt_u32(lit(key), v));
}

pub fn read_key_opt_u32(data: &[u8], pos: usize, key: &str) -> (r: Option<(Option<u32>, usize)>)
    requires
        pos <= data.len(),
    ensures
        match r {
            Some((v, next)) => pos < next <= data.len() && parse_key_opt_u32(
                data@.skip(pos as int),
                lit(key),
            ) == Some((v, data@.skip(next as int))),
            None => parse_key_opt_u32(data@.skip(pos as int), lit(key)) is None,
        },
{
    reveal(parse_key_opt_u32);
    let p: usize = eat_lit(data, pos, key)?;
    match eat_lit(data, p, "null") {
        Some(next) => {
            proof {
                lemma_null_first();
            }
            Some((None, next))
        },
        None => {
            let (v, next) = parse_int_exec(data, p, 0, U32_MAX)?;
            Some((Some(v as u32), next))
        },
    }
}

// ---------------------------------------------------------------------------
// Strings
// ---------------------------------------------------------------------------
#[verifier::opaque]
pub open spec fn ser_key_str(key: Seq<u8>, v: Seq<char>) -> Seq<u8> {
    key + ser_str(v)
}

#[verifier::opaque]
pub open spec fn parse_key_str(s: Seq<u8>, key: Seq<u8>) -> Option<(Seq<char>, Seq<u8>)> {
    match take_lit(s, key) {
        Some(s1) => parse_str(s1),
        None => None,
    }
}

pub proof fn lemma_key_str(key: Seq<u8>, v: Seq<char>, rest: Seq<u8>)
    ensures
        parse_key_str(ser_key_str(key, v) + rest, key) == Some((v, rest)),
{
    reveal(ser_key_str);
    reveal(parse_key_str);
    assert(ser_key_str(key, v) + rest =~= key + (ser_str(v) + rest));
    lemma_take_lit(key, ser_str(v) + rest);
    lemma_parse_str_roundtrip(v, rest);
}

pub fn put_key_str(out: &mut Vec<u8>, key: &str, v: &str)
    ensures
        final(out)@ == old(out)@ + ser_key_str(lit(key), v@),
{
    reveal(ser_key_str);
    put_lit(out, key);
    put_str(out, v);
    assert(final(out)@ =~= old(out)@ + ser_key_str(lit(key), v@));
}

pub fn read_key_str(data: &[u8], pos: usize, key: &str) -> (r: Option<(String, usize)>)
    requires
        pos <= data.len(),
    ensures
        match r {
            Some((v, next)) => pos < next <= data.len() && parse_key_str(
                data@.skip(pos as int),
                lit(key),
            ) == Some((v@, data@.skip(next as int))),
            None => parse_key_str(data@.skip(pos as int), lit(key)) is None,
        },
{
    reveal(parse_key_str);
    let p: usize = eat_lit(data, pos, key)?;
    parse_str_exec(data, p)
}

// ---------------------------------------------------------------------------
// Strings that may be absent
// ---------------------------------------------------------------------------
#[verifier::opaque]
pub open spec fn ser_key_opt_str(key: Seq<u8>, v: Option<Seq<char>>) -> Seq<u8> {
    match v {
        Some(x) => key + ser_str(x),
        None => key + lit("null"),
    }
}

#[verifier::opaque]
pub open spec fn parse_key_opt_str(s: Seq<u8>, key: Seq<u8>) -> Option<
    (Option<Seq<char>>, Seq<u8>),
> {
    match take_lit(s, key) {
        Some(s1) => match take_lit(s1, lit("null")) {
            Some(rest) => Some((None, rest)),
            None => match parse_str(s1) {
                Some((v, rest)) => Some((Some(v), rest)),
                None => None,
            },
        },
        None => None,
    }
}

pub proof fn lemma_key_opt_str(key: Seq<u8>, v: Option<Seq<char>>, rest: Seq<u8>)
    ensures
        parse_key_opt_str(ser_key_opt_str(key, v) + rest, key) == Some((v, rest)),
{
    reveal(ser_key_opt_str);
    reveal(parse_key_opt_str);
    lemma_null_first();
    match v {
        Some(x) => {
            let s1 = ser_str(x) + rest;
            assert(ser_key_opt_str(key, v) + rest =~= key + s1);
            lemma_take_lit(key, s1);
            lemma_ser_str_first(x);
            assert(s1[0] == ser_str(x)[0]);
            assert(!lit("null").is_prefix_of(s1)) by {
                if lit("null").is_prefix_of(s1) {
                    assert(s1.subrange(0, 4)[0] == lit("null")[0]);
                }
            }
            lemma_parse_str_roundtrip(x, rest);
        },
        None => {
            assert(ser_key_opt_str(key, v) + rest =~= key + (lit("null") + rest));
            lemma_take_lit(key, lit("null") + rest);
            lemma_take_lit(lit("null"), rest);
        },
    }
}

pub fn put_key_opt_str(out: &mut Vec<u8>, key: &str, v: &Option<String>)
    ensures
        final(out)@ == old(out)@ + ser_key_opt_str(lit(key), opt_text(*v)),
{
    reveal(ser_key_opt_str);
    put_lit(out, key);
    match v {
        Some(x) => {
            put_str(out, x.as_str());
        },
        None => {
            put_lit(out, "null");
        },
    }
    assert(final(out)@ =~= old(out)@ + ser_key_opt_str(lit(key), opt_text(*v)));
}

pub fn read_key_opt_str(data: &[u8], pos: usize, key: &str) -> (r: Option<
    (Option<String>, usize),
>)
    requires
        pos <= data.len(),
    ensures
        match r {
            Some((v, next)) => pos < next <= data.len() && parse_key_opt_str(
                data@.skip(pos as int),
                lit(key),
            ) == Some((opt_text(v), data@.skip(next as int))),
            None => parse_key_opt_str(data@.skip(pos as int), lit(key)) is None,
        },
{
    reveal(parse_key_opt_str);
    let p: usize = eat_lit(data, pos, key)?;
    match eat_lit(data, p, "null") {
        Some(next) => {
            proof {
                lemma_null_first();
            }
            Some((None, next))
        },
        None => {
            let (v, next) = parse_str_exec(data, p)?;
            Some((Some(v), next))
        },
    }
}

// ---------------------------------------------------------------------------
// Booleans
// ---------------------------------------------------------------------------
#[verifier::opaque]
pub open spec fn ser_key_bool(key: Seq<u8>, v: bool) -> Seq<u8> {
    key + ser_bool(v)
}

#[verifier::opaque]
pub open spec fn parse_key_bool(s: Seq<u8>, key: Seq<u8>) -> Option<(bool, Seq<u8>)> {
    match take_lit(s, key) {
        Some(s1) => parse_bool(s1),
        None => None,
    }
}

pub proof fn lemma_key_bool(key: Seq<u8>, v: bool, rest: Seq<u8>)
    ensures
        parse_key_bool(ser_key_bool(key, v) + rest, key) == Some((v, rest)),
{
    reveal(ser_key_bool);
    reveal(parse_key_bool);
    assert(ser_key_bool(key, v) + rest =~= key + (ser_bool(v) + rest));
    lemma_take_lit(key, ser_bool(v) + rest);
    lemma_parse_bool_roundtrip(v, rest);
}

pub fn put_key_bool(out: &mut Vec<u8>, key: &str, v: bool)
    ensures
        final(out)@ == old(out)@ + ser_key_bool(lit(key), v),
{
    reveal(ser_key_bool);
    put_lit(out, key);
    put_bool(out, v);
    assert(final(out)@ =~= old(out)@ + ser_key_bool(lit(key), v));
}

pub fn read_key_bool(data: &[u8], pos: usize, key: &str) -> (r: Option<(bool, usize)>)
    requires
        pos <= data.len(),
    ensures
        match r {
            Some((v, next)) => pos <= next <= data.len() && parse_key_bool(
                data@.skip(pos as int),
                lit(key),
            ) == Some((v, data@.skip(next as int))),
            None => parse_key_bool(data@.skip(pos as int), lit(key)) is None,
        },
{
    reveal(parse_key_bool);
    let p: usize = eat_lit(data, pos, key)?;
    parse_bool_exec(data, p)
}

// ---------------------------------------------------------------------------
// Lists of strings
// ---------------------------------------------------------------------------
#[verifier::opaque]
pub open spec fn ser_key_str_list(key: Seq<u8>, v: Seq<Seq<char>>) -> Seq<u8> {
    key + ser_str_list(v)
}

#[verifier::opaque]
pub open spec fn parse_key_str_list(s: Seq<u8>, key: Seq<u8>) -> Option<
    (Seq<Seq<char>>, Seq<u8>),
> {
    match take_lit(s, key) {
        Some(s1) => parse_str_list(s1),
        None => None,
    }
}

pub proof fn lemma_key_str_list(key: Seq<u8>, v: Seq<Seq<char>>, rest: Seq<u8>)
    ensures
        parse_key_str_list(ser_key_str_list(key, v) + rest, key) == Some((v, rest)),
{
    reveal(ser_key_str_list);
    reveal(parse_key_str_list);
    assert(ser_key_str_list(key, v) + rest =~= key + (ser_str_list(v) + rest));
    lemma_take_lit(key, ser_str_list(v) + rest);
    lemma_parse_str_list_roundtrip(v, rest);
}

pub fn put_key_str_list(out: &mut Vec<u8>, key: &str, v: &Vec<String>)
    ensures
        final(out)@ == old(out)@ + ser_key_str_list(lit(key), texts(v@)),
{
    reveal(ser_key_str_list);
    put_lit(out, key);
    put_str_list(out, v);
    assert(final(out)@ =~= old(out)@ + ser_key_str_list(lit(key), texts(v@)));
}

pub fn read_key_str_list(data: &[u8], pos: usize, key: &str) -> (r: Option<(Vec<String>, usize)>)
    requires
        pos <= data.len(),
    ensures
        match r {
            Some((v, next)) => pos < next <= data.len() && parse_key_str_list(
                data@.skip(pos as int),
                lit(key),
            ) == Some((texts(v@), data@.skip(next as int))),
            None => parse_key_str_list(data@.skip(pos as int), lit(key)) is None,
        },
{
    reveal(parse_key_str_list);
    let p: usize = eat_lit(data, pos, key)?;
    parse_str_list_exec(data, p)
}

} // verus!
