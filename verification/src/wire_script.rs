//! Behaviour scripts on the wire.
//!
//! A script is a record of its five members in the order `id`, `duration`,
//! `keyframes`, `next`, `interruptible`. A keyframe is a record of `time` and
//! `action`. An action is a record that starts with `type`, the action's name
//! in lower case, followed by the action's own members.

use crate::fields::{
    lemma_key_bool, lemma_key_int, lemma_key_opt_str, lemma_key_opt_u32, lemma_key_str,
    lemma_key_str_list, parse_key_bool, parse_key_int, parse_key_opt_str, parse_key_opt_u32,
    parse_key_str, parse_key_str_list, put_key_bool, put_key_int, put_key_opt_str,
    put_key_opt_u32, put_key_str, put_key_str_list, read_key_bool, read_key_opt_str,
    read_key_opt_u32, read_key_str, read_key_str_list, read_key_u32, ser_key_bool, ser_key_int,
    ser_key_opt_str, ser_key_opt_u32, ser_key_str, ser_key_str_list, U32_MAX,
};
use crate::json::{
    eat_byte, eat_lit, lemma_skip_skip, lemma_take_lit, lit, next_is, put_lit, take_byte,
    take_lit, text_eq, CLOSE_BRACE, CLOSE_BRACKET, COMMA, OPEN_BRACKET,
};
use crate::script::{
    keyframe_views, Action, ActionView, BehaviorScript, Keyframe, KeyframeView, ScriptView,
};
use crate::text::{lemma_parse_str_roundtrip, parse_str, parse_str_exec, put_str, ser_str};
use vstd::prelude::*;

verus! {

/// Length and first two characters of a name: enough to tell the names of
/// one family apart.
pub open spec fn sig(name: Seq<char>) -> (nat, char, char) {
    (name.len(), name[0], name[1])
}

pub proof fn lemma_take_byte(b: u8, rest: Seq<u8>)
    ensures
        take_byte(seq![b] + rest, b) == Some(rest),
{
    assert((seq![b] + rest).skip(1) =~= rest);
}

// ---------------------------------------------------------------------------
// Actions
// ---------------------------------------------------------------------------
pub open spec fn action_name(a: ActionView) -> Seq<char> {
    match a {
        ActionView::PlayAnimation { .. } => "play_animation"@,
        ActionView::MoveTo { .. } => "move_to"@,
        ActionView::Scale { .. } => "scale"@,
        ActionView::SetExpression { .. } => "set_expression"@,
        ActionView::Wait { .. } => "wait"@,
        ActionView::Random { .. } => "random"@,
    }
}

pub proof fn lemma_action_names()
    ensures
        sig("play_animation"@) == (14nat, 'p', 'l'),
        sig("move_to"@) == (7nat, 'm', 'o'),
        sig("scale"@) == (5nat, 's', 'c'),
        sig("set_expression"@) == (14nat, 's', 'e'),
        sig("wait"@) == (4nat, 'w', 'a'),
        sig("random"@) == (6nat, 'r', 'a'),
{
    reveal_strlit("play_animation");
    reveal_strlit("move_to");
    reveal_strlit("scale");
    reveal_strlit("set_expression");
    reveal_strlit("wait");
    reveal_strlit("random");
}

/// The members of an action after its name.
pub open spec fn ser_action_fields(a: ActionView) -> Seq<u8> {
    match a {
        ActionView::PlayAnimation { name } => ser_key_str(lit("\"name\":"), name),
        ActionView::MoveTo { x, y } => ser_key_int(lit("\"x\":"), x as int) + seq![COMMA]
            + ser_key_int(lit("\"y\":"), y as int),
        ActionView::Scale { factor } => ser_key_int(lit("\"factor\":"), factor as int),
        ActionView::SetExpression { expression } => ser_key_str(
            lit("\"expression\":"),
            expression,
        ),
        ActionView::Wait { duration } => ser_key_int(lit("\"duration\":"), duration as int),
        ActionView::Random { scripts } => ser_key_str_list(lit("\"scripts\":"), scripts),
    }
}

/// An action on the wire.
#[verifier::opaque]
pub open spec fn ser_action(a: ActionView) -> Seq<u8> {
    lit("{\"type\":") + ser_str(action_name(a)) + seq![COMMA] + ser_action_fields(a)
        + seq![CLOSE_BRACE]
}

pub open spec fn parse_action_fields(name: Seq<char>, s: Seq<u8>) -> Option<
    (ActionView, Seq<u8>),
> {
    if name == "play_animation"@ {
        match parse_key_str(s, lit("\"name\":")) {
            Some((n, rest)) => Some((ActionView::PlayAnimation { name: n }, rest)),
            None => None,
        }
    } else if name == "move_to"@ {
        match parse_key_int(s, lit("\"x\":"), 0, U32_MAX as int) {
            Some((x, s1)) => match take_byte(s1, COMMA) {
                Some(s2) => match parse_key_int(s2, lit("\"y\":"), 0, U32_MAX as int) {
                    Some((y, rest)) => Some(
                        (ActionView::MoveTo { x: x as u32, y: y as u32 }, rest),
                    ),
                    None => None,
                },
                None => None,
            },
            None => None,
        }
    } else if name == "scale"@ {
        match parse_key_int(s, lit("\"factor\":"), 0, U32_MAX as int) {
            Some((f, rest)) => Some((ActionView::Scale { factor: f as u32 }, rest)),
            None => None,
        }
    } else if name == "set_expression"@ {
        match parse_key_str(s, lit("\"expression\":")) {
            Some((e, rest)) => Some((ActionView::SetExpression { expression: e }, rest)),
            None => None,
        }
    } else if name == "wait"@ {
        match parse_key_int(s, lit("\"duration\":"), 0, U32_MAX as int) {
            Some((d, rest)) => Some((ActionView::Wait { duration: d as u32 }, rest)),
            None => None,
        }
    } else if name == "random"@ {
        match parse_key_str_list(s, lit("\"scripts\":")) {
            Some((v, rest)) => Some((ActionView::Random { scripts: v }, rest)),
            None => None,
        }
    } else {
        None
    }
}

#[verifier::opaque]
pub open spec fn parse_action(s: Seq<u8>) -> Option<(ActionView, Seq<u8>)> {
    match take_lit(s, lit("{\"type\":")) {
        Some(s1) => match parse_str(s1) {
            Some((name, s2)) => match take_byte(s2, COMMA) {
                Some(s3) => match parse_action_fields(name, s3) {
                    Some((a, s4)) => match take_byte(s4, CLOSE_BRACE) {
                        Some(rest) => Some((a, rest)),
                        None => None,
                    },
                    None => None,
                },
                None => None,
            },
            None => None,
        },
        None => None,
    }
}

pub proof fn lemma_action_fields_roundtrip(a: ActionView, rest: Seq<u8>)
    requires
        rest.len() > 0,
        rest[0] == CLOSE_BRACE,
    ensures
        parse_action_fields(action_name(a), ser_action_fields(a) + rest) == Some((a, rest)),
{
    lemma_action_names();
    match a {
        ActionView::PlayAnimation { name } => {
            lemma_key_str(lit("\"name\":"), name, rest);
        },
        ActionView::MoveTo { x, y } => {
            let t2 = ser_key_int(lit("\"y\":"), y as int) + rest;
            let t1 = seq![COMMA] + t2;
            assert(ser_action_fields(a) + rest =~= ser_key_int(lit("\"x\":"), x as int) + t1);
            lemma_key_int(lit("\"x\":"), x as int, 0, U32_MAX as int, t1);
            lemma_take_byte(COMMA, t2);
            lemma_key_int(lit("\"y\":"), y as int, 0, U32_MAX as int, rest);
        },
        ActionView::Scale { factor } => {
            lemma_key_int(lit("\"factor\":"), factor as int, 0, U32_MAX as int, rest);
        },
        ActionView::SetExpression { expression } => {
            lemma_key_str(lit("\"expression\":"), expression, rest);
        },
        ActionView::Wait { duration } => {
            lemma_key_int(lit("\"duration\":"), duration as int, 0, U32_MAX as int, rest);
        },
        ActionView::Random { scripts } => {
            lemma_key_str_list(lit("\"scripts\":"), scripts, rest);
        },
    }
}

pub proof fn lemma_action_roundtrip(a: ActionView, rest: Seq<u8>)
    ensures
        parse_action(ser_action(a) + rest) == Some((a, rest)),
{
    reveal(ser_action);
    reveal(parse_action);
    let tail = seq![CLOSE_BRACE] + rest;
    let s3 = ser_action_fields(a) + tail;
    let s2 = seq![COMMA] + s3;
    let s1 = ser_str(action_name(a)) + s2;
    assert(ser_action(a) + rest =~= lit("{\"type\":") + s1);
    lemma_take_lit(lit("{\"type\":"), s1);
    lemma_parse_str_roundtrip(action_name(a), s2);
    lemma_take_byte(COMMA, s3);
    lemma_action_fields_roundtrip(a, tail);
    lemma_take_byte(CLOSE_BRACE, rest);
}

fn action_name_exec(a: &Action) -> (r: &'static str)
    ensures
        r@ == action_name(a@),
{
    match a {
        Action::PlayAnimation { .. } => "play_animation",
        Action::MoveTo { .. } => "move_to",
        Action::Scale { .. } => "scale",
        Action::SetExpression { .. } => "set_expression",
        Action::Wait { .. } => "wait",
        Action::Random { .. } => "random",
    }
}

pub fn put_action(out: &mut Vec<u8>, a: &Action)
    ensures
        final(out)@ == old(out)@ + ser_action(a@),
{
    reveal(ser_action);
    put_lit(out, "{\"type\":");
    put_str(out, action_name_exec(a));
    out.push(COMMA);
    let ghost mid = out@;
    match a {
        Action::PlayAnimation { name } => {
            put_key_str(out, "\"name\":", name.as_str());
        },
        Action::MoveTo { x, y } => {
            put_key_int(out, "\"x\":", *x as i64);
            out.push(COMMA);
            put_key_int(out, "\"y\":", *y as i64);
        },
        Action::Scale { factor } => {
            put_key_int(out, "\"factor\":", *factor as i64);
        },
        Action::SetExpression { expression } => {
            put_key_str(out, "\"expression\":", expression.as_str());
        },
        Action::Wait { duration } => {
            put_key_int(out, "\"duration\":", *duration as i64);
        },
        Action::Random { scripts } => {
            put_key_str_list(out, "\"scripts\":", scripts);
        },
    }
    assert(out@ =~= mid + ser_action_fields(a@));
    out.push(CLOSE_BRACE);
    assert(final(out)@ =~= old(out)@ + ser_action(a@));
}

fn read_action_fields(name: &str, data: &[u8], pos: usize) -> (r: Option<(Action, usize)>)
    requires
        pos <= data.len(),
    ensures
        match r {
            Some((a, next)) => pos < next <= data.len() && parse_action_fields(
                name@,
                data@.skip(pos as int),
            ) == Some((a@, data@.skip(next as int))),
            None => parse_action_fields(name@, data@.skip(pos as int)) is None,
        },
{
    if text_eq(name, "play_animation") {
        let (n, next) = read_key_str(data, pos, "\"name\":")?;
        Some((Action::PlayAnimation { name: n }, next))
    } else if text_eq(name, "move_to") {
        let (x, at1) = read_key_u32(data, pos, "\"x\":")?;
        let at2: usize = eat_byte(data, at1, COMMA)?;
        let (y, next) = read_key_u32(data, at2, "\"y\":")?;
        Some((Action::MoveTo { x, y }, next))
    } else if text_eq(name, "scale") {
        let (f, next) = read_key_u32(data, pos, "\"factor\":")?;
        Some((Action::Scale { factor: f }, next))
    } else if text_eq(name, "set_expression") {
        let (e, next) = read_key_str(data, pos, "\"expression\":")?;
        Some((Action::SetExpression { expression: e }, next))
    } else if text_eq(name, "wait") {
        let (d, next) = read_key_u32(data, pos, "\"duration\":")?;
        Some((Action::Wait { duration: d }, next))
    } else if text_eq(name, "random") {
        let (v, next) = read_key_str_list(data, pos, "\"scripts\":")?;
        Some((Action::Random { scripts: v }, next))
    } else {
        None
    }
}

pub fn parse_action_exec(data: &[u8], pos: usize) -> (r: Option<(Action, usize)>)
    requires
        pos <= data.len(),
    ensures
        match r {
            Some((a, next)) => pos < next <= data.len() && parse_action(data@.skip(pos as int))
                == Some((a@, data@.skip(next as int))),
            None => parse_action(data@.skip(pos as int)) is None,
        },
{
    reveal(parse_action);
    let at1: usize = eat_lit(data, pos, "{\"type\":")?;
    let (name, at2) = parse_str_exec(data, at1)?;
    let at3: usize = eat_byte(data, at2, COMMA)?;
    let (a, at4) = read_action_fields(name.as_str(), data, at3)?;
    let next: usize = eat_byte(data, at4, CLOSE_BRACE)?;
    Some((a, next))
}

// ---------------------------------------------------------------------------
// Keyframes
// ---------------------------------------------------------------------------
/// A keyframe on the wire.
#[verifier::opaque]
pub open spec fn ser_keyframe(k: KeyframeView) -> Seq<u8> {
    ser_key_int(lit("{\"time\":"), k.time as int) + seq![COMMA] + lit("\"action\":") + ser_action(
        k.action,
    ) + seq![CLOSE_BRACE]
}

#[verifier::opaque]
pub open spec fn parse_keyframe(s: Seq<u8>) -> Option<(KeyframeView, Seq<u8>)> {
    match parse_key_int(s, lit("{\"time\":"), 0, U32_MAX as int) {
        Some((t, s1)) => match take_byte(s1, COMMA) {
            Some(s2) => match take_lit(s2, lit("\"action\":")) {
                Some(s3) => match parse_action(s3) {
                    Some((a, s4)) => match take_byte(s4, CLOSE_BRACE) {
                        Some(rest) => Some((KeyframeView { time: t as u32, action: a }, rest)),
                        None => None,
                    },
                    None => None,
                },
                None => None,
            },
            None => None,
        },
        None => None,
    }
}

pub proof fn lemma_keyframe_roundtrip(k: KeyframeView, rest: Seq<u8>)
    ensures
        parse_keyframe(ser_keyframe(k) + rest) == Some((k, rest)),
        ser_keyframe(k).len() > 0,
{
    reveal(ser_keyframe);
    reveal(parse_keyframe);
    let s4 = seq![CLOSE_BRACE] + rest;
    let s3 = ser_action(k.action) + s4;
    let s2 = lit("\"action\":") + s3;
    let s1 = seq![COMMA] + s2;
    assert(ser_keyframe(k) + rest =~= ser_key_int(lit("{\"time\":"), k.time as int) + s1);
    lemma_key_int(lit("{\"time\":"), k.time as int, 0, U32_MAX as int, s1);
    lemma_take_byte(COMMA, s2);
    lemma_take_lit(lit("\"action\":"), s3);
    lemma_action_roundtrip(k.action, s4);
    lemma_take_byte(CLOSE_BRACE, rest);
}

pub fn put_keyframe(out: &mut Vec<u8>, k: &Keyframe)
    ensures
        final(out)@ == old(out)@ + ser_keyframe(k@),
{
    reveal(ser_keyframe);
    put_key_int(out, "{\"time\":", k.time as i64);
    out.push(COMMA);
    put_lit(out, "\"action\":");
    put_action(out, &k.action);
    out.push(CLOSE_BRACE);
    assert(final(out)@ =~= old(out)@ + ser_keyframe(k@));
}

pub fn parse_keyframe_exec(data: &[u8], pos: usize) -> (r: Option<(Keyframe, usize)>)
    requires
        pos <= data.len(),
    ensures
        match r {
            Some((k, next)) => pos < next <= data.len() && parse_keyframe(data@.skip(pos as int))
                == Some((k@, data@.skip(next as int))),
            None => parse_keyframe(data@.skip(pos as int)) is None,
        },
{
    reveal(parse_keyframe);
    let (time, at1) = read_key_u32(data, pos, "{\"time\":")?;
    let at2: usize = eat_byte(data, at1, COMMA)?;
    let at3: usize = eat_lit(data, at2, "\"action\":")?;
    let (action, at4) = parse_action_exec(data, at3)?;
    let next: usize = eat_byte(data, at4, CLOSE_BRACE)?;
    Some((Keyframe { time, action }, next))
}

// ---------------------------------------------------------------------------
// Lists of keyframes
// ---------------------------------------------------------------------------
/// The keyframes of a list after its first, each behind a comma.
pub open spec fn ser_keyframe_tail(v: Seq<KeyframeView>) -> Seq<u8>
    decreases v.len(),
{
    if v.len() == 0 {
        Seq::empty()
    } else {
        seq![COMMA] + ser_keyframe(v[0]) + ser_keyframe_tail(v.skip(1))
    }
}

/// A list of keyframes on the wire: between square brackets, with commas
/// between the keyframes.
#[verifier::opaque]
pub open spec fn ser_keyframe_list(v: Seq<KeyframeView>) -> Seq<u8> {
    if v.len() == 0 {
        seq![OPEN_BRACKET, CLOSE_BRACKET]
    } else {
        seq![OPEN_BRACKET] + ser_keyframe(v[0]) + ser_keyframe_tail(v.skip(1))
            + seq![CLOSE_BRACKET]
    }
}

pub open spec fn parse_keyframe_tail(s: Seq<u8>) -> Option<(Seq<KeyframeView>, Seq<u8>)>
    decreases s.len(),
{
    if s.len() == 0 {
        None
    } else if s[0] == CLOSE_BRACKET {
        Some((Seq::empty(), s.skip(1)))
    } else if s[0] == COMMA {
        match parse_keyframe(s.skip(1)) {
            None => None,
            Some((x, rest)) => if rest.len() < s.len() {
                match parse_keyframe_tail(rest) {
                    None => None,
                    Some((xs, rest2)) => Some((seq![x] + xs, rest2)),
                }
            } else {
                None
            },
        }
    } else {
        None
    }
}

#[verifier::opaque]
pub open spec fn parse_keyframe_list(s: Seq<u8>) -> Option<(Seq<KeyframeView>, Seq<u8>)> {
    if s.len() == 0 || s[0] != OPEN_BRACKET {
        None
    } else if s.len() > 1 && s[1] == CLOSE_BRACKET {
        Some((Seq::empty(), s.skip(2)))
    } else {
        match parse_keyframe(s.skip(1)) {
            None => None,
            Some((x, rest)) => match parse_keyframe_tail(rest) {
                None => None,
                Some((xs, rest2)) => Some((seq![x] + xs, rest2)),
            },
        }
    }
}

/// The first byte of a written keyframe is the opening brace.
pub proof fn lemma_ser_keyframe_first(k: KeyframeView)
    ensures
        ser_keyframe(k).len() > 0,
        ser_keyframe(k)[0] != CLOSE_BRACKET,
{
    reveal(ser_keyframe);
    reveal(parse_keyframe);
    reveal(ser_key_int);
    reveal(parse_key_int);
    // A list that starts with a keyframe is read as one: were the first byte
    // a closing bracket, the keyframe could not be read back.
    let s = ser_keyframe(k) + Seq::<u8>::empty();
    lemma_keyframe_roundtrip(k, Seq::empty());
    assert(s =~= ser_keyframe(k));
    if ser_keyframe(k)[0] == CLOSE_BRACKET {
        let key = lit("{\"time\":");
        lemma_brace_first();
        assert(key.is_prefix_of(s));
        assert(s.subrange(0, key.len() as int)[0] == key[0]);
    }
}

/// The key that opens a keyframe starts with the opening brace.
pub proof fn lemma_brace_first()
    ensures
        lit("{\"time\":").len() == 8,
        lit("{\"time\":")[0] == 0x7b,
{
    reveal_strlit("{\"time\":");
    assert(vstd::utf8::is_ascii_chars("{\"time\":"@));
    vstd::utf8::is_ascii_chars_encode_utf8("{\"time\":"@);
}

pub proof fn lemma_ser_keyframe_tail_push(v: Seq<KeyframeView>, x: KeyframeView)
    ensures
        ser_keyframe_tail(v.push(x)) == ser_keyframe_tail(v) + seq![COMMA] + ser_keyframe(x),
    decreases v.len(),
{
    if v.len() == 0 {
        assert(v.push(x).skip(1) =~= Seq::<KeyframeView>::empty());
        assert(ser_keyframe_tail(v.push(x).skip(1)) =~= Seq::<u8>::empty());
        assert(v.push(x)[0] == x);
        assert(ser_keyframe_tail(v.push(x)) =~= seq![COMMA] + ser_keyframe(x));
        assert(ser_keyframe_tail(v) + seq![COMMA] + ser_keyframe(x) =~= seq![COMMA]
            + ser_keyframe(x));
    } else {
        assert(v.push(x).skip(1) =~= v.skip(1).push(x));
        lemma_ser_keyframe_tail_push(v.skip(1), x);
        assert(ser_keyframe_tail(v.push(x)) =~= ser_keyframe_tail(v) + seq![COMMA]
            + ser_keyframe(x));
    }
}

pub proof fn lemma_parse_keyframe_tail_roundtrip(v: Seq<KeyframeView>, rest: Seq<u8>)
    ensures
        parse_keyframe_tail(ser_keyframe_tail(v) + seq![CLOSE_BRACKET] + rest) == Some((v, rest)),
    decreases v.len(),
{
    let s = ser_keyframe_tail(v) + seq![CLOSE_BRACKET] + rest;
    if v.len() == 0 {
        assert(s[0] == CLOSE_BRACKET);
        assert(s.skip(1) =~= rest);
    } else {
        let after = ser_keyframe_tail(v.skip(1)) + seq![CLOSE_BRACKET] + rest;
        assert(s[0] == COMMA);
        assert(s.skip(1) =~= ser_keyframe(v[0]) + after);
        lemma_keyframe_roundtrip(v[0], after);
        assert(after.len() < s.len());
        lemma_parse_keyframe_tail_roundtrip(v.skip(1), rest);
        assert(seq![v[0]] + v.skip(1) =~= v);
    }
}

pub proof fn lemma_parse_keyframe_list_roundtrip(v: Seq<KeyframeView>, rest: Seq<u8>)
    ensures
        parse_keyframe_list(ser_keyframe_list(v) + rest) == Some((v, rest)),
{
    reveal(ser_keyframe_list);
    reveal(parse_keyframe_list);
    let s = ser_keyframe_list(v) + rest;
    assert(s[0] == OPEN_BRACKET);
    if v.len() == 0 {
        assert(s[1] == CLOSE_BRACKET);
        assert(s.skip(2) =~= rest);
    } else {
        let after = ser_keyframe_tail(v.skip(1)) + seq![CLOSE_BRACKET] + rest;
        lemma_ser_keyframe_first(v[0]);
        assert(s[1] == ser_keyframe(v[0])[0]);
        assert(s.skip(1) =~= ser_keyframe(v[0]) + after);
        lemma_keyframe_roundtrip(v[0], after);
        lemma_parse_keyframe_tail_roundtrip(v.skip(1), rest);
        assert(seq![v[0]] + v.skip(1) =~= v);
    }
}

pub fn put_keyframe_list(out: &mut Vec<u8>, v: &Vec<Keyframe>)
    ensures
        final(out)@ == old(out)@ + ser_keyframe_list(keyframe_views(v@)),
{
    reveal(ser_keyframe_list);
    let ghost t = keyframe_views(v@);
    out.push(OPEN_BRACKET);
    if v.len() == 0 {
        out.push(CLOSE_BRACKET);
        assert(final(out)@ =~= old(out)@ + ser_keyframe_list(t));
        return ;
    }
    put_keyframe(out, &v[0]);
    let mut i: usize = 1;
    assert(t.skip(1).take(0) =~= Seq::<KeyframeView>::empty());
    assert(out@ =~= old(out)@ + seq![OPEN_BRACKET] + ser_keyframe(t[0]) + ser_keyframe_tail(
        t.skip(1).take(0),
    ));
    while i < v.len()
        invariant
            1 <= i <= v.len(),
            t == keyframe_views(v@),
            out@ == old(out)@ + seq![OPEN_BRACKET] + ser_keyframe(t[0]) + ser_keyframe_tail(
                t.skip(1).take(i - 1),
            ),
        decreases v.len() - i,
    {
        proof {
            lemma_ser_keyframe_tail_push(t.skip(1).take(i - 1), t[i as int]);
            assert(t.skip(1).take(i - 1).push(t[i as int]) =~= t.skip(1).take(i as int));
        }
        out.push(COMMA);
        put_keyframe(out, &v[i]);
        assert(out@ =~= old(out)@ + seq![OPEN_BRACKET] + ser_keyframe(t[0]) + ser_keyframe_tail(
            t.skip(1).take(i as int),
        ));
        i += 1;
    }
    out.push(CLOSE_BRACKET);
    proof {
        assert(t.skip(1).take(i - 1) =~= t.skip(1));
        assert(final(out)@ =~= old(out)@ + ser_keyframe_list(t));
    }
}

/// What `parse_keyframe_tail` gives once `acc` has been read before it.
pub open spec fn keyframe_tail_after(
    acc: Seq<KeyframeView>,
    r: Option<(Seq<KeyframeView>, Seq<u8>)>,
) -> Option<(Seq<KeyframeView>, Seq<u8>)> {
    match r {
        Some((xs, rest)) => Some((acc + xs, rest)),
        None => None,
    }
}

pub fn parse_keyframe_list_exec(data: &[u8], pos: usize) -> (r: Option<(Vec<Keyframe>, usize)>)
    requires
        pos <= data.len(),
    ensures
        match r {
            Some((v, next)) => pos < next <= data.len() && parse_keyframe_list(
                data@.skip(pos as int),
            ) == Some((keyframe_views(v@), data@.skip(next as int))),
            None => parse_keyframe_list(data@.skip(pos as int)) is None,
        },
{
    reveal(parse_keyframe_list);
    let ghost s = data@.skip(pos as int);
    if !next_is(data, pos, OPEN_BRACKET) {
        return None;
    }
    proof {
        lemma_skip_skip(data@, pos as int, 1);
    }
    let mut acc: Vec<Keyframe> = Vec::new();
    if next_is(data, pos + 1, CLOSE_BRACKET) {
        proof {
            lemma_skip_skip(data@, pos as int, 2);
        }
        assert(s[1] == data@.skip(pos + 1)[0]);
        assert(keyframe_views(acc@) =~= Seq::<KeyframeView>::empty());
        return Some((acc, pos + 2));
    }
    assert(s.len() > 1 ==> s[1] == data@.skip(pos + 1)[0]);
    let mut i: usize = match parse_keyframe_exec(data, pos + 1) {
        None => {
            return None;
        },
        Some((x, next)) => {
            acc.push(x);
            next
        },
    };
    assert(keyframe_views(acc@) =~= seq![acc@[0]@]);
    loop
        invariant
            pos < i <= data.len(),
            s == data@.skip(pos as int),
            acc@.len() > 0,
            parse_keyframe_list(s) == keyframe_tail_after(
                keyframe_views(acc@),
                parse_keyframe_tail(data@.skip(i as int)),
            ),
        decreases data.len() - i,
    {
        let ghost cur = data@.skip(i as int);
        if i >= data.len() {
            return None;
        }
        assert(cur[0] == data@[i as int]);
        if data[i] == CLOSE_BRACKET {
            proof {
                lemma_skip_skip(data@, i as int, 1);
                assert(keyframe_views(acc@) + Seq::<KeyframeView>::empty() =~= keyframe_views(
                    acc@,
                ));
            }
            return Some((acc, i + 1));
        }
        if data[i] != COMMA {
            return None;
        }
        proof {
            lemma_skip_skip(data@, i as int, 1);
        }
        match parse_keyframe_exec(data, i + 1) {
            None => {
                return None;
            },
            Some((x, next)) => {
                proof {
                    let ghost after = parse_keyframe_tail(data@.skip(next as int));
                    assert(data@.skip(next as int).len() < cur.len());
                    assert(keyframe_tail_after(keyframe_views(acc@), parse_keyframe_tail(cur))
                        == keyframe_tail_after(keyframe_views(acc@.push(x)), after)) by {
                        assert(keyframe_views(acc@.push(x)) =~= keyframe_views(acc@).push(x@));
                        match after {
                            Some((xs, rest)) => {
                                assert(keyframe_views(acc@) + (seq![x@] + xs) =~= keyframe_views(
                                    acc@,
                                ).push(x@) + xs);
                            },
                            None => {},
                        }
                    }
                }
                acc.push(x);
                i = next;
            },
        }
    }
}

// ---------------------------------------------------------------------------
// Scripts
// ---------------------------------------------------------------------------
/// The start of a script on the wire, up to the key of the keyframes.
#[verifier::opaque]
pub open spec fn ser_script_head(id: Seq<char>, duration: Option<u32>) -> Seq<u8> {
    ser_key_str(lit("{\"id\":"), id) + seq![COMMA] + ser_key_opt_u32(
        lit("\"duration\":"),
        duration,
    ) + seq![COMMA] + lit("\"keyframes\":")
}

/// The end of a script on the wire, after the keyframes.
#[verifier::opaque]
pub open spec fn ser_script_end(next: Option<Seq<char>>, interruptible: bool) -> Seq<u8> {
    seq![COMMA] + ser_key_opt_str(lit("\"next\":"), next) + seq![COMMA] + ser_key_bool(
        lit("\"interruptible\":"),
        interruptible,
    ) + seq![CLOSE_BRACE]
}

/// A script on the wire.
#[verifier::opaque]
pub open spec fn ser_script(sc: ScriptView) -> Seq<u8> {
    ser_script_head(sc.id, sc.duration) + ser_keyframe_list(sc.keyframes) + ser_script_end(
        sc.next,
        sc.interruptible,
    )
}

#[verifier::opaque]
pub open spec fn parse_script_head(s: Seq<u8>) -> Option<(Seq<char>, Option<u32>, Seq<u8>)> {
    match parse_key_str(s, lit("{\"id\":")) {
        Some((id, s1)) => match take_byte(s1, COMMA) {
            Some(s2) => match parse_key_opt_u32(s2, lit("\"duration\":")) {
                Some((duration, s3)) => match take_byte(s3, COMMA) {
                    Some(s4) => match take_lit(s4, lit("\"keyframes\":")) {
                        Some(rest) => Some((id, duration, rest)),
                        None => None,
                    },
                    None => None,
                },
                None => None,
            },
            None => None,
        },
        None => None,
    }
}

#[verifier::opaque]
pub open spec fn parse_script_end(s: Seq<u8>) -> Option<(Option<Seq<char>>, bool, Seq<u8>)> {
    match take_byte(s, COMMA) {
        Some(s1) => match parse_key_opt_str(s1, lit("\"next\":")) {
            Some((next, s2)) => match take_byte(s2, COMMA) {
                Some(s3) => match parse_key_bool(s3, lit("\"interruptible\":")) {
                    Some((interruptible, s4)) => match take_byte(s4, CLOSE_BRACE) {
                        Some(rest) => Some((next, interruptible, rest)),
                        None => None,
                    },
                    None => None,
                },
                None => None,
            },
            None => None,
        },
        None => None,
    }
}

#[verifier::opaque]
pub open spec fn parse_script(s: Seq<u8>) -> Option<(ScriptView, Seq<u8>)> {
    match parse_script_head(s) {
        Some((id, duration, s1)) => match parse_keyframe_list(s1) {
            Some((keyframes, s2)) => match parse_script_end(s2) {
                Some((next, interruptible, rest)) => Some(
                    (ScriptView { id, duration, keyframes, next, interruptible }, rest),
                ),
                None => None,
            },
            None => None,
        },
        None => None,
    }
}

pub proof fn lemma_script_head_roundtrip(id: Seq<char>, duration: Option<u32>, rest: Seq<u8>)
    ensures
        parse_script_head(ser_script_head(id, duration) + rest) == Some((id, duration, rest)),
{
    reveal(ser_script_head);
    reveal(parse_script_head);
    let s4 = lit("\"keyframes\":") + rest;
    let s3 = seq![COMMA] + s4;
    let s2 = ser_key_opt_u32(lit("\"duration\":"), duration) + s3;
    let s1 = seq![COMMA] + s2;
    assert(ser_script_head(id, duration) + rest =~= ser_key_str(lit("{\"id\":"), id) + s1);
    lemma_key_str(lit("{\"id\":"), id, s1);
    lemma_take_byte(COMMA, s2);
    lemma_key_opt_u32(lit("\"duration\":"), duration, s3);
    lemma_take_byte(COMMA, s4);
    lemma_take_lit(lit("\"keyframes\":"), rest);
}

pub proof fn lemma_script_end_roundtrip(next: Option<Seq<char>>, interruptible: bool, rest: Seq<u8>)
    ensures
        parse_script_end(ser_script_end(next, interruptible) + rest) == Some(
            (next, interruptible, rest),
        ),
{
    reveal(ser_script_end);
    reveal(parse_script_end);
    let s4 = seq![CLOSE_BRACE] + rest;
    let s3 = ser_key_bool(lit("\"interruptible\":"), interruptible) + s4;
    let s2 = seq![COMMA] + s3;
    let s1 = ser_key_opt_str(lit("\"next\":"), next) + s2;
    assert(ser_script_end(next, interruptible) + rest =~= seq![COMMA] + s1);
    lemma_take_byte(COMMA, s1);
    lemma_key_opt_str(lit("\"next\":"), next, s2);
    lemma_take_byte(COMMA, s3);
    lemma_key_bool(lit("\"interruptible\":"), interruptible, s4);
    lemma_take_byte(CLOSE_BRACE, rest);
}

pub proof fn lemma_script_roundtrip(sc: ScriptView, rest: Seq<u8>)
    ensures
        parse_script(ser_script(sc) + rest) == Some((sc, rest)),
{
    reveal(ser_script);
    reveal(parse_script);
    let s2 = ser_script_end(sc.next, sc.interruptible) + rest;
    let s1 = ser_keyframe_list(sc.keyframes) + s2;
    assert(ser_script(sc) + rest =~= ser_script_head(sc.id, sc.duration) + s1);
    lemma_script_head_roundtrip(sc.id, sc.duration, s1);
    lemma_parse_keyframe_list_roundtrip(sc.keyframes, s2);
    lemma_script_end_roundtrip(sc.next, sc.interruptible, rest);
}

fn put_script_head(out: &mut Vec<u8>, sc: &BehaviorScript)
    ensures
        final(out)@ == old(out)@ + ser_script_head(sc@.id, sc@.duration),
{
    reveal(ser_script_head);
    put_key_str(out, "{\"id\":", sc.id.as_str());
    out.push(COMMA);
    put_key_opt_u32(out, "\"duration\":", sc.duration);
    out.push(COMMA);
    put_lit(out, "\"keyframes\":");
    assert(final(out)@ =~= old(out)@ + ser_script_head(sc@.id, sc@.duration));
}

fn put_script_end(out: &mut Vec<u8>, sc: &BehaviorScript)
    ensures
        final(out)@ == old(out)@ + ser_script_end(sc@.next, sc@.interruptible),
{
    reveal(ser_script_end);
    out.push(COMMA);
    put_key_opt_str(out, "\"next\":", &sc.next);
    out.push(COMMA);
    put_key_bool(out, "\"interruptible\":", sc.interruptible);
    out.push(CLOSE_BRACE);
    assert(final(out)@ =~= old(out)@ + ser_script_end(sc@.next, sc@.interruptible));
}

pub fn put_script(out: &mut Vec<u8>, sc: &BehaviorScript)
    ensures
        final(out)@ == old(out)@ + ser_script(sc@),
{
    reveal(ser_script);
    put_script_head(out, sc);
    put_keyframe_list(out, &sc.keyframes);
    put_script_end(out, sc);
    assert(final(out)@ =~= old(out)@ + ser_script(sc@));
}

fn read_script_head(data: &[u8], pos: usize) -> (r: Option<(String, Option<u32>, usize)>)
    requires
        pos <= data.len(),
    ensures
        match r {
            Some((id, duration, next)) => pos < next <= data.len() && parse_script_head(
                data@.skip(pos as int),
            ) == Some((id@, duration, data@.skip(next as int))),
            None => parse_script_head(data@.skip(pos as int)) is None,
        },
{
    reveal(parse_script_head);
    let (id, at1) = read_key_str(data, pos, "{\"id\":")?;
    let at2: usize = eat_byte(data, at1, COMMA)?;
    let (duration, at3) = read_key_opt_u32(data, at2, "\"duration\":")?;
    let at4: usize = eat_byte(data, at3, COMMA)?;
    let next: usize = eat_lit(data, at4, "\"keyframes\":")?;
    Some((id, duration, next))
}

fn read_script_end(data: &[u8], pos: usize) -> (r: Option<(Option<String>, bool, usize)>)
    requires
        pos <= data.len(),
    ensures
        match r {
            Some((next_script, interruptible, next)) => pos < next <= data.len()
                && parse_script_end(data@.skip(pos as int)) == Some(
                (crate::script::opt_text(next_script), interruptible, data@.skip(next as int)),
            ),
            None => parse_script_end(data@.skip(pos as int)) is None,
        },
{
    reveal(parse_script_end);
    let at1: usize = eat_byte(data, pos, COMMA)?;
    let (next_script, at2) = read_key_opt_str(data, at1, "\"next\":")?;
    let at3: usize = eat_byte(data, at2, COMMA)?;
    let (interruptible, at4) = read_key_bool(data, at3, "\"interruptible\":")?;
    let next: usize = eat_byte(data, at4, CLOSE_BRACE)?;
    Some((next_script, interruptible, next))
}

pub fn parse_script_exec(data: &[u8], pos: usize) -> (r: Option<(BehaviorScript, usize)>)
    requires
        pos <= data.len(),
    ensures
        match r {
            Some((sc, next)) => pos < next <= data.len() && parse_script(data@.skip(pos as int))
                == Some((sc@, data@.skip(next as int))),
            None => parse_script(data@.skip(pos as int)) is None,
        },
{
    reveal(parse_script);
    let (id, duration, at1) = read_script_head(data, pos)?;
    let (keyframes, at2) = parse_keyframe_list_exec(data, at1)?;
    let (next_script, interruptible, next) = read_script_end(data, at2)?;
    Some((BehaviorScript { id, duration, keyframes, next: next_script, interruptible }, next))
}

} // verus!
