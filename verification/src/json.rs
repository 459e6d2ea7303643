//! The JSON value model for the wire protocol.
//!
//! Numbers are carried as their literal text: the protocol only ever moves
//! them between peers, and the text form makes encoding lossless for every
//! value a peer may send (including non-integral ones, which this crate does
//! not compute with).

use vstd::prelude::*;
use vstd::string::StrSliceExecFns;
use vstd::string::StringExecFns;

verus! {

/// A JSON value as the executable code holds it.
///
/// Object members keep their order; a lookup takes the first binding of a
/// key. The `Num` arm holds the literal text of the number; the codec's
/// well-formedness predicate constrains it to the JSON number grammar.
#[derive(Debug, PartialEq, Eq)]
pub enum JsonValue {
    Null,
    Bool(bool),
    Num(String),
    Str(String),
    Arr(Vec<JsonValue>),
    Obj(Vec<(String, JsonValue)>),
}

/// The mathematical shape of a JSON value: the same tree over sequences.
pub enum JsonV {
    Null,
    Bool(bool),
    Num(Seq<char>),
    Str(Seq<char>),
    Arr(Seq<JsonV>),
    Obj(Seq<(Seq<char>, JsonV)>),
}

/// The view of an executable JSON value.
pub open spec fn jv(v: JsonValue) -> JsonV
    decreases v,
{
    match v {
        JsonValue::Null => JsonV::Null,
        JsonValue::Bool(b) => JsonV::Bool(b),
        JsonValue::Num(t) => JsonV::Num(t@),
        JsonValue::Str(s) => JsonV::Str(s@),
        JsonValue::Arr(items) => JsonV::Arr(jv_seq(items@)),
        JsonValue::Obj(members) => JsonV::Obj(jv_members(members@)),
    }
}

/// Element-wise view of a sequence of JSON values.
pub open spec fn jv_seq(s: Seq<JsonValue>) -> Seq<JsonV>
    decreases s,
{
    if s.len() == 0 {
        Seq::empty()
    } else {
        seq![jv(s[0])] + jv_seq(s.drop_first())
    }
}

/// Element-wise view of a sequence of object members.
pub open spec fn jv_members(s: Seq<(String, JsonValue)>) -> Seq<(Seq<char>, JsonV)>
    decreases s,
{
    if s.len() == 0 {
        Seq::empty()
    } else {
        seq![(s[0].0@, jv(s[0].1))] + jv_members(s.drop_first())
    }
}

impl View for JsonValue {
    type V = JsonV;

    open spec fn view(&self) -> JsonV {
        jv(*self)
    }
}

// ---------------------------------------------------------------------------
// Encoding: a canonical, whitespace-free text form.
// ---------------------------------------------------------------------------

/// The lower-case hexadecimal digit for a value in 0..16.
pub open spec fn hex_char(n: int) -> char {
    if n == 0 { '0' } else if n == 1 { '1' } else if n == 2 { '2' } else if n == 3 { '3' }
    else if n == 4 { '4' } else if n == 5 { '5' } else if n == 6 { '6' } else if n == 7 { '7' }
    else if n == 8 { '8' } else if n == 9 { '9' } else if n == 10 { 'a' } else if n == 11 { 'b' }
    else if n == 12 { 'c' } else if n == 13 { 'd' } else if n == 14 { 'e' } else { 'f' }
}

/// How one character of a string is written inside double quotes.
///
/// The quote, the backslash and every control character are escaped, so the
/// encoded text never contains a raw control character — in particular no
/// newline, which is what keeps one message on one line of the wire.
pub open spec fn esc_char(c: char) -> Seq<char> {
    if c == '"' { seq!['\\', '"'] }
    else if c == '\\' { seq!['\\', '\\'] }
    else if c == '\n' { seq!['\\', 'n'] }
    else if c == '\r' { seq!['\\', 'r'] }
    else if c == '\t' { seq!['\\', 't'] }
    else if (c as u32) < 0x20 {
        seq!['\\', 'u', '0', '0', hex_char(c as u32 as int / 16), hex_char(c as u32 as int % 16)]
    } else {
        seq![c]
    }
}

/// The escaped form of a whole string, without the surrounding quotes.
pub open spec fn esc_str(s: Seq<char>) -> Seq<char>
    decreases s,
{
    if s.len() == 0 {
        Seq::empty()
    } else {
        esc_char(s[0]) + esc_str(s.drop_first())
    }
}

/// The canonical text of a JSON value.
pub open spec fn enc(v: JsonV) -> Seq<char>
    decreases v,
{
    match v {
        JsonV::Null => seq!['n', 'u', 'l', 'l'],
        JsonV::Bool(b) => if b { seq!['t', 'r', 'u', 'e'] } else { seq!['f', 'a', 'l', 's', 'e'] },
        JsonV::Num(t) => t,
        JsonV::Str(s) => seq!['"'] + esc_str(s) + seq!['"'],
        JsonV::Arr(items) => seq!['['] + enc_items(items) + seq![']'],
        JsonV::Obj(members) => seq!['{'] + enc_members(members) + seq!['}'],
    }
}

/// The comma-separated texts of the elements of an array.
pub open spec fn enc_items(s: Seq<JsonV>) -> Seq<char>
    decreases s,
{
    if s.len() == 0 {
        Seq::empty()
    } else if s.len() == 1 {
        enc(s[0])
    } else {
        enc(s[0]) + seq![','] + enc_items(s.drop_first())
    }
}

/// The comma-separated texts of the members of an object.
pub open spec fn enc_members(s: Seq<(Seq<char>, JsonV)>) -> Seq<char>
    decreases s,
{
    if s.len() == 0 {
        Seq::empty()
    } else if s.len() == 1 {
        enc_member(s[0])
    } else {
        enc_member(s[0]) + seq![','] + enc_members(s.drop_first())
    }
}

/// One `"key":value` member.
pub open spec fn enc_member(m: (Seq<char>, JsonV)) -> Seq<char>
    decreases m,
{
    seq!['"'] + esc_str(m.0) + seq!['"', ':'] + enc(m.1)
}

// ---------------------------------------------------------------------------
// Facts about the element-wise views and the encoding.
// ---------------------------------------------------------------------------

pub proof fn lemma_jv_seq(s: Seq<JsonValue>)
    ensures
        jv_seq(s).len() == s.len(),
        forall|i: int| 0 <= i < s.len() ==> jv_seq(s)[i] == jv(s[i]),
    decreases s,
{
    if s.len() > 0 {
        lemma_jv_seq(s.drop_first());
    }
}

pub proof fn lemma_jv_members(s: Seq<(String, JsonValue)>)
    ensures
        jv_members(s).len() == s.len(),
        forall|i: int|
            0 <= i < s.len() ==> jv_members(s)[i] == (s[i].0@, jv(s[i].1)),
    decreases s,
{
    if s.len() > 0 {
        lemma_jv_members(s.drop_first());
    }
}

pub proof fn lemma_esc_str_snoc(s: Seq<char>, c: char)
    ensures
        esc_str(s.push(c)) == esc_str(s) + esc_char(c),
    decreases s,
{
    if s.len() == 0 {
        assert(s.push(c).drop_first() =~= s);
        assert(esc_str(s.push(c)) =~= esc_str(s) + esc_char(c));
    } else {
        lemma_esc_str_snoc(s.drop_first(), c);
        assert(s.push(c).drop_first() =~= s.drop_first().push(c));
        assert(esc_str(s.push(c)) =~= esc_str(s) + esc_char(c));
    }
}

pub proof fn lemma_enc_items_snoc(s: Seq<JsonV>, x: JsonV)
    ensures
        enc_items(s.push(x)) == if s.len() == 0 {
            enc(x)
        } else {
            (enc_items(s) + seq![','] + enc(x))
        },
    decreases s,
{
    if s.len() == 0 {
        assert(s.push(x)[0] == x);
        assert(enc_items(s.push(x)) =~= enc(x));
    } else if s.len() == 1 {
        assert(s.push(x).drop_first() =~= s.drop_first().push(x));
        assert(s.push(x).drop_first() =~= seq![x]);
        assert(enc_items(seq![x]) == enc(x));
        assert(enc_items(s.push(x)) =~= enc_items(s) + seq![','] + enc(x));
    } else {
        lemma_enc_items_snoc(s.drop_first(), x);
        assert(s.push(x).drop_first() =~= s.drop_first().push(x));
        assert(enc_items(s.push(x)) =~= enc_items(s) + seq![','] + enc(x));
    }
}

pub proof fn lemma_enc_members_snoc(s: Seq<(Seq<char>, JsonV)>, x: (Seq<char>, JsonV))
    ensures
        enc_members(s.push(x)) == if s.len() == 0 {
            enc_member(x)
        } else {
            (enc_members(s) + seq![','] + enc_member(x))
        },
    decreases s,
{
    if s.len() == 0 {
        assert(s.push(x)[0] == x);
        assert(enc_members(s.push(x)) =~= enc_member(x));
    } else if s.len() == 1 {
        assert(s.push(x).drop_first() =~= s.drop_first().push(x));
        assert(s.push(x).drop_first() =~= seq![x]);
        assert(enc_members(seq![x]) == enc_member(x));
        assert(enc_members(s.push(x)) =~= enc_members(s) + seq![','] + enc_member(x));
    } else {
        lemma_enc_members_snoc(s.drop_first(), x);
        assert(s.push(x).drop_first() =~= s.drop_first().push(x));
        assert(enc_members(s.push(x)) =~= enc_members(s) + seq![','] + enc_member(x));
    }
}

// ---------------------------------------------------------------------------
// The executable encoder.
// ---------------------------------------------------------------------------

fn hex_digit(n: u32) -> (r: char)
    requires
        n < 16,
    ensures
        r == hex_char(n as int),
{
    if n == 0 { '0' } else if n == 1 { '1' } else if n == 2 { '2' } else if n == 3 { '3' }
    else if n == 4 { '4' } else if n == 5 { '5' } else if n == 6 { '6' } else if n == 7 { '7' }
    else if n == 8 { '8' } else if n == 9 { '9' } else if n == 10 { 'a' } else if n == 11 { 'b' }
    else if n == 12 { 'c' } else if n == 13 { 'd' } else if n == 14 { 'e' } else { 'f' }
}

/// Writes the escaped form of `s` (no surrounding quotes) onto `out`.
fn write_escaped(s: &str, out: &mut String)
    ensures
        final(out)@ == old(out)@ + esc_str(s@),
{
    let n: usize = s.unicode_len();
    let mut i: usize = 0;
    proof {
        assert(out@ =~= old(out)@ + esc_str(s@.take(0)));
    }
    while i < n
        invariant
            i <= n,
            n == s@.len(),
            out@ == old(out)@ + esc_str(s@.take(i as int)),
        decreases n - i,
    {
        let c: char = s.get_char(i);
        if c == '"' {
            crate::util::push_char(out, '\\');
            crate::util::push_char(out, '"');
        } else if c == '\\' {
            crate::util::push_char(out, '\\');
            crate::util::push_char(out, '\\');
        } else if c == '\n' {
            crate::util::push_char(out, '\\');
            crate::util::push_char(out, 'n');
        } else if c == '\r' {
            crate::util::push_char(out, '\\');
            crate::util::push_char(out, 'r');
        } else if c == '\t' {
            crate::util::push_char(out, '\\');
            crate::util::push_char(out, 't');
        } else if (c as u32) < 0x20 {
            let code: u32 = c as u32;
            crate::util::push_char(out, '\\');
            crate::util::push_char(out, 'u');
            crate::util::push_char(out, '0');
            crate::util::push_char(out, '0');
            crate::util::push_char(out, hex_digit(code / 16));
            crate::util::push_char(out, hex_digit(code % 16));
        } else {
            crate::util::push_char(out, c);
        }
        proof {
            lemma_esc_str_snoc(s@.take(i as int), s@[i as int]);
            assert(s@.take(i + 1) =~= s@.take(i as int).push(s@[i as int]));
            assert(out@ =~= old(out)@ + esc_str(s@.take(i + 1)));
        }
        i = i + 1;
    }
    proof {
        assert(s@.take(n as int) =~= s@);
    }
}

/// Appends the canonical text of `v` onto `out`.
pub fn write_json(v: &JsonValue, out: &mut String)
    ensures
        final(out)@ == old(out)@ + enc(jv(*v)),
    decreases *v,
{
    match v {
        JsonValue::Null => {
            out.append("null");
            proof {
                reveal_strlit("null");
                assert(out@ =~= old(out)@ + enc(jv(*v)));
            }
        },
        JsonValue::Bool(b) => {
            if *b {
                out.append("true");
                proof {
                    reveal_strlit("true");
                    assert(out@ =~= old(out)@ + enc(jv(*v)));
                }
            } else {
                out.append("false");
                proof {
                    reveal_strlit("false");
                    assert(out@ =~= old(out)@ + enc(jv(*v)));
                }
            }
        },
        JsonValue::Num(t) => {
            out.append(t.as_str());
        },
        JsonValue::Str(s) => {
            crate::util::push_char(out, '"');
            write_escaped(s.as_str(), out);
            crate::util::push_char(out, '"');
            proof {
                assert(out@ =~= old(out)@ + enc(jv(*v)));
            }
        },
        JsonValue::Arr(items) => {
            crate::util::push_char(out, '[');
            let ghost base: Seq<char> = out@;
            let ghost ivs: Seq<JsonV> = jv_seq(items@);
            proof {
                lemma_jv_seq(items@);
            }
            let n: usize = items.len();
            let mut i: usize = 0;
            while i < n
                invariant
                    i <= n,
                    n == items@.len(),
                    *v == JsonValue::Arr(*items),
                    ivs == jv_seq(items@),
                    ivs.len() == n,
                    forall|j: int| 0 <= j < n ==> ivs[j] == jv(items@[j]),
                    out@ == base + enc_items(ivs.take(i as int)),
                decreases n - i,
            {
                if i > 0 {
                    crate::util::push_char(out, ',');
                }
                proof {
                    assert(decreases_to!(*v => v->Arr_0));
                    assert(v->Arr_0 == *items);
                    assert(decreases_to!(*items => items@));
                    assert(decreases_to!(items@ => items@[i as int]));
                }
                write_json(&items[i], out);
                proof {
                    lemma_enc_items_snoc(ivs.take(i as int), ivs[i as int]);
                    assert(ivs.take(i + 1) =~= ivs.take(i as int).push(ivs[i as int]));
                    assert(out@ =~= base + enc_items(ivs.take(i + 1)));
                }
                i = i + 1;
            }
            crate::util::push_char(out, ']');
            proof {
                assert(ivs.take(n as int) =~= ivs);
                assert(out@ =~= old(out)@ + enc(jv(*v)));
            }
        },
        JsonValue::Obj(members) => {
            crate::util::push_char(out, '{');
            let ghost base: Seq<char> = out@;
            let ghost mvs: Seq<(Seq<char>, JsonV)> = jv_members(members@);
            proof {
                lemma_jv_members(members@);
            }
            let n: usize = members.len();
            let mut i: usize = 0;
            while i < n
                invariant
                    i <= n,
                    n == members@.len(),
                    *v == JsonValue::Obj(*members),
                    mvs == jv_members(members@),
                    mvs.len() == n,
                    forall|j: int| 0 <= j < n ==> mvs[j] == (members@[j].0@, jv(members@[j].1)),
                    out@ == base + enc_members(mvs.take(i as int)),
                decreases n - i,
            {
                if i > 0 {
                    crate::util::push_char(out, ',');
                }
                crate::util::push_char(out, '"');
                write_escaped(members[i].0.as_str(), out);
                crate::util::push_char(out, '"');
                crate::util::push_char(out, ':');
                proof {
                    assert(decreases_to!(*v => v->Obj_0));
                    assert(v->Obj_0 == *members);
                    assert(decreases_to!(*members => members@));
                    assert(decreases_to!(members@ => members@[i as int]));
                    assert(decreases_to!(members@[i as int] => members@[i as int].1));
                }
                write_json(&members[i].1, out);
                proof {
                    lemma_enc_members_snoc(mvs.take(i as int), mvs[i as int]);
                    assert(mvs.take(i + 1) =~= mvs.take(i as int).push(mvs[i as int]));
                    assert(out@ =~= base + enc_members(mvs.take(i + 1)));
                }
                i = i + 1;
            }
            crate::util::push_char(out, '}');
            proof {
                assert(mvs.take(n as int) =~= mvs);
                assert(out@ =~= old(out)@ + enc(jv(*v)));
            }
        },
    }
}

/// The canonical text of `v` as a fresh string.
pub fn json_to_text(v: &JsonValue) -> (r: String)
    ensures
        r@ == enc(jv(*v)),
{
    let mut out: String = String::new();
    write_json(v, &mut out);
    out
}

// ---------------------------------------------------------------------------
// Reading and copying values.
// ---------------------------------------------------------------------------

/// The first binding of `key` among object members.
pub open spec fn lookup_v(ms: Seq<(Seq<char>, JsonV)>, key: Seq<char>) -> Option<JsonV>
    decreases ms,
{
    if ms.len() == 0 {
        None
    } else if ms[0].0 == key {
        Some(ms[0].1)
    } else {
        lookup_v(ms.drop_first(), key)
    }
}

/// Finds the first member named `key`.
pub fn lookup<'a>(members: &'a Vec<(String, JsonValue)>, key: &str) -> (r: Option<
    &'a JsonValue,
>)
    ensures
        (match r {
            Some(v) => lookup_v(jv_members(members@), key@) == Some(jv(*v)),
            None => lookup_v(jv_members(members@), key@) is None,
        }),
{
    let ghost mv = jv_members(members@);
    proof {
        lemma_jv_members(members@);
        assert(mv.skip(0) =~= mv);
    }
    let n: usize = members.len();
    let mut i: usize = 0;
    while i < n
        invariant
            i <= n,
            n == members@.len(),
            mv == jv_members(members@),
            mv.len() == n,
            forall|j: int| 0 <= j < n ==> mv[j] == (members@[j].0@, jv(members@[j].1)),
            lookup_v(mv, key@) == lookup_v(mv.skip(i as int), key@),
        decreases n - i,
    {
        proof {
            assert(mv.skip(i as int)[0] == mv[i as int]);
            assert(mv.skip(i as int).drop_first() =~= mv.skip(i + 1));
        }
        if crate::util::str_eq(members[i].0.as_str(), key) {
            return Some(&members[i].1);
        }
        i = i + 1;
    }
    proof {
        assert(mv.skip(n as int) =~= Seq::<(Seq<char>, JsonV)>::empty());
    }
    None
}

/// A deep copy; the copy has the same view.
pub fn clone_json(v: &JsonValue) -> (r: JsonValue)
    ensures
        jv(r) == jv(*v),
    decreases *v,
{
    match v {
        JsonValue::Null => JsonValue::Null,
        JsonValue::Bool(b) => JsonValue::Bool(*b),
        JsonValue::Num(t) => JsonValue::Num(t.clone()),
        JsonValue::Str(s) => JsonValue::Str(s.clone()),
        JsonValue::Arr(items) => {
            let n: usize = items.len();
            let mut out: Vec<JsonValue> = Vec::new();
            let mut i: usize = 0;
            while i < n
                invariant
                    i <= n,
                    n == items@.len(),
                    *v == JsonValue::Arr(*items),
                    out@.len() == i,
                    forall|j: int| 0 <= j < i ==> jv(#[trigger] out@[j]) == jv(items@[j]),
                decreases n - i,
            {
                proof {
                    assert(decreases_to!(*v => v->Arr_0));
                    assert(v->Arr_0 == *items);
                    assert(decreases_to!(*items => items@));
                    assert(decreases_to!(items@ => items@[i as int]));
                }
                let c = clone_json(&items[i]);
                out.push(c);
                i = i + 1;
            }
            proof {
                lemma_jv_seq(out@);
                lemma_jv_seq(items@);
                assert(jv_seq(out@) =~= jv_seq(items@));
            }
            JsonValue::Arr(out)
        },
        JsonValue::Obj(members) => {
            let n: usize = members.len();
            let mut out: Vec<(String, JsonValue)> = Vec::new();
            let mut i: usize = 0;
            while i < n
                invariant
                    i <= n,
                    n == members@.len(),
                    *v == JsonValue::Obj(*members),
                    out@.len() == i,
                    forall|j: int|
                        0 <= j < i ==> (#[trigger] out@[j]).0@ == members@[j].0@ && jv(
                            out@[j].1,
                        ) == jv(members@[j].1),
                decreases n - i,
            {
                proof {
                    assert(decreases_to!(*v => v->Obj_0));
                    assert(v->Obj_0 == *members);
                    assert(decreases_to!(*members => members@));
                    assert(decreases_to!(members@ => members@[i as int]));
                    assert(decreases_to!(members@[i as int] => members@[i as int].1));
                }
                let key = members[i].0.clone();
                let c = clone_json(&members[i].1);
                out.push((key, c));
                i = i + 1;
            }
            proof {
                lemma_jv_members(out@);
                lemma_jv_members(members@);
                assert(jv_members(out@) =~= jv_members(members@));
            }
            JsonValue::Obj(out)
        },
    }
}

} // verus!
