//! Round trip of the wire codec: parsing the canonical text of any
//! well-formed JSON value gives that value back, exactly.

use vstd::prelude::*;
use crate::json::{JsonV, enc, enc_items, enc_members, enc_member, esc_str, esc_char, hex_char};
use crate::decode::{
    sp_val, sp_items, sp_members, sp_string, sp_doc, skip_ws, num_end, num_dfa, dfa_run,
    dfa_accepting, is_num_lit, is_num_char, is_ws, is_digit, hex_val,
};

verus! {

// ---------------------------------------------------------------------------
// Well-formedness: what the encoder is exact for.
// ---------------------------------------------------------------------------

/// A value whose number literals all satisfy the number grammar.
pub open spec fn wf_json(v: JsonV) -> bool
    decreases v,
{
    match v {
        JsonV::Null => true,
        JsonV::Bool(_) => true,
        JsonV::Num(t) => is_num_lit(t),
        JsonV::Str(_) => true,
        JsonV::Arr(items) => wf_items(items),
        JsonV::Obj(members) => wf_members(members),
    }
}

pub open spec fn wf_items(s: Seq<JsonV>) -> bool
    decreases s,
{
    s.len() == 0 || (wf_json(s[0]) && wf_items(s.drop_first()))
}

pub open spec fn wf_members(s: Seq<(Seq<char>, JsonV)>) -> bool
    decreases s,
{
    s.len() == 0 || (wf_json(s[0].1) && wf_members(s.drop_first()))
}

// ---------------------------------------------------------------------------
// The recursion budget a value needs from the spec parser.
// ---------------------------------------------------------------------------

pub open spec fn fuel_of(v: JsonV) -> nat
    decreases v,
{
    match v {
        JsonV::Arr(items) => 1 + fuel_items(items),
        JsonV::Obj(members) => 1 + fuel_members(members),
        _ => 1,
    }
}

pub open spec fn fuel_items(s: Seq<JsonV>) -> nat
    decreases s,
{
    if s.len() == 0 {
        1
    } else {
        1 + fuel_of(s[0]) + fuel_items(s.drop_first())
    }
}

pub open spec fn fuel_members(s: Seq<(Seq<char>, JsonV)>) -> nat
    decreases s,
{
    if s.len() == 0 {
        1
    } else {
        1 + fuel_of(s[0].1) + fuel_members(s.drop_first())
    }
}

// ---------------------------------------------------------------------------
// Number literal facts.
// ---------------------------------------------------------------------------

proof fn lemma_dfa_dead(t: Seq<char>)
    ensures
        dfa_run(-1, t) == -1,
    decreases t,
{
    if t.len() > 0 {
        lemma_dfa_dead(t.drop_first());
    }
}

proof fn lemma_run_chars(state: int, t: Seq<char>)
    requires
        dfa_run(state, t) != -1,
    ensures
        forall|m: int| 0 <= m < t.len() ==> is_num_char(#[trigger] t[m]),
    decreases t,
{
    if t.len() > 0 {
        if num_dfa(state, t[0]) == -1 {
            lemma_dfa_dead(t.drop_first());
            assert(false);
        }
        lemma_run_chars(num_dfa(state, t[0]), t.drop_first());
        assert forall|m: int| 0 <= m < t.len() implies is_num_char(#[trigger] t[m]) by {
            if m > 0 {
                assert(t.drop_first()[m - 1] == t[m]);
                assert(is_num_char(t.drop_first()[m - 1]));
            }
        }
    }
}

/// A valid literal is non-empty, starts with a sign or digit, and consists
/// of number characters only.
pub proof fn lemma_lit_shape(t: Seq<char>)
    requires
        is_num_lit(t),
    ensures
        t.len() >= 1,
        t[0] == '-' || is_digit(t[0]),
        forall|m: int| 0 <= m < t.len() ==> is_num_char(#[trigger] t[m]),
{
    lemma_run_chars(0, t);
    if !(t[0] == '-' || is_digit(t[0])) {
        lemma_dfa_dead(t.drop_first());
    }
}

/// Scanning from the start of a run of number characters that is bounded on
/// the right stops exactly at the bound.
proof fn lemma_num_end_region(s: Seq<char>, i: int, j: int)
    requires
        0 <= i <= j <= s.len(),
        forall|m: int| i <= m < j ==> is_num_char(#[trigger] s[m]),
        j == s.len() || !is_num_char(s[j]),
    ensures
        num_end(s, i) == j,
    decreases j - i,
{
    if i < j {
        lemma_num_end_region(s, i + 1, j);
    }
}

// ---------------------------------------------------------------------------
// First-character facts about the encoding.
// ---------------------------------------------------------------------------

/// The canonical text is non-empty and begins with the character that
/// selects the right branch of the parser: never whitespace, never a
/// separator or a closing bracket.
pub proof fn lemma_enc_first(v: JsonV)
    requires
        wf_json(v),
    ensures
        enc(v).len() >= 1,
        (match v {
            JsonV::Null => enc(v)[0] == 'n',
            JsonV::Bool(b) => enc(v)[0] == (if b { 't' } else { 'f' }),
            JsonV::Num(t) => enc(v)[0] == '-' || is_digit(enc(v)[0]),
            JsonV::Str(_) => enc(v)[0] == '"',
            JsonV::Arr(_) => enc(v)[0] == '[',
            JsonV::Obj(_) => enc(v)[0] == '{',
        }),
        !is_ws(enc(v)[0]),
        enc(v)[0] != ',' && enc(v)[0] != ']' && enc(v)[0] != '}' && enc(v)[0] != ':',
{
    match v {
        JsonV::Num(t) => {
            lemma_lit_shape(t);
        },
        _ => {},
    }
}

// ---------------------------------------------------------------------------
// Round trip of string bodies.
// ---------------------------------------------------------------------------

proof fn lemma_rt_string(s: Seq<char>, i: int, t: Seq<char>)
    requires
        0 <= i,
        i + esc_str(t).len() + 1 <= s.len(),
        s.subrange(i, i + esc_str(t).len() + 1) == esc_str(t) + seq!['"'],
    ensures
        sp_string(s, i) == Some((t, i + esc_str(t).len() + 1)),
    decreases t,
{
    let l = esc_str(t).len() as int;
    let region = esc_str(t) + seq!['"'];
    assert forall|m: int| 0 <= m < l + 1 implies #[trigger] s[i + m] == region[m] by {
        assert(s.subrange(i, i + l + 1)[m] == s[i + m]);
    }
    if t.len() == 0 {
        assert(s[i + 0] == region[0]);
        assert(s[i] == '"');
    } else {
        let c = t[0];
        let rest = t.drop_first();
        let ec = esc_char(c);
        let ecl = ec.len() as int;
        assert(esc_str(t) == ec + esc_str(rest));
        assert forall|m: int| 0 <= m < ecl implies s[i + m] == ec[m] by {
            assert(region[m] == esc_str(t)[m]);
            assert(esc_str(t)[m] == ec[m]);
        }
        assert(s.subrange(i + ecl, i + l + 1) =~= esc_str(rest) + seq!['"']) by {
            assert forall|m: int| 0 <= m < l + 1 - ecl implies s.subrange(i + ecl, i + l + 1)[m]
                == (esc_str(rest) + seq!['"'])[m] by {
                assert(s.subrange(i + ecl, i + l + 1)[m] == s[i + ecl + m]);
                assert(s[i + ecl + m] == region[ecl + m]);
                if ecl + m < l {
                    assert(region[ecl + m] == esc_str(t)[ecl + m]);
                    assert(esc_str(t)[ecl + m] == esc_str(rest)[m]);
                }
            }
        }
        lemma_rt_string(s, i + ecl, rest);
        assert(seq![c] + rest =~= t);
        if c == '"' || c == '\\' || c == '\n' || c == '\r' || c == '\t' {
            assert(s[i + 0] == ec[0]);
            assert(s[i] == '\\');
            assert(ecl == 2);
        } else if (c as u32) < 0x20 {
            assert(s[i + 0] == ec[0]);
            assert(s[i] == '\\');
            assert(s[i + 1] == 'u');
            assert(s[i + 2] == '0');
            assert(s[i + 3] == '0');
            assert(ecl == 6);
            let h = c as u32 as int / 16;
            let lo = c as u32 as int % 16;
            assert(s[i + 4] == hex_char(h));
            assert(s[i + 5] == hex_char(lo));
            assert(hex_val(hex_char(h)) == h);
            assert(hex_val(hex_char(lo)) == lo);
            let code = 16 * hex_val(s[i + 4]) + hex_val(s[i + 5]);
            assert(code == c as u32 as int);
            assert((code as u8) as char == c) by {
                vstd::utf8::char_u32_cast(c, c as u32);
                assert((code as u8) as u32 == c as u32);
            }
        } else {
            assert(s[i + 0] == ec[0]);
            assert(s[i] == c);
            assert(ecl == 1);
        }
    }
}

// ---------------------------------------------------------------------------
// Round trip of whole values.
// ---------------------------------------------------------------------------

/// Parsing at the start of the canonical text of a well-formed value,
/// embedded anywhere in a larger text, yields exactly that value and stops
/// exactly at its end. The last premise keeps a trailing digit of the
/// surrounding text from being absorbed into a number literal.
pub proof fn lemma_rt_val(s: Seq<char>, i: int, v: JsonV, fuel: nat)
    requires
        wf_json(v),
        0 <= i,
        i + enc(v).len() <= s.len(),
        s.subrange(i, i + enc(v).len()) == enc(v),
        fuel >= fuel_of(v),
        i + enc(v).len() == s.len() || !is_num_char(s[i + enc(v).len()]),
    ensures
        sp_val(s, i, fuel) == Some((v, i + enc(v).len())),
    decreases v,
{
    let l = enc(v).len() as int;
    assert forall|m: int| 0 <= m < l implies #[trigger] s[i + m] == enc(v)[m] by {
        assert(s.subrange(i, i + l)[m] == s[i + m]);
    }
    lemma_enc_first(v);
    assert(s[i + 0] == enc(v)[0]);
    assert(skip_ws(s, i) == i);
    match v {
        JsonV::Null => {
            assert(s[i + 1] == 'u' && s[i + 2] == 'l' && s[i + 3] == 'l');
            assert(sp_val(s, i, fuel) =~= Some((v, i + enc(v).len())));
        },
        JsonV::Bool(b) => {
            if b {
                assert(s[i + 1] == 'r' && s[i + 2] == 'u' && s[i + 3] == 'e');
            } else {
                assert(s[i + 1] == 'a' && s[i + 2] == 'l' && s[i + 3] == 's' && s[i + 4] == 'e');
            }
            assert(sp_val(s, i, fuel) =~= Some((v, i + enc(v).len())));
        },
        JsonV::Str(content) => {
            let el = esc_str(content).len() as int;
            assert(s.subrange(i + 1, i + 1 + el + 1) =~= esc_str(content) + seq!['"']) by {
                assert forall|m: int| 0 <= m < el + 1 implies s.subrange(i + 1, i + 1 + el + 1)[m]
                    == (esc_str(content) + seq!['"'])[m] by {
                    assert(s.subrange(i + 1, i + 1 + el + 1)[m] == s[i + 1 + m]);
                    assert(s[i + (1 + m)] == enc(v)[1 + m]);
                }
            }
            lemma_rt_string(s, i + 1, content);
            assert(sp_val(s, i, fuel) =~= Some((v, i + enc(v).len())));
        },
        JsonV::Num(t) => {
            lemma_lit_shape(t);
            assert forall|m: int| i <= m < i + l implies is_num_char(#[trigger] s[m]) by {
                assert(s[i + (m - i)] == enc(v)[m - i]);
            }
            lemma_num_end_region(s, i, i + l);
            assert(s.subrange(i, i + l) == t);
            assert(sp_val(s, i, fuel) =~= Some((v, i + enc(v).len())));
        },
        JsonV::Arr(items) => {
            let il = enc_items(items).len() as int;
            if items.len() == 0 {
                assert(s[i + 1] == enc(v)[1]);
                assert(enc(v)[1] == ']');
                assert(skip_ws(s, i + 1) == i + 1);
                assert(items =~= Seq::<JsonV>::empty());
            } else {
                assert(wf_json(items[0]));
                lemma_enc_first(items[0]);
                assert(enc_items(items)[0] == enc(items[0])[0]);
                assert(s[i + 1] == enc(v)[1]);
                assert(enc(v)[1] == enc_items(items)[0]);
                assert(!is_ws(s[i + 1]));
                assert(skip_ws(s, i + 1) == i + 1);
                assert(s[i + 1] != ']');
                assert(s.subrange(i + 1, i + 1 + il + 1) =~= enc_items(items) + seq![']']) by {
                    assert forall|m: int| 0 <= m < il + 1 implies s.subrange(
                        i + 1,
                        i + 1 + il + 1,
                    )[m] == (enc_items(items) + seq![']'])[m] by {
                        assert(s.subrange(i + 1, i + 1 + il + 1)[m] == s[i + 1 + m]);
                        assert(s[i + (1 + m)] == enc(v)[1 + m]);
                    }
                }
                lemma_rt_items(s, i + 1, items, fuel);
            }
            assert(sp_val(s, i, fuel) =~= Some((v, i + enc(v).len())));
        },
        JsonV::Obj(members) => {
            let ml = enc_members(members).len() as int;
            if members.len() == 0 {
                assert(s[i + 1] == enc(v)[1]);
                assert(enc(v)[1] == '}');
                assert(skip_ws(s, i + 1) == i + 1);
                assert(members =~= Seq::<(Seq<char>, JsonV)>::empty());
            } else {
                assert(enc_members(members)[0] == enc_member(members[0])[0]);
                assert(enc_member(members[0])[0] == '"');
                assert(s[i + 1] == enc(v)[1]);
                assert(s[i + 1] == '"');
                assert(skip_ws(s, i + 1) == i + 1);
                assert(s[i + 1] != '}');
                assert(s.subrange(i + 1, i + 1 + ml + 1) =~= enc_members(members) + seq!['}'])
                    by {
                    assert forall|m: int| 0 <= m < ml + 1 implies s.subrange(
                        i + 1,
                        i + 1 + ml + 1,
                    )[m] == (enc_members(members) + seq!['}'])[m] by {
                        assert(s.subrange(i + 1, i + 1 + ml + 1)[m] == s[i + 1 + m]);
                        assert(s[i + (1 + m)] == enc(v)[1 + m]);
                    }
                }
                lemma_rt_members(s, i + 1, members, fuel);
            }
            assert(sp_val(s, i, fuel) =~= Some((v, i + enc(v).len())));
        },
    }
}

/// Round trip of a non-empty element list followed by `]`.
pub proof fn lemma_rt_items(s: Seq<char>, i: int, items: Seq<JsonV>, fuel: nat)
    requires
        items.len() >= 1,
        wf_items(items),
        0 <= i,
        i + enc_items(items).len() + 1 <= s.len(),
        s.subrange(i, i + enc_items(items).len() + 1) == enc_items(items) + seq![']'],
        fuel >= fuel_items(items),
    ensures
        sp_items(s, i, fuel) == Some((items, i + enc_items(items).len() + 1)),
    decreases items,
{
    let l = enc_items(items).len() as int;
    let region = enc_items(items) + seq![']'];
    assert forall|m: int| 0 <= m < l + 1 implies #[trigger] s[i + m] == region[m] by {
        assert(s.subrange(i, i + l + 1)[m] == s[i + m]);
    }
    let v0 = items[0];
    assert(wf_json(v0));
    let l0 = enc(v0).len() as int;
    assert forall|m: int| 0 <= m < l0 implies s.subrange(i, i + l0)[m] == enc(v0)[m] by {
        assert(s.subrange(i, i + l0)[m] == s[i + m]);
        if items.len() == 1 {
            assert(region[m] == enc_items(items)[m]);
        } else {
            assert(region[m] == enc_items(items)[m]);
            assert(enc_items(items)[m] == (enc(v0) + seq![','] + enc_items(items.drop_first()))[m]);
        }
    }
    assert(s.subrange(i, i + l0) =~= enc(v0));
    if items.len() == 1 {
        assert(s[i + l0] == region[l0]);
        assert(region[l0] == ']');
        lemma_rt_val(s, i, v0, (fuel - 1) as nat);
        assert(skip_ws(s, i + l0) == i + l0);
        assert(seq![v0] =~= items);
    } else {
        let rest = items.drop_first();
        let rl = enc_items(rest).len() as int;
        assert(enc_items(items) == enc(v0) + seq![','] + enc_items(rest));
        assert(s[i + l0] == region[l0]);
        assert(region[l0] == ',');
        lemma_rt_val(s, i, v0, (fuel - 1) as nat);
        assert(skip_ws(s, i + l0) == i + l0);
        assert(s.subrange(i + l0 + 1, i + l0 + 1 + rl + 1) =~= enc_items(rest) + seq![']']) by {
            assert forall|m: int| 0 <= m < rl + 1 implies s.subrange(
                i + l0 + 1,
                i + l0 + 1 + rl + 1,
            )[m] == (enc_items(rest) + seq![']'])[m] by {
                assert(s.subrange(i + l0 + 1, i + l0 + 1 + rl + 1)[m] == s[i + (l0 + 1 + m)]);
                assert(s[i + (l0 + 1 + m)] == region[l0 + 1 + m]);
                if l0 + 1 + m < l {
                    assert(region[l0 + 1 + m] == enc_items(items)[l0 + 1 + m]);
                    assert(enc_items(items)[l0 + 1 + m] == (enc(v0) + seq![','] + enc_items(
                        rest,
                    ))[l0 + 1 + m]);
                }
            }
        }
        lemma_rt_items(s, i + l0 + 1, rest, (fuel - 1) as nat);
        assert(seq![v0] + rest =~= items);
    }
}

/// Round trip of a non-empty member list followed by `}`.
pub proof fn lemma_rt_members(s: Seq<char>, i: int, members: Seq<(Seq<char>, JsonV)>, fuel: nat)
    requires
        members.len() >= 1,
        wf_members(members),
        0 <= i,
        i + enc_members(members).len() + 1 <= s.len(),
        s.subrange(i, i + enc_members(members).len() + 1) == enc_members(members) + seq!['}'],
        fuel >= fuel_members(members),
    ensures
        sp_members(s, i, fuel) == Some((members, i + enc_members(members).len() + 1)),
    decreases members,
{
    let l = enc_members(members).len() as int;
    let region = enc_members(members) + seq!['}'];
    assert forall|m: int| 0 <= m < l + 1 implies #[trigger] s[i + m] == region[m] by {
        assert(s.subrange(i, i + l + 1)[m] == s[i + m]);
    }
    let m0 = members[0];
    let key = m0.0;
    let v0 = m0.1;
    assert(wf_json(v0));
    let el = esc_str(key).len() as int;
    let ml0 = enc_member(m0).len() as int;
    assert(enc_member(m0) == seq!['"'] + esc_str(key) + seq!['"', ':'] + enc(v0));
    let l0 = enc(v0).len() as int;
    assert(ml0 == el + 3 + l0);
    assert forall|m: int| 0 <= m < ml0 implies #[trigger] s[i + m] == enc_member(m0)[m] by {
        assert(s[i + m] == region[m]);
        if members.len() == 1 {
            assert(region[m] == enc_members(members)[m]);
        } else {
            assert(region[m] == enc_members(members)[m]);
            assert(enc_members(members)[m] == (enc_member(m0) + seq![','] + enc_members(
                members.drop_first(),
            ))[m]);
        }
    }
    // The key string.
    assert(s[i + 0] == enc_member(m0)[0]);
    assert(enc_member(m0)[0] == '"');
    assert(skip_ws(s, i) == i);
    assert(s.subrange(i + 1, i + 1 + el + 1) =~= esc_str(key) + seq!['"']) by {
        assert forall|m: int| 0 <= m < el + 1 implies s.subrange(i + 1, i + 1 + el + 1)[m] == (
        esc_str(key) + seq!['"'])[m] by {
            assert(s.subrange(i + 1, i + 1 + el + 1)[m] == s[i + (1 + m)]);
            assert(s[i + (1 + m)] == enc_member(m0)[1 + m]);
        }
    }
    lemma_rt_string(s, i + 1, key);
    let j0 = i + 1 + el + 1;
    assert(s[i + (el + 2)] == enc_member(m0)[el + 2]);
    assert(s[j0] == ':');
    assert(skip_ws(s, j0) == j0);
    // The value.
    let vi = j0 + 1;
    assert forall|m: int| 0 <= m < l0 implies s.subrange(vi, vi + l0)[m] == enc(v0)[m] by {
        assert(s.subrange(vi, vi + l0)[m] == s[i + (el + 3 + m)]);
        assert(s[i + (el + 3 + m)] == enc_member(m0)[el + 3 + m]);
    }
    assert(s.subrange(vi, vi + l0) =~= enc(v0));
    assert(s[i + ml0] == region[ml0]);
    if members.len() == 1 {
        assert(s[i + ml0] == '}');
        lemma_rt_val(s, vi, v0, (fuel - 1) as nat);
        assert(skip_ws(s, i + ml0) == i + ml0);
        assert(seq![(key, v0)] =~= members);
        assert((key, v0) == m0);
    } else {
        let rest = members.drop_first();
        let rl = enc_members(rest).len() as int;
        assert(enc_members(members) == enc_member(m0) + seq![','] + enc_members(rest));
        assert(s[i + ml0] == ',');
        lemma_rt_val(s, vi, v0, (fuel - 1) as nat);
        assert(skip_ws(s, i + ml0) == i + ml0);
        assert(s.subrange(i + ml0 + 1, i + ml0 + 1 + rl + 1) =~= enc_members(rest) + seq!['}'])
            by {
            assert forall|m: int| 0 <= m < rl + 1 implies s.subrange(
                i + ml0 + 1,
                i + ml0 + 1 + rl + 1,
            )[m] == (enc_members(rest) + seq!['}'])[m] by {
                assert(s.subrange(i + ml0 + 1, i + ml0 + 1 + rl + 1)[m] == s[i + (ml0 + 1 + m)]);
                assert(s[i + (ml0 + 1 + m)] == region[ml0 + 1 + m]);
                if ml0 + 1 + m < l {
                    assert(region[ml0 + 1 + m] == enc_members(members)[ml0 + 1 + m]);
                    assert(enc_members(members)[ml0 + 1 + m] == (enc_member(m0) + seq![',']
                        + enc_members(rest))[ml0 + 1 + m]);
                }
            }
        }
        lemma_rt_members(s, i + ml0 + 1, rest, (fuel - 1) as nat);
        assert(seq![(key, v0)] + rest =~= members);
        assert((key, v0) == m0);
    }
}

// ---------------------------------------------------------------------------
// The parser only produces well-formed values.
// ---------------------------------------------------------------------------

proof fn lemma_sp_val_wf(s: Seq<char>, i: int, fuel: nat)
    ensures
        sp_val(s, i, fuel) matches Some(r) ==> wf_json(r.0),
    decreases fuel, 1int,
{
    let k = skip_ws(s, i);
    if 0 <= k < s.len() {
        let c = s[k];
        if c == '[' {
            lemma_sp_items_wf(s, k + 1, fuel);
            assert(wf_items(Seq::<JsonV>::empty()));
        } else if c == '{' {
            lemma_sp_members_wf(s, k + 1, fuel);
            assert(wf_members(Seq::<(Seq<char>, JsonV)>::empty()));
        }
    }
}

proof fn lemma_sp_items_wf(s: Seq<char>, i: int, fuel: nat)
    ensures
        sp_items(s, i, fuel) matches Some(r) ==> wf_items(r.0),
    decreases fuel, 0int,
{
    if fuel > 0 {
        lemma_sp_val_wf(s, i, (fuel - 1) as nat);
        match sp_val(s, i, (fuel - 1) as nat) {
            None => {},
            Some((v, j)) => {
                let k = skip_ws(s, j);
                if 0 <= k < s.len() && s[k] == ',' {
                    lemma_sp_items_wf(s, k + 1, (fuel - 1) as nat);
                    match sp_items(s, k + 1, (fuel - 1) as nat) {
                        None => {},
                        Some((rest, _m)) => {
                            assert((seq![v] + rest).drop_first() =~= rest);
                            assert((seq![v] + rest)[0] == v);
                            assert(wf_items(seq![v] + rest));
                        },
                    }
                } else if 0 <= k < s.len() && s[k] == ']' {
                    assert(seq![v].drop_first() =~= Seq::<JsonV>::empty());
                    assert(wf_items(Seq::<JsonV>::empty()));
                    assert(wf_items(seq![v]));
                }
            },
        }
    }
}

proof fn lemma_sp_members_wf(s: Seq<char>, i: int, fuel: nat)
    ensures
        sp_members(s, i, fuel) matches Some(r) ==> wf_members(r.0),
    decreases fuel, 0int,
{
    if fuel > 0 {
        let k0 = skip_ws(s, i);
        if 0 <= k0 < s.len() && s[k0] == '"' {
            match sp_string(s, k0 + 1) {
                None => {},
                Some((key, j0)) => {
                    let k1 = skip_ws(s, j0);
                    if 0 <= k1 < s.len() && s[k1] == ':' {
                        lemma_sp_val_wf(s, k1 + 1, (fuel - 1) as nat);
                        match sp_val(s, k1 + 1, (fuel - 1) as nat) {
                            None => {},
                            Some((v, j)) => {
                                let k = skip_ws(s, j);
                                if 0 <= k < s.len() && s[k] == ',' {
                                    lemma_sp_members_wf(s, k + 1, (fuel - 1) as nat);
                                    match sp_members(s, k + 1, (fuel - 1) as nat) {
                                        None => {},
                                        Some((rest, _m)) => {
                                            assert((seq![(key, v)] + rest).drop_first()
                                                =~= rest);
                                            assert((seq![(key, v)] + rest)[0] == (key, v));
                                            assert(wf_members(seq![(key, v)] + rest));
                                        },
                                    }
                                } else if 0 <= k < s.len() && s[k] == '}' {
                                    assert(seq![(key, v)].drop_first() =~= Seq::<
                                        (Seq<char>, JsonV),
                                    >::empty());
                                    assert(wf_members(
                                        Seq::<(Seq<char>, JsonV)>::empty(),
                                    ));
                                    assert(wf_members(seq![(key, v)]));
                                }
                            },
                        }
                    }
                },
            }
        }
    }
}

/// Everything the parser accepts is well-formed: its number literals
/// satisfy the grammar, so a parsed value re-encodes to text that parses
/// back to it (by [`lemma_codec_round_trip`]).
pub proof fn lemma_parsed_wf(t: Seq<char>)
    ensures
        sp_doc(t) matches Some(v) ==> wf_json(v),
{
    lemma_sp_val_wf(t, 0, (2 * t.len() + 2) as nat);
}

// ---------------------------------------------------------------------------
// The canonical text has no control characters: one message, one line.
// ---------------------------------------------------------------------------

pub open spec fn printable(t: Seq<char>) -> bool {
    forall|m: int| 0 <= m < t.len() ==> (#[trigger] t[m] as u32) >= 0x20
}

proof fn lemma_esc_printable(t: Seq<char>)
    ensures
        printable(esc_str(t)),
    decreases t,
{
    if t.len() > 0 {
        let c = t[0];
        let ec = esc_char(c);
        lemma_esc_printable(t.drop_first());
        assert(printable(ec)) by {
            assert forall|m: int| 0 <= m < ec.len() implies (#[trigger] ec[m] as u32) >= 0x20
                by {
                if c != '"' && c != '\\' && c != '\n' && c != '\r' && c != '\t' && (c as u32)
                    < 0x20 {
                    assert(ec[0] == '\\' && ec[1] == 'u' && ec[2] == '0' && ec[3] == '0');
                }
            }
        }
        assert forall|m: int| 0 <= m < esc_str(t).len() implies (
        #[trigger] esc_str(t)[m] as u32) >= 0x20 by {
            assert(esc_str(t) == ec + esc_str(t.drop_first()));
            if m < ec.len() {
                assert(esc_str(t)[m] == ec[m]);
            } else {
                assert(esc_str(t)[m] == esc_str(t.drop_first())[m - ec.len()]);
            }
        }
    }
}

/// No control character — in particular no newline — ever appears in the
/// canonical text of a well-formed value.
pub proof fn lemma_enc_printable(v: JsonV)
    requires
        wf_json(v),
    ensures
        printable(enc(v)),
    decreases v,
{
    match v {
        JsonV::Null => {},
        JsonV::Bool(_) => {},
        JsonV::Num(t) => {
            lemma_lit_shape(t);
            assert forall|m: int| 0 <= m < t.len() implies (#[trigger] t[m] as u32) >= 0x20 by {
                assert(is_num_char(t[m]));
            }
        },
        JsonV::Str(content) => {
            lemma_esc_printable(content);
            assert forall|m: int| 0 <= m < enc(v).len() implies (#[trigger] enc(v)[m] as u32)
                >= 0x20 by {
                if 1 <= m < enc(v).len() - 1 {
                    assert(enc(v)[m] == esc_str(content)[m - 1]);
                }
            }
        },
        JsonV::Arr(items) => {
            lemma_enc_items_printable(items);
            assert forall|m: int| 0 <= m < enc(v).len() implies (#[trigger] enc(v)[m] as u32)
                >= 0x20 by {
                if 1 <= m < enc(v).len() - 1 {
                    assert(enc(v)[m] == enc_items(items)[m - 1]);
                }
            }
        },
        JsonV::Obj(members) => {
            lemma_enc_members_printable(members);
            assert forall|m: int| 0 <= m < enc(v).len() implies (#[trigger] enc(v)[m] as u32)
                >= 0x20 by {
                if 1 <= m < enc(v).len() - 1 {
                    assert(enc(v)[m] == enc_members(members)[m - 1]);
                }
            }
        },
    }
}

proof fn lemma_enc_items_printable(s: Seq<JsonV>)
    requires
        wf_items(s),
    ensures
        printable(enc_items(s)),
    decreases s,
{
    if s.len() == 1 {
        lemma_enc_printable(s[0]);
    } else if s.len() > 1 {
        lemma_enc_printable(s[0]);
        lemma_enc_items_printable(s.drop_first());
        let a = enc(s[0]);
        let b = enc_items(s.drop_first());
        assert forall|m: int| 0 <= m < enc_items(s).len() implies (
        #[trigger] enc_items(s)[m] as u32) >= 0x20 by {
            assert(enc_items(s) == a + seq![','] + b);
            if m < a.len() {
                assert(enc_items(s)[m] == a[m]);
            } else if m > a.len() {
                assert(enc_items(s)[m] == b[m - a.len() - 1]);
            }
        }
    }
}

proof fn lemma_enc_members_printable(s: Seq<(Seq<char>, JsonV)>)
    requires
        wf_members(s),
    ensures
        printable(enc_members(s)),
    decreases s,
{
    if s.len() >= 1 {
        lemma_enc_printable(s[0].1);
        lemma_esc_printable(s[0].0);
        let e = enc_member(s[0]);
        assert(printable(e)) by {
            let k = esc_str(s[0].0);
            let b = enc(s[0].1);
            assert forall|m: int| 0 <= m < e.len() implies (#[trigger] e[m] as u32) >= 0x20 by {
                assert(e == seq!['"'] + k + seq!['"', ':'] + b);
                if 1 <= m < 1 + k.len() {
                    assert(e[m] == k[m - 1]);
                } else if m >= 3 + k.len() {
                    assert(e[m] == b[m - 3 - k.len()]);
                }
            }
        }
        if s.len() == 1 {
        } else {
            lemma_enc_members_printable(s.drop_first());
            let b = enc_members(s.drop_first());
            assert forall|m: int| 0 <= m < enc_members(s).len() implies (
            #[trigger] enc_members(s)[m] as u32) >= 0x20 by {
                assert(enc_members(s) == e + seq![','] + b);
                if m < e.len() {
                    assert(enc_members(s)[m] == e[m]);
                } else if m > e.len() {
                    assert(enc_members(s)[m] == b[m - e.len() - 1]);
                }
            }
        }
    }
}

// ---------------------------------------------------------------------------
// Decimal texts are valid number literals.
// ---------------------------------------------------------------------------

proof fn lemma_dec_chars(n: nat)
    ensures
        forall|m: int|
            0 <= m < crate::util::dec_digits(n).len() ==> is_digit(
                #[trigger] crate::util::dec_digits(n)[m],
            ),
    decreases n,
{
    let t = crate::util::dec_digits(n);
    if n < 10 {
        assert(is_digit(crate::util::digit_char_of(n as int)));
    } else {
        lemma_dec_chars(n / 10);
        let a = crate::util::dec_digits(n / 10);
        assert forall|m: int| 0 <= m < t.len() implies is_digit(#[trigger] t[m]) by {
            if m < a.len() {
                assert(t[m] == a[m]);
            } else {
                assert(t[m] == crate::util::digit_char_of((n % 10) as int));
                assert(is_digit(crate::util::digit_char_of((n % 10) as int)));
            }
        }
    }
}

proof fn lemma_dec_first(n: nat)
    requires
        n >= 1,
    ensures
        crate::util::dec_digits(n).len() >= 1,
        crate::util::dec_digits(n)[0] != '0',
    decreases n,
{
    if n >= 10 {
        lemma_dec_first(n / 10);
    }
}

proof fn lemma_run3_digits(t: Seq<char>)
    requires
        forall|m: int| 0 <= m < t.len() ==> is_digit(#[trigger] t[m]),
    ensures
        dfa_run(3, t) == 3,
    decreases t,
{
    if t.len() > 0 {
        assert(is_digit(t[0]));
        lemma_run3_digits(t.drop_first());
    }
}

/// The decimal text of any natural number is a valid JSON number literal.
pub proof fn lemma_dec_digits_lit(n: nat)
    ensures
        is_num_lit(crate::util::dec_digits(n)),
{
    let t = crate::util::dec_digits(n);
    if n < 10 {
        assert(t == seq![crate::util::digit_char_of(n as int)]);
        assert(t.drop_first() =~= Seq::<char>::empty());
        let c = crate::util::digit_char_of(n as int);
        assert(is_digit(c));
        assert(dfa_run(0, t) == dfa_run(num_dfa(0, c), t.drop_first()));
        assert(dfa_accepting(num_dfa(0, c)));
    } else {
        lemma_dec_chars(n);
        lemma_dec_first(n);
        let c0 = t[0];
        assert(is_digit(c0));
        assert(num_dfa(0, c0) == 3);
        assert forall|m: int| 0 <= m < t.drop_first().len() implies is_digit(
            #[trigger] t.drop_first()[m],
        ) by {
            assert(t.drop_first()[m] == t[m + 1]);
        }
        lemma_run3_digits(t.drop_first());
        assert(dfa_run(0, t) == dfa_run(num_dfa(0, c0), t.drop_first()));
    }
}

// ---------------------------------------------------------------------------
// The round trip of whole documents.
// ---------------------------------------------------------------------------

proof fn lemma_fuel_bound(v: JsonV)
    requires
        wf_json(v),
    ensures
        fuel_of(v) <= 2 * enc(v).len(),
    decreases v,
{
    match v {
        JsonV::Num(t) => {
            lemma_lit_shape(t);
        },
        JsonV::Arr(items) => {
            lemma_fuel_items_bound(items);
        },
        JsonV::Obj(members) => {
            lemma_fuel_members_bound(members);
        },
        _ => {},
    }
}

proof fn lemma_fuel_items_bound(s: Seq<JsonV>)
    requires
        wf_items(s),
    ensures
        fuel_items(s) <= 2 * enc_items(s).len() + 2,
    decreases s,
{
    if s.len() > 0 {
        lemma_fuel_bound(s[0]);
        lemma_fuel_items_bound(s.drop_first());
    }
}

proof fn lemma_fuel_members_bound(s: Seq<(Seq<char>, JsonV)>)
    requires
        wf_members(s),
    ensures
        fuel_members(s) <= 2 * enc_members(s).len() + 2,
    decreases s,
{
    if s.len() > 0 {
        lemma_fuel_bound(s[0].1);
        lemma_fuel_members_bound(s.drop_first());
        assert(enc_member(s[0]).len() == esc_str(s[0].0).len() + 3 + enc(s[0].1).len());
    }
}

proof fn lemma_skip_ws_all(s: Seq<char>, j: int)
    requires
        0 <= j <= s.len(),
        forall|m: int| j <= m < s.len() ==> is_ws(#[trigger] s[m]),
    ensures
        skip_ws(s, j) == s.len(),
    decreases s.len() - j,
{
    if j < s.len() {
        lemma_skip_ws_all(s, j + 1);
    }
}

/// The codec round trip: parsing the canonical text of any well-formed
/// value — any tree of nulls, booleans, number literals, strings, arrays
/// and objects — followed by nothing but whitespace (such as the line
/// terminator), yields exactly that value.
pub proof fn lemma_codec_round_trip_ws(v: JsonV, suffix: Seq<char>)
    requires
        wf_json(v),
        forall|m: int| 0 <= m < suffix.len() ==> is_ws(#[trigger] suffix[m]),
    ensures
        sp_doc(enc(v) + suffix) == Some(v),
{
    let s = enc(v) + suffix;
    let l = enc(v).len() as int;
    lemma_fuel_bound(v);
    assert(s.subrange(0, l) =~= enc(v));
    if suffix.len() > 0 {
        assert(s[l] == suffix[0]);
        assert(!is_num_char(s[l]));
    }
    lemma_rt_val(s, 0, v, (2 * s.len() + 2) as nat);
    assert forall|m: int| l <= m < s.len() implies is_ws(#[trigger] s[m]) by {
        assert(s[m] == suffix[m - l]);
    }
    lemma_skip_ws_all(s, l);
}

/// The codec round trip for a bare document.
pub proof fn lemma_codec_round_trip(v: JsonV)
    requires
        wf_json(v),
    ensures
        sp_doc(enc(v)) == Some(v),
{
    lemma_codec_round_trip_ws(v, Seq::empty());
    assert(enc(v) + Seq::<char>::empty() =~= enc(v));
}

} // verus!
