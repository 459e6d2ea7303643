//! The JSON parser for the wire protocol.
//!
//! The grammar is given once, as spec functions (`sp_val` and its helpers):
//! a deterministic, index-advancing reading of JSON text. The executable
//! parser is proved to return exactly what the spec functions say, and the
//! round-trip lemmas in this file show that the spec parser recovers every
//! well-formed value from its canonical text.
//!
//! One deliberate difference from a numeric JSON reader: a number keeps
//! its literal text rather than a numeric value (see
//! [`crate::json::JsonValue::Num`]).

use vstd::prelude::*;
use crate::json::{JsonV, JsonValue, hex_char, jv, jv_seq, jv_members};

verus! {

// ---------------------------------------------------------------------------
// Character classes and small scanners.
// ---------------------------------------------------------------------------

/// JSON insignificant whitespace.
pub open spec fn is_ws(c: char) -> bool {
    c == ' ' || c == '\t' || c == '\n' || c == '\r'
}

pub open spec fn is_digit(c: char) -> bool {
    '0' <= c && c <= '9'
}

/// Characters that may appear in a number literal.
pub open spec fn is_num_char(c: char) -> bool {
    is_digit(c) || c == '-' || c == '+' || c == '.' || c == 'e' || c == 'E'
}

/// The first index at or after `i` holding a non-whitespace character.
pub open spec fn skip_ws(s: Seq<char>, i: int) -> int
    decreases s.len() - i,
{
    if 0 <= i < s.len() && is_ws(s[i]) {
        skip_ws(s, i + 1)
    } else {
        i
    }
}

pub proof fn lemma_skip_ws_bounds(s: Seq<char>, i: int)
    requires
        0 <= i <= s.len(),
    ensures
        i <= skip_ws(s, i) <= s.len(),
        skip_ws(s, i) < s.len() ==> !is_ws(s[skip_ws(s, i)]),
    decreases s.len() - i,
{
    if 0 <= i < s.len() && is_ws(s[i]) {
        lemma_skip_ws_bounds(s, i + 1);
    }
}

/// The first index at or after `i` that does not hold a number character.
pub open spec fn num_end(s: Seq<char>, i: int) -> int
    decreases s.len() - i,
{
    if 0 <= i < s.len() && is_num_char(s[i]) {
        num_end(s, i + 1)
    } else {
        i
    }
}

pub proof fn lemma_num_end_bounds(s: Seq<char>, i: int)
    requires
        0 <= i <= s.len(),
    ensures
        i <= num_end(s, i) <= s.len(),
    decreases s.len() - i,
{
    if 0 <= i < s.len() && is_num_char(s[i]) {
        lemma_num_end_bounds(s, i + 1);
    }
}

/// The value of a hexadecimal digit, or 16 for any other character.
pub open spec fn hex_val(c: char) -> int {
    if '0' <= c && c <= '9' {
        c as u32 as int - '0' as u32 as int
    } else if 'a' <= c && c <= 'f' {
        10 + c as u32 as int - 'a' as u32 as int
    } else if 'A' <= c && c <= 'F' {
        10 + c as u32 as int - 'A' as u32 as int
    } else {
        16
    }
}

// ---------------------------------------------------------------------------
// Number literals: the JSON number grammar as a character automaton.
// ---------------------------------------------------------------------------

/// One step of the number automaton. State -1 is the dead state; the
/// accepting states are 2 (a lone integer part ending in `0`), 3 (integer
/// digits), 5 (fraction digits) and 8 (exponent digits).
pub open spec fn num_dfa(state: int, c: char) -> int {
    if state == 0 {
        if c == '-' { 1 } else if c == '0' { 2 } else if is_digit(c) { 3 } else { -1 }
    } else if state == 1 {
        if c == '0' { 2 } else if is_digit(c) { 3 } else { -1 }
    } else if state == 2 {
        if c == '.' { 4 } else if c == 'e' || c == 'E' { 6 } else { -1 }
    } else if state == 3 {
        if is_digit(c) { 3 } else if c == '.' { 4 } else if c == 'e' || c == 'E' { 6 } else { -1 }
    } else if state == 4 {
        if is_digit(c) { 5 } else { -1 }
    } else if state == 5 {
        if is_digit(c) { 5 } else if c == 'e' || c == 'E' { 6 } else { -1 }
    } else if state == 6 {
        if c == '+' || c == '-' { 7 } else if is_digit(c) { 8 } else { -1 }
    } else if state == 7 {
        if is_digit(c) { 8 } else { -1 }
    } else if state == 8 {
        if is_digit(c) { 8 } else { -1 }
    } else {
        -1
    }
}

pub open spec fn dfa_run(state: int, t: Seq<char>) -> int
    decreases t,
{
    if t.len() == 0 {
        state
    } else {
        dfa_run(num_dfa(state, t[0]), t.drop_first())
    }
}

pub open spec fn dfa_accepting(state: int) -> bool {
    state == 2 || state == 3 || state == 5 || state == 8
}

/// Whether `t` is a valid JSON number literal.
pub open spec fn is_num_lit(t: Seq<char>) -> bool {
    dfa_accepting(dfa_run(0, t))
}

// ---------------------------------------------------------------------------
// The spec parser.
// ---------------------------------------------------------------------------

/// Scans a string body. `i` points just after the opening quote; on success
/// the result holds the decoded content and the index just after the closing
/// quote. A `\u` escape carries one basic-plane character, or a
/// supplementary one as a surrogate pair; a lone or ill-paired surrogate
/// unit is malformed.
pub open spec fn sp_string(s: Seq<char>, i: int) -> Option<(Seq<char>, int)>
    decreases s.len() - i,
{
    if !(0 <= i < s.len()) {
        None
    } else {
        let c = s[i];
        if c == '"' {
            Some((Seq::empty(), i + 1))
        } else if c == '\\' {
            if i + 1 >= s.len() {
                None
            } else {
                let e = s[i + 1];
                if e == 'u' {
                    if i + 6 > s.len() {
                        None
                    } else if hex_val(s[i + 2]) < 16 && hex_val(s[i + 3]) < 16 && hex_val(
                        s[i + 4],
                    ) < 16 && hex_val(s[i + 5]) < 16 {
                        let cu = 4096 * hex_val(s[i + 2]) + 256 * hex_val(s[i + 3]) + 16
                            * hex_val(s[i + 4]) + hex_val(s[i + 5]);
                        if 0xD800 <= cu && cu < 0xDC00 {
                            // A high surrogate unit: its low partner must
                            // follow at once.
                            if i + 12 > s.len() {
                                None
                            } else if s[i + 6] == '\\' && s[i + 7] == 'u' && hex_val(
                                s[i + 8],
                            ) < 16 && hex_val(s[i + 9]) < 16 && hex_val(s[i + 10]) < 16
                                && hex_val(s[i + 11]) < 16 {
                                let cl = 4096 * hex_val(s[i + 8]) + 256 * hex_val(s[i + 9])
                                    + 16 * hex_val(s[i + 10]) + hex_val(s[i + 11]);
                                if 0xDC00 <= cl && cl < 0xE000 {
                                    let code = 0x10000 + (cu - 0xD800) * 0x400 + (cl
                                        - 0xDC00);
                                    match sp_string(s, i + 12) {
                                        Some(r) => Some(
                                            (seq![(code as u32) as char] + r.0, r.1),
                                        ),
                                        None => None,
                                    }
                                } else {
                                    None
                                }
                            } else {
                                None
                            }
                        } else if 0xDC00 <= cu && cu < 0xE000 {
                            None
                        } else {
                            match sp_string(s, i + 6) {
                                Some(r) => Some((seq![(cu as u32) as char] + r.0, r.1)),
                                None => None,
                            }
                        }
                    } else {
                        None
                    }
                } else {
                    let d: char = if e == '"' { '"' } else if e == '\\' { '\\' }
                        else if e == '/' { '/' } else if e == 'n' { '\n' }
                        else if e == 'r' { '\r' } else if e == 't' { '\t' }
                        else if e == 'b' { '\u{8}' } else if e == 'f' { '\u{c}' }
                        else { '?' };
                    if e == '"' || e == '\\' || e == '/' || e == 'n' || e == 'r' || e == 't'
                        || e == 'b' || e == 'f' {
                        match sp_string(s, i + 2) {
                            Some(r) => Some((seq![d] + r.0, r.1)),
                            None => None,
                        }
                    } else {
                        None
                    }
                }
            }
        } else if (c as u32) < 0x20 {
            None
        } else {
            match sp_string(s, i + 1) {
                Some(r) => Some((seq![c] + r.0, r.1)),
                None => None,
            }
        }
    }
}

pub proof fn lemma_sp_string_bounds(s: Seq<char>, i: int)
    requires
        0 <= i <= s.len(),
    ensures
        sp_string(s, i) matches Some(r) ==> i < r.1 <= s.len(),
    decreases s.len() - i,
{
    if 0 <= i < s.len() {
        let c = s[i];
        if c == '"' {
        } else if c == '\\' && i + 1 < s.len() {
            if s[i + 1] == 'u' {
                if i + 6 <= s.len() {
                    lemma_sp_string_bounds(s, i + 6);
                }
                if i + 12 <= s.len() {
                    lemma_sp_string_bounds(s, i + 12);
                }
            } else {
                lemma_sp_string_bounds(s, i + 2);
            }
        } else if (c as u32) >= 0x20 {
            lemma_sp_string_bounds(s, i + 1);
        }
    }
}

/// Scans a number literal starting at `i`: the maximal run of number
/// characters, which must form a valid literal.
pub open spec fn sp_num(s: Seq<char>, i: int) -> Option<(Seq<char>, int)> {
    let j = num_end(s, i);
    let t = s.subrange(i, j);
    if is_num_lit(t) {
        Some((t, j))
    } else {
        None
    }
}

/// Reads one JSON value starting at `i` (after skipping whitespace).
///
/// `fuel` bounds the recursion; it is given generously by the entry points
/// and consumed once per array element or object member.
pub open spec fn sp_val(s: Seq<char>, i: int, fuel: nat) -> Option<(JsonV, int)>
    decreases fuel, 1int,
{
    let k = skip_ws(s, i);
    if !(0 <= k < s.len()) {
        None
    } else {
        let c = s[k];
        if c == 'n' {
            if k + 4 <= s.len() && s[k + 1] == 'u' && s[k + 2] == 'l' && s[k + 3] == 'l' {
                Some((JsonV::Null, k + 4))
            } else {
                None
            }
        } else if c == 't' {
            if k + 4 <= s.len() && s[k + 1] == 'r' && s[k + 2] == 'u' && s[k + 3] == 'e' {
                Some((JsonV::Bool(true), k + 4))
            } else {
                None
            }
        } else if c == 'f' {
            if k + 5 <= s.len() && s[k + 1] == 'a' && s[k + 2] == 'l' && s[k + 3] == 's'
                && s[k + 4] == 'e' {
                Some((JsonV::Bool(false), k + 5))
            } else {
                None
            }
        } else if c == '"' {
            match sp_string(s, k + 1) {
                Some(r) => Some((JsonV::Str(r.0), r.1)),
                None => None,
            }
        } else if c == '[' {
            let k2 = skip_ws(s, k + 1);
            if 0 <= k2 < s.len() && s[k2] == ']' {
                Some((JsonV::Arr(Seq::empty()), k2 + 1))
            } else {
                match sp_items(s, k + 1, fuel) {
                    Some(r) => Some((JsonV::Arr(r.0), r.1)),
                    None => None,
                }
            }
        } else if c == '{' {
            let k2 = skip_ws(s, k + 1);
            if 0 <= k2 < s.len() && s[k2] == '}' {
                Some((JsonV::Obj(Seq::empty()), k2 + 1))
            } else {
                match sp_members(s, k + 1, fuel) {
                    Some(r) => Some((JsonV::Obj(r.0), r.1)),
                    None => None,
                }
            }
        } else if c == '-' || is_digit(c) {
            match sp_num(s, k) {
                Some(r) => Some((JsonV::Num(r.0), r.1)),
                None => None,
            }
        } else {
            None
        }
    }
}

/// Reads the elements of a non-empty array, `i` just after `[` or `,`,
/// up to and including the closing `]`.
pub open spec fn sp_items(s: Seq<char>, i: int, fuel: nat) -> Option<(Seq<JsonV>, int)>
    decreases fuel, 0int,
{
    if fuel == 0 {
        None
    } else {
        match sp_val(s, i, (fuel - 1) as nat) {
            None => None,
            Some((v, j)) => {
                let k = skip_ws(s, j);
                if 0 <= k < s.len() && s[k] == ',' {
                    match sp_items(s, k + 1, (fuel - 1) as nat) {
                        Some(r) => Some((seq![v] + r.0, r.1)),
                        None => None,
                    }
                } else if 0 <= k < s.len() && s[k] == ']' {
                    Some((seq![v], k + 1))
                } else {
                    None
                }
            },
        }
    }
}

/// Reads the members of a non-empty object, `i` just after `{` or `,`,
/// up to and including the closing `}`.
pub open spec fn sp_members(s: Seq<char>, i: int, fuel: nat) -> Option<
    (Seq<(Seq<char>, JsonV)>, int),
>
    decreases fuel, 0int,
{
    if fuel == 0 {
        None
    } else {
        let k0 = skip_ws(s, i);
        if !(0 <= k0 < s.len() && s[k0] == '"') {
            None
        } else {
            match sp_string(s, k0 + 1) {
                None => None,
                Some((key, j0)) => {
                    let k1 = skip_ws(s, j0);
                    if !(0 <= k1 < s.len() && s[k1] == ':') {
                        None
                    } else {
                        match sp_val(s, k1 + 1, (fuel - 1) as nat) {
                            None => None,
                            Some((v, j)) => {
                                let k = skip_ws(s, j);
                                if 0 <= k < s.len() && s[k] == ',' {
                                    match sp_members(s, k + 1, (fuel - 1) as nat) {
                                        Some(r) => Some((seq![(key, v)] + r.0, r.1)),
                                        None => None,
                                    }
                                } else if 0 <= k < s.len() && s[k] == '}' {
                                    Some((seq![(key, v)], k + 1))
                                } else {
                                    None
                                }
                            },
                        }
                    }
                },
            }
        }
    }
}

pub proof fn lemma_sp_val_bounds(s: Seq<char>, i: int, fuel: nat)
    ensures
        sp_val(s, i, fuel) matches Some(r) ==> 0 <= r.1 <= s.len(),
    decreases fuel, 1int,
{
    let k = skip_ws(s, i);
    if 0 <= k < s.len() {
        let c = s[k];
        if c == '"' {
            lemma_sp_string_bounds(s, k + 1);
        } else if c == '[' {
            lemma_sp_items_bounds(s, k + 1, fuel);
        } else if c == '{' {
            lemma_sp_members_bounds(s, k + 1, fuel);
        } else if c == '-' || is_digit(c) {
            lemma_num_end_bounds(s, k);
        }
    }
}

pub proof fn lemma_sp_items_bounds(s: Seq<char>, i: int, fuel: nat)
    ensures
        sp_items(s, i, fuel) matches Some(r) ==> 0 <= r.1 <= s.len(),
    decreases fuel, 0int,
{
    if fuel > 0 {
        lemma_sp_val_bounds(s, i, (fuel - 1) as nat);
        match sp_val(s, i, (fuel - 1) as nat) {
            None => {},
            Some((v, j)) => {
                let k = skip_ws(s, j);
                if 0 <= k < s.len() && s[k] == ',' {
                    lemma_sp_items_bounds(s, k + 1, (fuel - 1) as nat);
                }
            },
        }
    }
}

pub proof fn lemma_sp_members_bounds(s: Seq<char>, i: int, fuel: nat)
    ensures
        sp_members(s, i, fuel) matches Some(r) ==> 0 <= r.1 <= s.len(),
    decreases fuel, 0int,
{
    if fuel > 0 {
        let k0 = skip_ws(s, i);
        if 0 <= k0 < s.len() && s[k0] == '"' {
            lemma_sp_string_bounds(s, k0 + 1);
            match sp_string(s, k0 + 1) {
                None => {},
                Some((key, j0)) => {
                    let k1 = skip_ws(s, j0);
                    if 0 <= k1 < s.len() && s[k1] == ':' {
                        lemma_sp_val_bounds(s, k1 + 1, (fuel - 1) as nat);
                        match sp_val(s, k1 + 1, (fuel - 1) as nat) {
                            None => {},
                            Some((v, j)) => {
                                let k = skip_ws(s, j);
                                if 0 <= k < s.len() && s[k] == ',' {
                                    lemma_sp_members_bounds(s, k + 1, (fuel - 1) as nat);
                                }
                            },
                        }
                    }
                },
            }
        }
    }
}

/// Reads a whole document: one value, with nothing but whitespace after it.
pub open spec fn sp_doc(t: Seq<char>) -> Option<JsonV> {
    match sp_val(t, 0, (2 * t.len() + 2) as nat) {
        None => None,
        Some((v, j)) => if skip_ws(t, j) == t.len() {
            Some(v)
        } else {
            None
        },
    }
}

// ---------------------------------------------------------------------------
// The executable parser.
// ---------------------------------------------------------------------------

fn ws_char(c: char) -> (r: bool)
    ensures
        r == is_ws(c),
{
    c == ' ' || c == '\t' || c == '\n' || c == '\r'
}

fn digit_char(c: char) -> (r: bool)
    ensures
        r == is_digit(c),
{
    '0' <= c && c <= '9'
}

fn num_char(c: char) -> (r: bool)
    ensures
        r == is_num_char(c),
{
    digit_char(c) || c == '-' || c == '+' || c == '.' || c == 'e' || c == 'E'
}

fn hex_value(c: char) -> (r: u32)
    ensures
        r as int == hex_val(c),
{
    if '0' <= c && c <= '9' {
        c as u32 - '0' as u32
    } else if 'a' <= c && c <= 'f' {
        10 + (c as u32 - 'a' as u32)
    } else if 'A' <= c && c <= 'F' {
        10 + (c as u32 - 'A' as u32)
    } else {
        16
    }
}

fn scan_ws(s: &Vec<char>, i: usize) -> (r: usize)
    requires
        i <= s@.len(),
    ensures
        r as int == skip_ws(s@, i as int),
        i <= r <= s@.len(),
{
    let mut cur: usize = i;
    while cur < s.len() && ws_char(s[cur])
        invariant
            i <= cur <= s@.len(),
            skip_ws(s@, i as int) == skip_ws(s@, cur as int),
        decreases s@.len() - cur,
    {
        cur = cur + 1;
    }
    cur
}

fn scan_num_end(s: &Vec<char>, i: usize) -> (r: usize)
    requires
        i <= s@.len(),
    ensures
        r as int == num_end(s@, i as int),
        i <= r <= s@.len(),
{
    let mut cur: usize = i;
    while cur < s.len() && num_char(s[cur])
        invariant
            i <= cur <= s@.len(),
            num_end(s@, i as int) == num_end(s@, cur as int),
        decreases s@.len() - cur,
    {
        cur = cur + 1;
    }
    cur
}

fn num_dfa_step(state: i32, c: char) -> (r: i32)
    ensures
        r as int == num_dfa(state as int, c),
{
    if state == 0 {
        if c == '-' { 1 } else if c == '0' { 2 } else if digit_char(c) { 3 } else { -1 }
    } else if state == 1 {
        if c == '0' { 2 } else if digit_char(c) { 3 } else { -1 }
    } else if state == 2 {
        if c == '.' { 4 } else if c == 'e' || c == 'E' { 6 } else { -1 }
    } else if state == 3 {
        if digit_char(c) { 3 } else if c == '.' { 4 } else if c == 'e' || c == 'E' { 6 } else { -1 }
    } else if state == 4 {
        if digit_char(c) { 5 } else { -1 }
    } else if state == 5 {
        if digit_char(c) { 5 } else if c == 'e' || c == 'E' { 6 } else { -1 }
    } else if state == 6 {
        if c == '+' || c == '-' { 7 } else if digit_char(c) { 8 } else { -1 }
    } else if state == 7 {
        if digit_char(c) { 8 } else { -1 }
    } else if state == 8 {
        if digit_char(c) { 8 } else { -1 }
    } else {
        -1
    }
}

proof fn lemma_dfa_run_snoc(state: int, t: Seq<char>, c: char)
    ensures
        dfa_run(state, t.push(c)) == num_dfa(dfa_run(state, t), c),
    decreases t,
{
    let u = t.push(c);
    assert(u.len() == t.len() + 1);
    if t.len() == 0 {
        assert(u[0] == c);
        assert(u.drop_first() =~= Seq::<char>::empty());
        assert(dfa_run(state, u) == dfa_run(num_dfa(state, c), u.drop_first()));
        assert(dfa_run(num_dfa(state, c), u.drop_first()) == num_dfa(state, c));
    } else {
        lemma_dfa_run_snoc(num_dfa(state, t[0]), t.drop_first(), c);
        assert(u[0] == t[0]);
        assert(u.drop_first() =~= t.drop_first().push(c));
        assert(dfa_run(state, u) == dfa_run(num_dfa(state, t[0]), u.drop_first()));
    }
}

/// Runs the number automaton over `s[i..j]`.
fn dfa_check(s: &Vec<char>, i: usize, j: usize) -> (r: bool)
    requires
        i <= j <= s@.len(),
    ensures
        r == is_num_lit(s@.subrange(i as int, j as int)),
{
    let mut state: i32 = 0;
    let mut k: usize = i;
    proof {
        assert(s@.subrange(i as int, i as int) =~= Seq::<char>::empty());
    }
    while k < j
        invariant
            i <= k <= j <= s@.len(),
            state as int == dfa_run(0, s@.subrange(i as int, k as int)),
        decreases j - k,
    {
        state = num_dfa_step(state, s[k]);
        proof {
            lemma_dfa_run_snoc(0, s@.subrange(i as int, k as int), s@[k as int]);
            assert(s@.subrange(i as int, k + 1) =~= s@.subrange(i as int, k as int).push(
                s@[k as int],
            ));
        }
        k = k + 1;
    }
    state == 2 || state == 3 || state == 5 || state == 8
}

/// Copies `s[i..j]` into a fresh string.
fn range_to_string(s: &Vec<char>, i: usize, j: usize) -> (r: String)
    requires
        i <= j <= s@.len(),
    ensures
        r@ == s@.subrange(i as int, j as int),
{
    let mut out: String = String::new();
    let mut k: usize = i;
    proof {
        assert(out@ =~= s@.subrange(i as int, i as int));
    }
    while k < j
        invariant
            i <= k <= j <= s@.len(),
            out@ == s@.subrange(i as int, k as int),
        decreases j - k,
    {
        crate::util::push_char(&mut out, s[k]);
        proof {
            assert(s@.subrange(i as int, k + 1) =~= s@.subrange(i as int, k as int).push(
                s@[k as int],
            ));
        }
        k = k + 1;
    }
    out
}

/// Scans a string body starting just after the opening quote.
fn p_string(s: &Vec<char>, i: usize) -> (r: Option<(String, usize)>)
    requires
        i <= s@.len(),
    ensures
        (match r {
            None => sp_string(s@, i as int) is None,
            Some(p) => sp_string(s@, i as int) == Some((p.0@, p.1 as int)) && p.1 <= s@.len(),
        }),
{
    let mut acc: String = String::new();
    let mut cur: usize = i;
    loop
        invariant
            i <= cur <= s@.len(),
            (match sp_string(s@, cur as int) {
                Some(p) => sp_string(s@, i as int) == Some((acc@ + p.0, p.1)),
                None => sp_string(s@, i as int) is None,
            }),
        decreases s@.len() - cur,
    {
        if cur >= s.len() {
            return None;
        }
        let c: char = s[cur];
        if c == '"' {
            proof {
                assert(acc@ + Seq::<char>::empty() =~= acc@);
            }
            return Some((acc, cur + 1));
        } else if c == '\\' {
            if s.len() - cur < 2 {
                return None;
            }
            let e: char = s[cur + 1];
            if e == 'u' {
                if s.len() - cur < 6 {
                    return None;
                }
                if !(hex_value(s[cur + 2]) < 16 && hex_value(s[cur + 3]) < 16 && hex_value(
                    s[cur + 4],
                ) < 16 && hex_value(s[cur + 5]) < 16) {
                    return None;
                }
                let cu: u32 = 4096 * hex_value(s[cur + 2]) + 256 * hex_value(s[cur + 3]) + 16
                    * hex_value(s[cur + 4]) + hex_value(s[cur + 5]);
                if 0xD800 <= cu && cu < 0xDC00 {
                    if s.len() - cur < 12 {
                        return None;
                    }
                    if !(s[cur + 6] == '\\' && s[cur + 7] == 'u' && hex_value(s[cur + 8]) < 16
                        && hex_value(s[cur + 9]) < 16 && hex_value(s[cur + 10]) < 16
                        && hex_value(s[cur + 11]) < 16) {
                        return None;
                    }
                    let cl: u32 = 4096 * hex_value(s[cur + 8]) + 256 * hex_value(s[cur + 9])
                        + 16 * hex_value(s[cur + 10]) + hex_value(s[cur + 11]);
                    if !(0xDC00 <= cl && cl < 0xE000) {
                        return None;
                    }
                    let code: u32 = 0x10000 + (cu - 0xD800) * 0x400 + (cl - 0xDC00);
                    let d: char = match crate::util::char_from_u32(code) {
                        Some(d) => d,
                        None => {
                            proof {
                                assert(false);
                            }
                            return None;
                        },
                    };
                    proof {
                        vstd::utf8::char_u32_cast(d, code);
                    }
                    crate::util::push_char(&mut acc, d);
                    proof {
                        let ghost old_acc = acc@.drop_last();
                        assert(forall|t: Seq<char>|
                            old_acc.push(d) + t =~= old_acc + (seq![d] + t));
                    }
                    cur = cur + 12;
                } else if 0xDC00 <= cu && cu < 0xE000 {
                    return None;
                } else {
                    let d: char = match crate::util::char_from_u32(cu) {
                        Some(d) => d,
                        None => {
                            proof {
                                assert(false);
                            }
                            return None;
                        },
                    };
                    proof {
                        vstd::utf8::char_u32_cast(d, cu);
                    }
                    crate::util::push_char(&mut acc, d);
                    proof {
                        let ghost old_acc = acc@.drop_last();
                        assert(forall|t: Seq<char>|
                            old_acc.push(d) + t =~= old_acc + (seq![d] + t));
                    }
                    cur = cur + 6;
                }
            } else if e == '"' || e == '\\' || e == '/' || e == 'n' || e == 'r' || e == 't'
                || e == 'b' || e == 'f' {
                let d: char = if e == '"' { '"' } else if e == '\\' { '\\' }
                    else if e == '/' { '/' } else if e == 'n' { '\n' }
                    else if e == 'r' { '\r' } else if e == 't' { '\t' }
                    else if e == 'b' { '\u{8}' } else { '\u{c}' };
                crate::util::push_char(&mut acc, d);
                proof {
                    let ghost old_acc = acc@.drop_last();
                    assert(forall|t: Seq<char>|
                        old_acc.push(d) + t =~= old_acc + (seq![d] + t));
                }
                cur = cur + 2;
            } else {
                return None;
            }
        } else if (c as u32) < 0x20 {
            return None;
        } else {
            crate::util::push_char(&mut acc, c);
            proof {
                let ghost old_acc = acc@.drop_last();
                assert(forall|t: Seq<char>|
                    old_acc.push(c) + t =~= old_acc + (seq![c] + t));
            }
            cur = cur + 1;
        }
    }
}

/// Scans a number literal starting at `i`.
fn p_num(s: &Vec<char>, i: usize) -> (r: Option<(String, usize)>)
    requires
        i <= s@.len(),
    ensures
        (match r {
            None => sp_num(s@, i as int) is None,
            Some(p) => sp_num(s@, i as int) == Some((p.0@, p.1 as int)) && p.1 <= s@.len(),
        }),
{
    let j: usize = scan_num_end(s, i);
    if dfa_check(s, i, j) {
        Some((range_to_string(s, i, j), j))
    } else {
        None
    }
}

/// Reads one value starting at `i`, as [`sp_val`] describes.
fn p_val(s: &Vec<char>, i: usize, fuel: usize) -> (r: Option<(JsonValue, usize)>)
    requires
        i <= s@.len(),
    ensures
        (match r {
            None => sp_val(s@, i as int, fuel as nat) is None,
            Some(p) => sp_val(s@, i as int, fuel as nat) == Some((jv(p.0), p.1 as int)) && p.1
                <= s@.len(),
        }),
    decreases fuel, 1int,
{
    let k: usize = scan_ws(s, i);
    if k >= s.len() {
        return None;
    }
    let c: char = s[k];
    if c == 'n' {
        if s.len() - k >= 4 && s[k + 1] == 'u' && s[k + 2] == 'l' && s[k + 3] == 'l' {
            Some((JsonValue::Null, k + 4))
        } else {
            None
        }
    } else if c == 't' {
        if s.len() - k >= 4 && s[k + 1] == 'r' && s[k + 2] == 'u' && s[k + 3] == 'e' {
            Some((JsonValue::Bool(true), k + 4))
        } else {
            None
        }
    } else if c == 'f' {
        if s.len() - k >= 5 && s[k + 1] == 'a' && s[k + 2] == 'l' && s[k + 3] == 's' && s[k + 4]
            == 'e' {
            Some((JsonValue::Bool(false), k + 5))
        } else {
            None
        }
    } else if c == '"' {
        match p_string(s, k + 1) {
            Some(p) => Some((JsonValue::Str(p.0), p.1)),
            None => None,
        }
    } else if c == '[' {
        let k2: usize = scan_ws(s, k + 1);
        if k2 < s.len() && s[k2] == ']' {
            let items: Vec<JsonValue> = Vec::new();
            proof {
                assert(jv_seq(items@) =~= Seq::<JsonV>::empty());
            }
            return Some((JsonValue::Arr(items), k2 + 1));
        }
        let mut acc: Vec<JsonValue> = Vec::new();
        let mut cur: usize = k + 1;
        let mut f: usize = fuel;
        proof {
            assert(jv_seq(acc@) =~= Seq::<JsonV>::empty());
            assert(forall|t: Seq<JsonV>| #[trigger] (jv_seq(acc@) + t) =~= t);
            lemma_sp_items_bounds(s@, k as int + 1, fuel as nat);
        }
        loop
            invariant
                cur <= s@.len(),
                f <= fuel,
                (match sp_items(s@, k as int + 1, fuel as nat) {
                    Some(p) => sp_val(s@, i as int, fuel as nat) == Some(
                        (JsonV::Arr(p.0), p.1),
                    ),
                    None => sp_val(s@, i as int, fuel as nat) is None,
                }),
                (match sp_items(s@, cur as int, f as nat) {
                    Some(p) => sp_items(s@, k as int + 1, fuel as nat) == Some(
                        (jv_seq(acc@) + p.0, p.1),
                    ) && p.1 <= s@.len(),
                    None => sp_items(s@, k as int + 1, fuel as nat) is None,
                }),
            decreases f,
        {
            if f == 0 {
                return None;
            }
            match p_val(s, cur, f - 1) {
                None => {
                    return None;
                },
                Some(p) => {
                    let v: JsonValue = p.0;
                    let j: usize = p.1;
                    let k3: usize = scan_ws(s, j);
                    proof {
                        lemma_sp_items_bounds(s@, k3 as int + 1, (f - 1) as nat);
                        crate::json::lemma_jv_seq(acc@);
                        crate::json::lemma_jv_seq(acc@.push(v));
                        assert(jv_seq(acc@.push(v)) =~= jv_seq(acc@) + seq![jv(v)]);
                        assert(forall|t: Seq<JsonV>|
                            (jv_seq(acc@) + seq![jv(v)]) + t =~= jv_seq(acc@) + (seq![jv(v)]
                                + t));
                    }
                    if k3 < s.len() && s[k3] == ',' {
                        acc.push(v);
                        cur = k3 + 1;
                        f = f - 1;
                    } else if k3 < s.len() && s[k3] == ']' {
                        acc.push(v);
                        return Some((JsonValue::Arr(acc), k3 + 1));
                    } else {
                        return None;
                    }
                },
            }
        }
    } else if c == '{' {
        let k2: usize = scan_ws(s, k + 1);
        if k2 < s.len() && s[k2] == '}' {
            let members: Vec<(String, JsonValue)> = Vec::new();
            proof {
                assert(jv_members(members@) =~= Seq::<(Seq<char>, JsonV)>::empty());
            }
            return Some((JsonValue::Obj(members), k2 + 1));
        }
        let mut acc: Vec<(String, JsonValue)> = Vec::new();
        let mut cur: usize = k + 1;
        let mut f: usize = fuel;
        proof {
            assert(jv_members(acc@) =~= Seq::<(Seq<char>, JsonV)>::empty());
            assert(forall|t: Seq<(Seq<char>, JsonV)>| #[trigger] (jv_members(acc@) + t) =~= t);
            lemma_sp_members_bounds(s@, k as int + 1, fuel as nat);
        }
        loop
            invariant
                cur <= s@.len(),
                f <= fuel,
                (match sp_members(s@, k as int + 1, fuel as nat) {
                    Some(p) => sp_val(s@, i as int, fuel as nat) == Some(
                        (JsonV::Obj(p.0), p.1),
                    ),
                    None => sp_val(s@, i as int, fuel as nat) is None,
                }),
                (match sp_members(s@, cur as int, f as nat) {
                    Some(p) => sp_members(s@, k as int + 1, fuel as nat) == Some(
                        (jv_members(acc@) + p.0, p.1),
                    ) && p.1 <= s@.len(),
                    None => sp_members(s@, k as int + 1, fuel as nat) is None,
                }),
            decreases f,
        {
            if f == 0 {
                return None;
            }
            let k0: usize = scan_ws(s, cur);
            if !(k0 < s.len() && s[k0] == '"') {
                return None;
            }
            match p_string(s, k0 + 1) {
                None => {
                    return None;
                },
                Some(kp) => {
                    let key: String = kp.0;
                    let j0: usize = kp.1;
                    let k1: usize = scan_ws(s, j0);
                    if !(k1 < s.len() && s[k1] == ':') {
                        return None;
                    }
                    match p_val(s, k1 + 1, f - 1) {
                        None => {
                            return None;
                        },
                        Some(p) => {
                            let v: JsonValue = p.0;
                            let j: usize = p.1;
                            let k3: usize = scan_ws(s, j);
                            proof {
                                lemma_sp_members_bounds(s@, k3 as int + 1, (f - 1) as nat);
                                crate::json::lemma_jv_members(acc@);
                                crate::json::lemma_jv_members(acc@.push((key, v)));
                                assert(jv_members(acc@.push((key, v))) =~= jv_members(acc@)
                                    + seq![(key@, jv(v))]);
                                assert(forall|t: Seq<(Seq<char>, JsonV)>|
                                    (jv_members(acc@) + seq![(key@, jv(v))]) + t =~= jv_members(
                                    acc@) + (seq![(key@, jv(v))] + t));
                            }
                            if k3 < s.len() && s[k3] == ',' {
                                acc.push((key, v));
                                cur = k3 + 1;
                                f = f - 1;
                            } else if k3 < s.len() && s[k3] == '}' {
                                acc.push((key, v));
                                return Some((JsonValue::Obj(acc), k3 + 1));
                            } else {
                                return None;
                            }
                        },
                    }
                },
            }
        }
    } else if c == '-' || digit_char(c) {
        match p_num(s, k) {
            Some(p) => Some((JsonValue::Num(p.0), p.1)),
            None => None,
        }
    } else {
        None
    }
}

/// Parses one JSON document, as [`sp_doc`] describes.
///
/// The length bound keeps the internal recursion budget within `usize`.
pub fn parse_json_text(s: &str) -> (r: Option<JsonValue>)
    requires
        s@.len() <= usize::MAX as int / 4,
    ensures
        (match r {
            Some(v) => sp_doc(s@) == Some(jv(v)),
            None => sp_doc(s@) is None,
        }),
{
    let chars: Vec<char> = crate::util::str_chars(s);
    let n: usize = chars.len();
    let fuel: usize = 2 * n + 2;
    match p_val(&chars, 0, fuel) {
        None => None,
        Some(p) => {
            let e: usize = scan_ws(&chars, p.1);
            if e == n {
                Some(p.0)
            } else {
                None
            }
        },
    }
}

} // verus!
