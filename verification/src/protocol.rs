//! The line protocol between the host and the helper process.
//!
//! A request is one JSON object `{"cmd": ..., "args": ...}` on one line; a
//! reply is one JSON object `{"ok": ..., "result": ..., "error": ...}` on
//! one line. Exactly one of `result`/`error` is meaningful, selected by
//! `ok`; an absent or null field reads as absent.

use vstd::prelude::*;
use vstd::string::StringExecFns;
use crate::json::{
    JsonV, JsonValue, jv, jv_members, enc, json_to_text, lookup, lookup_v, clone_json,
    lemma_jv_members,
};
use crate::decode::{sp_doc, parse_json_text};
use crate::codec_laws::{wf_json, lemma_enc_printable};
use crate::errors::BridgeError;

verus! {

/// One command sent to the helper.
#[derive(Debug, PartialEq, Eq)]
pub struct Request {
    pub cmd: String,
    pub args: JsonValue,
}

/// The mathematical shape of a request.
pub struct ReqV {
    pub cmd: Seq<char>,
    pub args: JsonV,
}

impl View for Request {
    type V = ReqV;

    open spec fn view(&self) -> ReqV {
        ReqV { cmd: self.cmd@, args: jv(self.args) }
    }
}

/// One reply from the helper.
#[derive(Debug, PartialEq, Eq)]
pub struct Response {
    pub ok: bool,
    pub result: Option<JsonValue>,
    pub error: Option<String>,
}

/// The mathematical shape of a reply.
pub struct RespV {
    pub ok: bool,
    pub result: Option<JsonV>,
    pub error: Option<Seq<char>>,
}

impl View for Response {
    type V = RespV;

    open spec fn view(&self) -> RespV {
        RespV {
            ok: self.ok,
            result: match self.result {
                Some(v) => Some(jv(v)),
                None => None,
            },
            error: match self.error {
                Some(m) => Some(m@),
                None => None,
            },
        }
    }
}

pub open spec fn cmd_key() -> Seq<char> {
    seq!['c', 'm', 'd']
}

pub open spec fn args_key() -> Seq<char> {
    seq!['a', 'r', 'g', 's']
}

pub open spec fn ok_key() -> Seq<char> {
    seq!['o', 'k']
}

pub open spec fn result_key() -> Seq<char> {
    seq!['r', 'e', 's', 'u', 'l', 't']
}

pub open spec fn error_key() -> Seq<char> {
    seq!['e', 'r', 'r', 'o', 'r']
}

/// The JSON object that carries a request.
pub open spec fn request_json(q: ReqV) -> JsonV {
    JsonV::Obj(seq![(cmd_key(), JsonV::Str(q.cmd)), (args_key(), q.args)])
}

/// The JSON object that carries a reply: `ok` always, `result` and `error`
/// only when present.
pub open spec fn response_json(p: RespV) -> JsonV {
    let base = seq![(ok_key(), JsonV::Bool(p.ok))];
    let with_result = match p.result {
        Some(v) => base.push((result_key(), v)),
        None => base,
    };
    let with_error = match p.error {
        Some(m) => with_result.push((error_key(), JsonV::Str(m))),
        None => with_result,
    };
    JsonV::Obj(with_error)
}

/// The request line: canonical text plus the terminating newline.
pub open spec fn request_line(q: ReqV) -> Seq<char> {
    enc(request_json(q)) + seq!['\n']
}

/// The reply line a helper would send for `p`.
pub open spec fn response_line(p: RespV) -> Seq<char> {
    enc(response_json(p)) + seq!['\n']
}

/// Reading a reply object: `ok` must be a boolean; `result` may be anything
/// (null reads as absent); `error` must be a string when present (null
/// reads as absent). Anything else is malformed.
pub open spec fn response_of_json(v: JsonV) -> Option<RespV> {
    match v {
        JsonV::Obj(ms) => match lookup_v(ms, ok_key()) {
            Some(JsonV::Bool(b)) => {
                let res = match lookup_v(ms, result_key()) {
                    None => None,
                    Some(JsonV::Null) => None,
                    Some(x) => Some(x),
                };
                match lookup_v(ms, error_key()) {
                    None => Some(RespV { ok: b, result: res, error: None }),
                    Some(JsonV::Null) => Some(RespV { ok: b, result: res, error: None }),
                    Some(JsonV::Str(m)) => Some(RespV { ok: b, result: res, error: Some(m) }),
                    Some(_) => None,
                }
            },
            _ => None,
        },
        _ => None,
    }
}

/// What a line of reply text means, if anything.
pub open spec fn response_of_text(t: Seq<char>) -> Option<RespV> {
    match sp_doc(t) {
        None => None,
        Some(v) => response_of_json(v),
    }
}

// ---------------------------------------------------------------------------
// Executable encoding and decoding.
// ---------------------------------------------------------------------------

/// Writes the one line that carries `q`, newline-terminated. When the
/// arguments are well-formed, that terminator is the only newline in the
/// line: whole-line writes can never split or merge messages.
pub fn encode_request(q: Request) -> (r: String)
    ensures
        r@ == request_line(q@),
        r@.len() >= 1 && r@[r@.len() - 1] == '\n',
        wf_json(q@.args) ==> forall|m: int| 0 <= m < r@.len() - 1 ==> r@[m] != '\n',
{
    let ghost qv = q@;
    let Request { cmd, args } = q;
    let mut members: Vec<(String, JsonValue)> = Vec::new();
    members.push((String::from_str("cmd"), JsonValue::Str(cmd)));
    members.push((String::from_str("args"), args));
    let obj = JsonValue::Obj(members);
    proof {
        reveal_strlit("cmd");
        reveal_strlit("args");
        lemma_jv_members(obj->Obj_0@);
        assert("cmd"@ =~= cmd_key());
        assert("args"@ =~= args_key());
        assert(jv_members(obj->Obj_0@) =~= request_json(qv)->Obj_0);
        assert(jv(obj) == request_json(qv));
    }
    let mut line = json_to_text(&obj);
    crate::util::push_char(&mut line, '\n');
    proof {
        assert(line@ =~= request_line(qv));
        if wf_json(qv.args) {
            assert(wf_json(request_json(qv))) by {
                let ms = request_json(qv)->Obj_0;
                assert(ms[0].1 == JsonV::Str(qv.cmd));
                assert(wf_json(JsonV::Str(qv.cmd)));
                assert(ms.drop_first()[0].1 == qv.args);
                assert(ms.drop_first().drop_first().len() == 0);
                assert(crate::codec_laws::wf_members(ms.drop_first().drop_first()));
                assert(crate::codec_laws::wf_members(ms.drop_first()));
                assert(crate::codec_laws::wf_members(ms));
            }
            lemma_enc_printable(request_json(qv));
            assert forall|m: int| 0 <= m < line@.len() - 1 implies line@[m] != '\n' by {
                assert(enc(request_json(qv))[m] as u32 >= 0x20);
            }
        }
    }
    line
}

/// Writes the one line a helper would send for `p`; the counterpart of
/// [`parse_response`], used to exercise the reply path.
pub fn encode_response(p: Response) -> (r: String)
    ensures
        r@ == response_line(p@),
{
    let ghost pv = p@;
    let Response { ok, result, error } = p;
    let mut members: Vec<(String, JsonValue)> = Vec::new();
    members.push((String::from_str("ok"), JsonValue::Bool(ok)));
    match result {
        Some(v) => {
            members.push((String::from_str("result"), v));
        },
        None => {},
    }
    match error {
        Some(m) => {
            members.push((String::from_str("error"), JsonValue::Str(m)));
        },
        None => {},
    }
    let obj = JsonValue::Obj(members);
    proof {
        reveal_strlit("ok");
        reveal_strlit("result");
        reveal_strlit("error");
        assert("ok"@ =~= ok_key());
        assert("result"@ =~= result_key());
        assert("error"@ =~= error_key());
        lemma_jv_members(obj->Obj_0@);
        assert(jv_members(obj->Obj_0@) =~= response_json(pv)->Obj_0);
        assert(jv(obj) == response_json(pv));
    }
    let mut line = json_to_text(&obj);
    crate::util::push_char(&mut line, '\n');
    proof {
        assert(line@ =~= response_line(pv));
    }
    line
}

/// Reads one reply line (a trailing newline is fine: it is whitespace to
/// the document parser). `None` is a malformed reply — the caller turns it
/// into a protocol error carrying the raw text.
pub fn parse_response(line: &str) -> (r: Option<Response>)
    requires
        line@.len() <= usize::MAX as int / 4,
    ensures
        (match r {
            Some(resp) => response_of_text(line@) == Some(resp@),
            None => response_of_text(line@) is None,
        }),
{
    let parsed = match parse_json_text(line) {
        Some(v) => v,
        None => {
            return None;
        },
    };
    let members = match parsed {
        JsonValue::Obj(members) => members,
        _ => {
            return None;
        },
    };
    let ok = match lookup(&members, "ok") {
        Some(JsonValue::Bool(b)) => *b,
        _ => {
            proof {
                reveal_strlit("ok");
                assert("ok"@ =~= ok_key());
            }
            return None;
        },
    };
    proof {
        reveal_strlit("ok");
        assert("ok"@ =~= ok_key());
    }
    let result: Option<JsonValue> = match lookup(&members, "result") {
        None => None,
        Some(JsonValue::Null) => None,
        Some(v) => Some(clone_json(v)),
    };
    proof {
        reveal_strlit("result");
        assert("result"@ =~= result_key());
    }
    let error: Option<String> = match lookup(&members, "error") {
        None => None,
        Some(JsonValue::Null) => None,
        Some(JsonValue::Str(m)) => Some(m.clone()),
        Some(_) => {
            proof {
                reveal_strlit("error");
                assert("error"@ =~= error_key());
            }
            return None;
        },
    };
    proof {
        reveal_strlit("error");
        assert("error"@ =~= error_key());
    }
    Some(Response { ok, result, error })
}


// ---------------------------------------------------------------------------
// The protocol round trip.
// ---------------------------------------------------------------------------

/// Reading a request object: `cmd` must be a string and `args` present.
pub open spec fn request_of_json(v: JsonV) -> Option<ReqV> {
    match v {
        JsonV::Obj(ms) => match lookup_v(ms, cmd_key()) {
            Some(JsonV::Str(c)) => match lookup_v(ms, args_key()) {
                Some(a) => Some(ReqV { cmd: c, args: a }),
                None => None,
            },
            _ => None,
        },
        _ => None,
    }
}

/// What a line of request text means, if anything.
pub open spec fn request_of_text(t: Seq<char>) -> Option<ReqV> {
    match sp_doc(t) {
        None => None,
        Some(v) => request_of_json(v),
    }
}

proof fn lemma_lookup_hit(ms: Seq<(Seq<char>, JsonV)>, k: Seq<char>)
    requires
        ms.len() > 0,
        ms[0].0 == k,
    ensures
        lookup_v(ms, k) == Some(ms[0].1),
{
}

proof fn lemma_lookup_skip(ms: Seq<(Seq<char>, JsonV)>, k: Seq<char>)
    requires
        ms.len() > 0,
        ms[0].0 != k,
    ensures
        lookup_v(ms, k) == lookup_v(ms.drop_first(), k),
{
}

/// Framing: a request line ends with its one and only newline. Whole-line
/// writes therefore never split or interleave messages — any sequence of
/// serialized calls puts whole requests on the wire, one per line, and the
/// strictly alternating reply on the next line belongs to the request just
/// written.
pub proof fn lemma_request_framing(q: ReqV)
    requires
        wf_json(q.args),
    ensures
        request_line(q).len() >= 1,
        request_line(q)[request_line(q).len() - 1] == '\n',
        forall|m: int| 0 <= m < request_line(q).len() - 1 ==> request_line(q)[m] != '\n',
{
    lemma_request_json_wf(q);
    lemma_enc_printable(request_json(q));
    let t = request_line(q);
    assert forall|m: int| 0 <= m < t.len() - 1 implies t[m] != '\n' by {
        assert(t[m] == enc(request_json(q))[m]);
        assert(enc(request_json(q))[m] as u32 >= 0x20);
    }
}

/// A request object with well-formed arguments is well-formed.
pub proof fn lemma_request_json_wf(q: ReqV)
    requires
        wf_json(q.args),
    ensures
        wf_json(request_json(q)),
{
    let ms = request_json(q)->Obj_0;
    assert(ms[0].1 == JsonV::Str(q.cmd));
    assert(wf_json(JsonV::Str(q.cmd)));
    assert(ms.drop_first()[0].1 == q.args);
    assert(ms.drop_first().drop_first().len() == 0);
    assert(crate::codec_laws::wf_members(ms.drop_first().drop_first()));
    assert(crate::codec_laws::wf_members(ms.drop_first()));
    assert(crate::codec_laws::wf_members(ms));
}

/// Round trip of a request: the encoded line reads back as exactly the
/// same command and arguments.
#[verifier::rlimit(50)]
pub proof fn lemma_request_round_trip(q: ReqV)
    requires
        wf_json(q.args),
    ensures
        request_of_text(request_line(q)) == Some(q),
{
    lemma_request_json_wf(q);
    crate::codec_laws::lemma_codec_round_trip_ws(request_json(q), seq!['\n']);
    assert(sp_doc(request_line(q)) == Some(request_json(q)));
    let ms = request_json(q)->Obj_0;
    assert(ms[0].0 == cmd_key());
    assert(lookup_v(ms, cmd_key()) == Some(JsonV::Str(q.cmd)));
    assert(cmd_key().len() != args_key().len());
    assert(ms.drop_first()[0].0 == args_key());
    assert(lookup_v(ms, args_key()) == lookup_v(ms.drop_first(), args_key()));
    assert(lookup_v(ms, args_key()) == Some(q.args));
}

/// A response object whose optional result is well-formed is well-formed.
pub proof fn lemma_response_json_wf(p: RespV)
    requires
        (p.result matches Some(v) ==> wf_json(v)),
    ensures
        wf_json(response_json(p)),
{
    let ms = response_json(p)->Obj_0;
    let t1 = ms.drop_first();
    let t2 = t1.drop_first();
    let t3 = t2.drop_first();
    assert(wf_json(JsonV::Bool(p.ok)));
    match p.result {
        Some(v) => {
            match p.error {
                Some(m) => {
                    assert(ms =~= seq![
                        (ok_key(), JsonV::Bool(p.ok)),
                        (result_key(), v),
                        (error_key(), JsonV::Str(m)),
                    ]);
                    assert(t2[0].1 == JsonV::Str(m));
                    assert(wf_json(JsonV::Str(m)));
                    assert(t3.len() == 0);
                    assert(crate::codec_laws::wf_members(t3));
                    assert(crate::codec_laws::wf_members(t2));
                    assert(crate::codec_laws::wf_members(t1));
                    assert(crate::codec_laws::wf_members(ms));
                },
                None => {
                    assert(ms =~= seq![(ok_key(), JsonV::Bool(p.ok)), (result_key(), v)]);
                    assert(t1[0].1 == v);
                    assert(t2.len() == 0);
                    assert(crate::codec_laws::wf_members(t2));
                    assert(crate::codec_laws::wf_members(t1));
                    assert(crate::codec_laws::wf_members(ms));
                },
            }
        },
        None => {
            match p.error {
                Some(m) => {
                    assert(ms =~= seq![
                        (ok_key(), JsonV::Bool(p.ok)),
                        (error_key(), JsonV::Str(m)),
                    ]);
                    assert(t1[0].1 == JsonV::Str(m));
                    assert(wf_json(JsonV::Str(m)));
                    assert(t2.len() == 0);
                    assert(crate::codec_laws::wf_members(t2));
                    assert(crate::codec_laws::wf_members(t1));
                    assert(crate::codec_laws::wf_members(ms));
                },
                None => {
                    assert(ms =~= seq![(ok_key(), JsonV::Bool(p.ok))]);
                    assert(t1.len() == 0);
                    assert(crate::codec_laws::wf_members(t1));
                    assert(crate::codec_laws::wf_members(ms));
                },
            }
        },
    }
}

/// Round trip of a reply: the encoded line reads back as exactly the same
/// `ok`, `result` and `error` fields. A `result` of JSON null is excluded:
/// the protocol makes null and absent the same empty success.
#[verifier::rlimit(50)]
pub proof fn lemma_response_round_trip(p: RespV)
    requires
        (p.result matches Some(v) ==> wf_json(v) && !(v is Null)),
    ensures
        response_of_text(response_line(p)) == Some(p),
{
    lemma_response_json_wf(p);
    crate::codec_laws::lemma_codec_round_trip_ws(response_json(p), seq!['\n']);
    assert(sp_doc(response_line(p)) == Some(response_json(p)));
    let ms = response_json(p)->Obj_0;
    assert(ok_key().len() != result_key().len());
    assert(ok_key().len() != error_key().len());
    assert(result_key().len() != error_key().len());
    assert(ms[0].0 == ok_key());
    assert(lookup_v(ms, ok_key()) == Some(JsonV::Bool(p.ok)));
    let t1 = ms.drop_first();
    let t2 = t1.drop_first();
    match p.result {
        Some(v) => {
            match p.error {
                Some(m) => {
                    assert(ms =~= seq![
                        (ok_key(), JsonV::Bool(p.ok)),
                        (result_key(), v),
                        (error_key(), JsonV::Str(m)),
                    ]);
                    assert(t1[0] == (result_key(), v));
                    assert(t2[0] == (error_key(), JsonV::Str(m)));
                    lemma_lookup_skip(ms, result_key());
                    lemma_lookup_hit(t1, result_key());
                    lemma_lookup_skip(ms, error_key());
                    lemma_lookup_skip(t1, error_key());
                    lemma_lookup_hit(t2, error_key());
                },
                None => {
                    assert(ms =~= seq![(ok_key(), JsonV::Bool(p.ok)), (result_key(), v)]);
                    assert(t1[0] == (result_key(), v));
                    lemma_lookup_skip(ms, result_key());
                    lemma_lookup_hit(t1, result_key());
                    lemma_lookup_skip(ms, error_key());
                    lemma_lookup_skip(t1, error_key());
                    assert(t2.len() == 0);
                    assert(lookup_v(ms, error_key()) is None);
                },
            }
        },
        None => {
            match p.error {
                Some(m) => {
                    assert(ms =~= seq![
                        (ok_key(), JsonV::Bool(p.ok)),
                        (error_key(), JsonV::Str(m)),
                    ]);
                    assert(t1[0] == (error_key(), JsonV::Str(m)));
                    lemma_lookup_skip(ms, error_key());
                    lemma_lookup_hit(t1, error_key());
                    lemma_lookup_skip(ms, result_key());
                    lemma_lookup_skip(t1, result_key());
                    assert(t2.len() == 0);
                    assert(lookup_v(ms, result_key()) is None);
                },
                None => {
                    assert(ms =~= seq![(ok_key(), JsonV::Bool(p.ok))]);
                    lemma_lookup_skip(ms, result_key());
                    lemma_lookup_skip(ms, error_key());
                    assert(t1.len() == 0);
                    assert(lookup_v(ms, result_key()) is None);
                    assert(lookup_v(ms, error_key()) is None);
                },
            }
        },
    }
}

/// Turns a decoded reply into the call's outcome: the result on success
/// (null when absent), the helper's message as a failure otherwise.
pub fn interpret_response(resp: Response) -> (r: Result<JsonValue, BridgeError>)
    ensures
        resp@.ok ==> (r matches Ok(v) && jv(v) == (match resp@.result {
            Some(x) => x,
            None => JsonV::Null,
        })),
        !resp@.ok ==> (r matches Err(e) && e matches BridgeError::HelperReportedError(m) && m@
            == (match resp@.error {
            Some(t) => t,
            None => "Unknown helper error"@,
        })),
{
    let Response { ok, result, error } = resp;
    if ok {
        Ok(
            match result {
                Some(v) => v,
                None => JsonValue::Null,
            },
        )
    } else {
        Err(
            BridgeError::HelperReportedError(
                match error {
                    Some(m) => m,
                    None => String::from_str("Unknown helper error"),
                },
            ),
        )
    }
}

} // verus!
