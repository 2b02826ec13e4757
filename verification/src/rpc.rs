//! The line-delimited JSON-RPC protocol spoken to the engine.
//!
//! A request is one JSON object on one line; the reply to it is the next
//! line read back. The id is a per-channel counter and does not correlate
//! replies to requests: the protocol is one request in flight at a time,
//! first in first out, so the caller must treat the write of a request
//! and the read of its reply as one indivisible exchange. The channel
//! type below enforces that by demanding exclusive access for the whole
//! exchange.

use vstd::prelude::*;

use crate::json::{
    all_digits, dec_of, dec_val, field_reps_of, jget, lemma_dec_of_injective,
    lemma_field_reps_of, parse_dec_u64, rep_get, string_from_chars, u64_to_dec, JRep, JsonValue,
};
use crate::json_in::{parse_json, sp_doc};
use crate::json_out::{render_rep, write_value};

verus! {

/// How a call can fail once the line transport has done its part.
#[derive(Debug, PartialEq, Eq)]
pub enum RpcError {
    /// The reply line was not JSON, or it held neither `result` nor
    /// `error`, or its `error` member was not shaped as documented.
    Protocol,
    /// The engine answered with an error object; its code and message are
    /// passed on intact.
    Remote { code: i64, message: String },
}

/// A well-formed signed integer lexeme: an optional minus, then digits.
pub open spec fn wf_int_lex(s: Seq<char>) -> bool {
    if s.len() > 0 && s[0] == '-' {
        s.len() > 1 && all_digits(s.drop_first())
    } else {
        s.len() > 0 && all_digits(s)
    }
}

/// The value of a signed integer lexeme.
pub open spec fn dec_ival(s: Seq<char>) -> int {
    if s.len() > 0 && s[0] == '-' {
        -(dec_val(s.drop_first()) as int)
    } else {
        dec_val(s) as int
    }
}

/// Reads `s` as a signed decimal numeral, when the value fits in an
/// `i64`.
pub fn parse_dec_i64(s: &str) -> (r: Option<i64>)
    ensures
        match r {
            Some(n) => wf_int_lex(s@) && n as int == dec_ival(s@),
            None => !wf_int_lex(s@) || dec_ival(s@) < i64::MIN || dec_ival(s@) > i64::MAX,
        },
{
    let len: usize = s.unicode_len();
    if len == 0 {
        return None;
    }
    if s.get_char(0) == '-' {
        let rest: &str = s.substring_char(1, len);
        proof {
            assert(rest@ =~= s@.drop_first());
        }
        match parse_dec_u64(rest) {
            None => None,
            Some(m) => {
                if m <= 0x7fff_ffff_ffff_ffff {
                    Some(-(m as i64))
                } else if m == 0x8000_0000_0000_0000 {
                    Some(i64::MIN)
                } else {
                    None
                }
            },
        }
    } else {
        match parse_dec_u64(s) {
            None => None,
            Some(m) => {
                if m <= 0x7fff_ffff_ffff_ffff {
                    Some(m as i64)
                } else {
                    None
                }
            },
        }
    }
}

/// The abstraction of an optional value.
pub open spec fn opt_rep(p: Option<JsonValue>) -> Option<JRep> {
    match p {
        None => None,
        Some(v) => Some(v.rep()),
    }
}

/// The request object for `method` under the given id: protocol version,
/// id, method, and the params only when there are any.
pub open spec fn sp_request(id: nat, method: Seq<char>, params: Option<JRep>) -> JRep {
    let base = seq![
        ("jsonrpc"@, JRep::Str("2.0"@)),
        ("id"@, JRep::Num(dec_of(id))),
        ("method"@, JRep::Str(method)),
    ];
    match params {
        None => JRep::Obj(base),
        Some(p) => JRep::Obj(base.push(("params"@, p))),
    }
}

/// Builds the request object for `method`.
pub fn request_value(id: u64, method: &str, params: Option<JsonValue>) -> (r: JsonValue)
    ensures
        r.rep() == sp_request(id as nat, method@, opt_rep(params)),
{
    let ghost params_rep = opt_rep(params);
    let mut fields: Vec<(String, JsonValue)> = Vec::new();
    fields.push((String::from_str("jsonrpc"), JsonValue::Str(String::from_str("2.0"))));
    fields.push((String::from_str("id"), JsonValue::Num(u64_to_dec(id))));
    fields.push((String::from_str("method"), JsonValue::Str(method.to_owned())));
    match params {
        None => {},
        Some(p) => {
            fields.push((String::from_str("params"), p));
        },
    }
    proof {
        lemma_field_reps_of(fields@);
        match params_rep {
            None => {
                assert(field_reps_of(fields@) =~= seq![
                    ("jsonrpc"@, JRep::Str("2.0"@)),
                    ("id"@, JRep::Num(dec_of(id as nat))),
                    ("method"@, JRep::Str(method@)),
                ]);
            },
            Some(p) => {
                assert(field_reps_of(fields@) =~= seq![
                    ("jsonrpc"@, JRep::Str("2.0"@)),
                    ("id"@, JRep::Num(dec_of(id as nat))),
                    ("method"@, JRep::Str(method@)),
                ].push(("params"@, p)));
            },
        }
    }
    JsonValue::Obj(fields)
}

/// The wire line for `method` under the given id: the request text and a
/// newline.
pub fn encode_request(id: u64, method: &str, params: Option<JsonValue>) -> (r: String)
    ensures
        r@ == render_rep(sp_request(id as nat, method@, opt_rep(params))) + seq!['\n'],
{
    let ghost params_rep = opt_rep(params);
    let v: JsonValue = request_value(id, method, params);
    let mut out: Vec<char> = Vec::new();
    write_value(&v, &mut out);
    out.push('\n');
    proof {
        assert(out@ =~= render_rep(sp_request(id as nat, method@, params_rep)) + seq!['\n']);
    }
    string_from_chars(&out)
}

/// What a decoded reply means.
pub enum SpDecoded {
    /// The reply carried this result.
    Value(JRep),
    /// The reply carried an error with this code and message.
    Remote(int, Seq<char>),
    /// The reply was not shaped as a reply.
    Protocol,
}

/// Code and message of an error object, when it is shaped as documented:
/// an integer `code` and a string `message`.
pub open spec fn sp_error_parts(e: JRep) -> Option<(int, Seq<char>)> {
    match (jget(e, "code"@), jget(e, "message"@)) {
        (Some(c), Some(m)) => match (c, m) {
            (JRep::Num(cs), JRep::Str(ms)) => if wf_int_lex(cs) {
                Some((dec_ival(cs), ms))
            } else {
                None
            },
            _ => None,
        },
        _ => None,
    }
}

/// The meaning of a reply object: an `error` member wins and yields the
/// remote failure; otherwise a `result` member yields the value; a reply
/// with neither, or a malformed error, is a protocol failure.
pub open spec fn sp_decode(r: JRep) -> SpDecoded {
    match jget(r, "error"@) {
        Some(e) => match sp_error_parts(e) {
            Some(p) => if i64::MIN <= p.0 <= i64::MAX {
                SpDecoded::Remote(p.0, p.1)
            } else {
                SpDecoded::Protocol
            },
            None => SpDecoded::Protocol,
        },
        None => match jget(r, "result"@) {
            Some(v) => SpDecoded::Value(v),
            None => SpDecoded::Protocol,
        },
    }
}

/// Whether an exec decode outcome means what the spec decode says.
pub open spec fn decoded_matches(r: Result<JsonValue, RpcError>, sp: SpDecoded) -> bool {
    match sp {
        SpDecoded::Value(rv) => match r {
            Ok(v) => v.rep() == rv,
            Err(_) => false,
        },
        SpDecoded::Remote(c, m) => match r {
            Err(RpcError::Remote { code, message }) => code as int == c && message@ == m,
            _ => false,
        },
        SpDecoded::Protocol => r == Err::<JsonValue, RpcError>(RpcError::Protocol),
    }
}

/// Index of the first field named `key`.
fn find_field(fields: &Vec<(String, JsonValue)>, key: &str) -> (r: Option<usize>)
    ensures
        match r {
            Some(idx) => idx < fields@.len() && fields@[idx as int].0@ == key@ && rep_get(
                field_reps_of(fields@),
                key@,
            ) == Some(fields@[idx as int].1.rep()),
            None => rep_get(field_reps_of(fields@), key@) is None,
        },
{
    proof {
        lemma_field_reps_of(fields@);
        assert(field_reps_of(fields@).skip(0) =~= field_reps_of(fields@));
    }
    let n: usize = fields.len();
    let mut i: usize = 0;
    while i < n
        invariant
            0 <= i <= n,
            n == fields@.len(),
            rep_get(field_reps_of(fields@), key@) == rep_get(
                field_reps_of(fields@).skip(i as int),
                key@,
            ),
            field_reps_of(fields@).len() == n,
            forall|j: int| 0 <= j < n ==> #[trigger] field_reps_of(fields@)[j] == (
                fields@[j].0@,
                fields@[j].1.rep(),
            ),
        decreases n - i,
    {
        proof {
            assert(field_reps_of(fields@).skip(i as int).first() == field_reps_of(fields@)[
                i as int
            ]);
            assert(field_reps_of(fields@).skip(i as int).drop_first() =~= field_reps_of(
                fields@,
            ).skip(i as int + 1));
        }
        if crate::json::str_eq(fields[i].0.as_str(), key) {
            return Some(i);
        }
        i = i + 1;
    }
    proof {
        assert(field_reps_of(fields@).skip(n as int) =~= Seq::empty());
    }
    None
}

/// Decodes a reply object, handing the result value out of it.
pub fn decode_response_value(v: JsonValue) -> (r: Result<JsonValue, RpcError>)
    ensures
        decoded_matches(r, sp_decode(v.rep())),
{
    match v {
        JsonValue::Obj(mut fields) => {
            let err_idx: Option<usize> = find_field(&fields, "error");
            match err_idx {
                Some(i) => {
                    let code: Option<i64> = match fields[i].1.get("code") {
                        Some(c) => match c {
                            JsonValue::Num(cs) => parse_dec_i64(cs.as_str()),
                            _ => None,
                        },
                        None => None,
                    };
                    match code {
                        None => Err(RpcError::Protocol),
                        Some(code) => match fields[i].1.get("message") {
                            Some(m) => match m {
                                JsonValue::Str(ms) => Err(
                                    RpcError::Remote { code, message: ms.clone() },
                                ),
                                _ => Err(RpcError::Protocol),
                            },
                            None => Err(RpcError::Protocol),
                        },
                    }
                },
                None => {
                    let res_idx: Option<usize> = find_field(&fields, "result");
                    match res_idx {
                        Some(i) => {
                            let pair: (String, JsonValue) = fields.remove(i);
                            Ok(pair.1)
                        },
                        None => Err(RpcError::Protocol),
                    }
                },
            }
        },
        _ => Err(RpcError::Protocol),
    }
}

/// The meaning of a raw reply line: parse, then decode; a line that does
/// not parse is a protocol failure.
pub open spec fn sp_decode_line(s: Seq<char>) -> SpDecoded {
    match sp_doc(s) {
        None => SpDecoded::Protocol,
        Some(r) => sp_decode(r),
    }
}

/// Decodes one raw reply line.
pub fn decode_response_line(line: &str) -> (r: Result<JsonValue, RpcError>)
    ensures
        decoded_matches(r, sp_decode_line(line@)),
{
    match parse_json(line) {
        None => Err(RpcError::Protocol),
        Some(v) => decode_response_value(v),
    }
}

/// The caller-side state of one protocol channel: only the id counter.
/// The pipes themselves stay with the process owner; exclusive access to
/// the channel for a whole exchange is what keeps exchanges apart.
pub struct RpcChannel {
    pub next_id: u64,
}

impl RpcChannel {
    /// A fresh channel; ids start at one.
    pub fn new() -> (r: Self)
        ensures
            r.next_id == 1,
    {
        RpcChannel { next_id: 1 }
    }

    /// One atomic exchange against the engine double: encode the request
    /// under this channel's next id, hand the wire line over, let the
    /// engine read it and serve it, decode the answer. The caller holds
    /// the channel and the engine exclusively for the whole exchange,
    /// which is the concurrency discipline the protocol demands; the
    /// answer is always the one tagged with this exchange's own request
    /// id.
    pub fn call_stub(&mut self, eng: &mut StubEngine, method: &str, params: Option<JsonValue>) -> (r:
        Result<JsonValue, RpcError>)
        requires
            old(self).next_id < u64::MAX,
            (opt_rep(params) matches Some(p) ==> crate::json_props::wf_rep(p)),
            render_rep(
                sp_request(old(self).next_id as nat, method@, opt_rep(params)),
            ).len() + 1 <= crate::json_in::LINE_LIMIT,
        ensures
            final(self).next_id == old(self).next_id + 1,
            match r {
                Ok(v) => v.rep() == sp_answer_tag(old(self).next_id as nat),
                Err(_) => false,
            },
    {
        let ghost prep = opt_rep(params);
        let id: u64 = self.next_id;
        self.next_id = self.next_id + 1;
        let line: String = encode_request(id, method, params);
        proof {
            crate::json_props::lemma_wf_request(id as nat, method@, prep);
            crate::json_props::lemma_parse_render_line(sp_request(id as nat, method@, prep));
            lemma_request_id_lex(id as nat, method@, prep);
            lemma_response_lex_decodes(dec_of(id as nat), sp_answer_tag(id as nat));
        }
        match parse_json(line.as_str()) {
            Some(req) => {
                let resp: JsonValue = eng.serve(&req);
                decode_response_value(resp)
            },
            None => {
                proof {
                    assert(false);
                }
                Err(RpcError::Protocol)
            },
        }
    }

    /// Claims the next request id and builds the wire line for `method`.
    pub fn encode_next(&mut self, method: &str, params: Option<JsonValue>) -> (r: (u64, String))
        requires
            old(self).next_id < u64::MAX,
        ensures
            final(self).next_id == old(self).next_id + 1,
            r.0 == old(self).next_id,
            r.1@ == render_rep(sp_request(old(self).next_id as nat, method@, opt_rep(params)))
                + seq!['\n'],
    {
        let ghost params_rep = opt_rep(params);
        let id: u64 = self.next_id;
        self.next_id = self.next_id + 1;
        let line: String = encode_request(id, method, params);
        (id, line)
    }
}

/// A response object around a result, with the id kept as its lexeme.
pub open spec fn sp_response_lex(idlex: Seq<char>, v: JRep) -> JRep {
    JRep::Obj(
        seq![("jsonrpc"@, JRep::Str("2.0"@)), ("id"@, JRep::Num(idlex)), ("result"@, v)],
    )
}

/// A response object around a result under a numeric id.
pub open spec fn sp_response(id: nat, v: JRep) -> JRep {
    sp_response_lex(dec_of(id), v)
}

/// A well-shaped response around any result value decodes to exactly
/// that value.
pub proof fn lemma_response_lex_decodes(idlex: Seq<char>, v: JRep)
    ensures
        sp_decode(sp_response_lex(idlex, v)) == SpDecoded::Value(v),
{
    reveal_strlit("jsonrpc");
    reveal_strlit("id");
    reveal_strlit("result");
    reveal_strlit("error");
    reveal_with_fuel(rep_get, 5);
    let fields = seq![
        ("jsonrpc"@, JRep::Str("2.0"@)),
        ("id"@, JRep::Num(idlex)),
        ("result"@, v),
    ];
    assert("jsonrpc"@.len() == 7);
    assert("id"@.len() == 2);
    assert("result"@.len() == 6);
    assert("error"@.len() == 5);
    assert("jsonrpc"@ != "error"@);
    assert("id"@ != "error"@);
    assert("result"@ != "error"@);
    assert("jsonrpc"@ != "result"@);
    assert("id"@ != "result"@);
    assert(fields.drop_first() =~= seq![("id"@, JRep::Num(idlex)), ("result"@, v)]);
    assert(fields.drop_first().drop_first() =~= seq![("result"@, v)]);
    assert(fields.drop_first().drop_first().drop_first() =~= Seq::<(Seq<char>, JRep)>::empty());
    assert(rep_get(fields, "error"@) is None);
    assert(rep_get(fields, "result"@) == Some(v));
}

/// Identity law of the channel: decoding a response built around any
/// result value hands that value back unchanged.
pub proof fn lemma_decode_response_identity(id: nat, v: JRep)
    ensures
        sp_decode(sp_response(id, v)) == SpDecoded::Value(v),
{
    lemma_response_lex_decodes(dec_of(id), v);
}

/// The id lexeme a request object carries.
pub open spec fn sp_req_id_lex(req: JRep) -> Seq<char> {
    match jget(req, "id"@) {
        Some(r) => match r {
            JRep::Num(s) => s,
            _ => Seq::empty(),
        },
        _ => Seq::empty(),
    }
}

/// A request built under `id` carries exactly the numeral of `id`.
pub proof fn lemma_request_id_lex(id: nat, method: Seq<char>, params: Option<JRep>)
    ensures
        sp_req_id_lex(sp_request(id, method, params)) == dec_of(id),
{
    reveal_strlit("jsonrpc");
    reveal_strlit("id");
    reveal_strlit("method");
    reveal_strlit("params");
    reveal_with_fuel(rep_get, 5);
    assert("jsonrpc"@.len() == 7);
    assert("id"@.len() == 2);
    assert("jsonrpc"@ != "id"@);
    let base = seq![
        ("jsonrpc"@, JRep::Str("2.0"@)),
        ("id"@, JRep::Num(dec_of(id))),
        ("method"@, JRep::Str(method)),
    ];
    match params {
        None => {
            assert(base.drop_first() =~= seq![
                ("id"@, JRep::Num(dec_of(id))),
                ("method"@, JRep::Str(method)),
            ]);
            assert(rep_get(base, "id"@) == Some(JRep::Num(dec_of(id))));
        },
        Some(p) => {
            let full = base.push(("params"@, p));
            assert(full.drop_first() =~= seq![
                ("id"@, JRep::Num(dec_of(id))),
                ("method"@, JRep::Str(method)),
                ("params"@, p),
            ]);
            assert(rep_get(full, "id"@) == Some(JRep::Num(dec_of(id))));
        },
    }
}

/// The result value the engine double answers with: it names the id of
/// the request it answers.
pub open spec fn sp_answer_tag(id: nat) -> JRep {
    JRep::Obj(seq![("answered"@, JRep::Num(dec_of(id)))])
}

/// The whole answer of the engine double to a request.
pub open spec fn sp_stub_response(req: JRep) -> JRep {
    sp_response_lex(
        sp_req_id_lex(req),
        JRep::Obj(seq![("answered"@, JRep::Num(sp_req_id_lex(req)))]),
    )
}

/// An engine double for reasoning and tests: strictly synchronous, one
/// request at a time, each answer tagged with the id of the request it
/// answers.
pub struct StubEngine {
    /// How many requests this double has served.
    pub served: u64,
}

impl StubEngine {
    /// A fresh double that has served nothing.
    pub fn new() -> (r: Self)
        ensures
            r.served == 0,
    {
        StubEngine { served: 0 }
    }

    /// Serves one request: the answer carries the request's own id, both
    /// as the response id and inside the result.
    pub fn serve(&mut self, req: &JsonValue) -> (r: JsonValue)
        ensures
            r.rep() == sp_stub_response(req.rep()),
            final(self).served == if old(self).served < u64::MAX {
                old(self).served + 1
            } else {
                old(self).served as int
            },
    {
        if self.served < u64::MAX {
            self.served = self.served + 1;
        }
        let idlex: String = match req.get("id") {
            Some(x) => match x {
                JsonValue::Num(s) => s.clone(),
                _ => String::new(),
            },
            _ => String::new(),
        };
        let mut tag_fields: Vec<(String, JsonValue)> = Vec::new();
        tag_fields.push((String::from_str("answered"), JsonValue::Num(idlex.clone())));
        proof {
            lemma_field_reps_of(tag_fields@);
            assert(field_reps_of(tag_fields@) =~= seq![
                ("answered"@, JRep::Num(sp_req_id_lex(req.rep()))),
            ]);
        }
        let tag: JsonValue = JsonValue::Obj(tag_fields);
        let mut fields: Vec<(String, JsonValue)> = Vec::new();
        fields.push((String::from_str("jsonrpc"), JsonValue::Str(String::from_str("2.0"))));
        fields.push((String::from_str("id"), JsonValue::Num(idlex)));
        fields.push((String::from_str("result"), tag));
        proof {
            lemma_field_reps_of(fields@);
            assert(field_reps_of(fields@) =~= seq![
                ("jsonrpc"@, JRep::Str("2.0"@)),
                ("id"@, JRep::Num(sp_req_id_lex(req.rep()))),
                ("result"@, JRep::Obj(seq![("answered"@, JRep::Num(sp_req_id_lex(req.rep())))])),
            ]);
        }
        JsonValue::Obj(fields)
    }
}

/// Pairing law: answers to exchanges with distinct ids are distinct, so
/// under the exclusive-exchange discipline no caller can be handed
/// another caller's answer.
pub proof fn lemma_answers_pair_one_to_one(id1: nat, id2: nat)
    requires
        id1 != id2,
    ensures
        sp_answer_tag(id1) != sp_answer_tag(id2),
{
    lemma_dec_of_injective(id1, id2);
    assert(sp_answer_tag(id1)->Obj_0[0].1 == JRep::Num(dec_of(id1)));
    assert(sp_answer_tag(id2)->Obj_0[0].1 == JRep::Num(dec_of(id2)));
}

} // verus!
