//! Parameter objects for the engine's query methods.
//!
//! Each builder states the exact shape of the object it sends. The one
//! rule with teeth: a zero `skip` is omitted from the request entirely,
//! because the engine rejects an explicit zero in some builds; a positive
//! `skip` is included verbatim.

use vstd::prelude::*;

use crate::json::{
    dec_of, field_reps_of, lemma_field_reps_of, push_dec_u64, string_from_chars, u64_to_dec,
    JRep, JsonValue,
};

verus! {

/// Uppercase of one character, for the ASCII letters only.
pub open spec fn upper_char(c: char) -> char {
    if 97 <= c as u32 <= 122 {
        ((c as u32 - 32) as u8) as char
    } else {
        c
    }
}

/// Lowercase of one character, for the ASCII letters only.
pub open spec fn lower_char(c: char) -> char {
    if 65 <= c as u32 <= 90 {
        ((c as u32 + 32) as u8) as char
    } else {
        c
    }
}

/// ASCII uppercase of a whole string.
pub open spec fn upper_of(s: Seq<char>) -> Seq<char> {
    s.map_values(|c: char| upper_char(c))
}

/// ASCII lowercase of a whole string.
pub open spec fn lower_of(s: Seq<char>) -> Seq<char> {
    s.map_values(|c: char| lower_char(c))
}

/// ASCII uppercase; protocol names on this wire are ASCII.
#[verifier::loop_isolation(false)]
pub fn ascii_upper(s: &str) -> (r: String)
    ensures
        r@ == upper_of(s@),
{
    let len: usize = s.unicode_len();
    let mut out: Vec<char> = Vec::new();
    let mut i: usize = 0;
    while i < len
        invariant
            i <= len,
            out@.len() == i,
            forall|j: int| 0 <= j < i ==> out@[j] == upper_char(s@[j]),
        decreases len - i,
    {
        let c: char = s.get_char(i);
        let u: u32 = c as u32;
        if 97 <= u && u <= 122 {
            out.push(((u - 32) as u8) as char);
        } else {
            out.push(c);
        }
        i = i + 1;
    }
    proof {
        assert(out@ =~= upper_of(s@));
    }
    string_from_chars(&out)
}

/// ASCII lowercase; protocol names on this wire are ASCII.
#[verifier::loop_isolation(false)]
pub fn ascii_lower(s: &str) -> (r: String)
    ensures
        r@ == lower_of(s@),
{
    let len: usize = s.unicode_len();
    let mut out: Vec<char> = Vec::new();
    let mut i: usize = 0;
    while i < len
        invariant
            i <= len,
            out@.len() == i,
            forall|j: int| 0 <= j < i ==> out@[j] == lower_char(s@[j]),
        decreases len - i,
    {
        let c: char = s.get_char(i);
        let u: u32 = c as u32;
        if 65 <= u && u <= 90 {
            out.push(((u + 32) as u8) as char);
        } else {
            out.push(c);
        }
        i = i + 1;
    }
    proof {
        assert(out@ =~= lower_of(s@));
    }
    string_from_chars(&out)
}

/// The `frames` parameters: limit always, skip only when positive.
pub open spec fn sp_frames_params(skip: nat, limit: nat) -> JRep {
    if skip == 0 {
        JRep::Obj(seq![("limit"@, JRep::Num(dec_of(limit)))])
    } else {
        JRep::Obj(
            seq![("skip"@, JRep::Num(dec_of(skip))), ("limit"@, JRep::Num(dec_of(limit)))],
        )
    }
}

/// Builds the `frames` page parameters. A zero `skip` is omitted from
/// the object entirely; a positive one is included verbatim.
pub fn frames_params(skip: u32, limit: u32) -> (r: JsonValue)
    ensures
        r.rep() == sp_frames_params(skip as nat, limit as nat),
{
    let mut fields: Vec<(String, JsonValue)> = Vec::new();
    if skip > 0 {
        fields.push((String::from_str("skip"), JsonValue::Num(u64_to_dec(skip as u64))));
    }
    fields.push((String::from_str("limit"), JsonValue::Num(u64_to_dec(limit as u64))));
    proof {
        lemma_field_reps_of(fields@);
        if skip == 0 {
            assert(field_reps_of(fields@) =~= seq![("limit"@, JRep::Num(dec_of(limit as nat)))]);
        } else {
            assert(field_reps_of(fields@) =~= seq![
                ("skip"@, JRep::Num(dec_of(skip as nat))),
                ("limit"@, JRep::Num(dec_of(limit as nat))),
            ]);
        }
    }
    JsonValue::Obj(fields)
}

/// The filtered-search parameters: the filter, then the page, with the
/// same skip-omission rule as a plain page.
pub open spec fn sp_search_params(filter: Seq<char>, skip: nat, limit: nat) -> JRep {
    if skip == 0 {
        JRep::Obj(
            seq![("filter"@, JRep::Str(filter)), ("limit"@, JRep::Num(dec_of(limit)))],
        )
    } else {
        JRep::Obj(
            seq![
                ("filter"@, JRep::Str(filter)),
                ("skip"@, JRep::Num(dec_of(skip))),
                ("limit"@, JRep::Num(dec_of(limit))),
            ],
        )
    }
}

/// Builds the filtered `frames` parameters. A zero `skip` is omitted; a
/// positive one is included verbatim.
pub fn search_params(filter: &str, skip: u32, limit: u32) -> (r: JsonValue)
    ensures
        r.rep() == sp_search_params(filter@, skip as nat, limit as nat),
{
    let mut fields: Vec<(String, JsonValue)> = Vec::new();
    fields.push((String::from_str("filter"), JsonValue::Str(filter.to_owned())));
    if skip > 0 {
        fields.push((String::from_str("skip"), JsonValue::Num(u64_to_dec(skip as u64))));
    }
    fields.push((String::from_str("limit"), JsonValue::Num(u64_to_dec(limit as u64))));
    proof {
        lemma_field_reps_of(fields@);
        if skip == 0 {
            assert(field_reps_of(fields@) =~= seq![
                ("filter"@, JRep::Str(filter@)),
                ("limit"@, JRep::Num(dec_of(limit as nat))),
            ]);
        } else {
            assert(field_reps_of(fields@) =~= seq![
                ("filter"@, JRep::Str(filter@)),
                ("skip"@, JRep::Num(dec_of(skip as nat))),
                ("limit"@, JRep::Num(dec_of(limit as nat))),
            ]);
        }
    }
    JsonValue::Obj(fields)
}

/// The `load` parameters: the capture file's path.
pub open spec fn sp_load_params(path: Seq<char>) -> JRep {
    JRep::Obj(seq![("file"@, JRep::Str(path))])
}

/// Builds the `load` parameters.
pub fn load_params(path: &str) -> (r: JsonValue)
    ensures
        r.rep() == sp_load_params(path@),
{
    let mut fields: Vec<(String, JsonValue)> = Vec::new();
    fields.push((String::from_str("file"), JsonValue::Str(path.to_owned())));
    proof {
        lemma_field_reps_of(fields@);
        assert(field_reps_of(fields@) =~= seq![("file"@, JRep::Str(path@))]);
    }
    JsonValue::Obj(fields)
}

/// The `frame` parameters asking for the protocol tree and the bytes.
pub open spec fn sp_frame_detail_params(num: nat) -> JRep {
    JRep::Obj(
        seq![
            ("frame"@, JRep::Num(dec_of(num))),
            ("proto"@, JRep::Bool(true)),
            ("bytes"@, JRep::Bool(true)),
        ],
    )
}

/// Builds the `frame` parameters for a full detail request: the frame
/// number, the protocol tree, and the raw bytes.
pub fn frame_detail_params(frame_num: u32) -> (r: JsonValue)
    ensures
        r.rep() == sp_frame_detail_params(frame_num as nat),
{
    let mut fields: Vec<(String, JsonValue)> = Vec::new();
    fields.push((String::from_str("frame"), JsonValue::Num(u64_to_dec(frame_num as u64))));
    fields.push((String::from_str("proto"), JsonValue::Bool(true)));
    fields.push((String::from_str("bytes"), JsonValue::Bool(true)));
    proof {
        lemma_field_reps_of(fields@);
        assert(field_reps_of(fields@) =~= seq![
            ("frame"@, JRep::Num(dec_of(frame_num as nat))),
            ("proto"@, JRep::Bool(true)),
            ("bytes"@, JRep::Bool(true)),
        ]);
    }
    JsonValue::Obj(fields)
}

/// The `frame` parameters asking for the bytes alone.
pub open spec fn sp_frame_bytes_params(num: nat) -> JRep {
    JRep::Obj(seq![("frame"@, JRep::Num(dec_of(num))), ("bytes"@, JRep::Bool(true))])
}

/// Builds the `frame` parameters for a bytes-only request.
pub fn frame_bytes_params(frame_num: u32) -> (r: JsonValue)
    ensures
        r.rep() == sp_frame_bytes_params(frame_num as nat),
{
    let mut fields: Vec<(String, JsonValue)> = Vec::new();
    fields.push((String::from_str("frame"), JsonValue::Num(u64_to_dec(frame_num as u64))));
    fields.push((String::from_str("bytes"), JsonValue::Bool(true)));
    proof {
        lemma_field_reps_of(fields@);
        assert(field_reps_of(fields@) =~= seq![
            ("frame"@, JRep::Num(dec_of(frame_num as nat))),
            ("bytes"@, JRep::Bool(true)),
        ]);
    }
    JsonValue::Obj(fields)
}

/// The `check` parameters: the filter expression to validate.
pub open spec fn sp_check_params(filter: Seq<char>) -> JRep {
    JRep::Obj(seq![("filter"@, JRep::Str(filter))])
}

/// Builds the `check` parameters.
pub fn check_params(filter: &str) -> (r: JsonValue)
    ensures
        r.rep() == sp_check_params(filter@),
{
    let mut fields: Vec<(String, JsonValue)> = Vec::new();
    fields.push((String::from_str("filter"), JsonValue::Str(filter.to_owned())));
    proof {
        lemma_field_reps_of(fields@);
        assert(field_reps_of(fields@) =~= seq![("filter"@, JRep::Str(filter@))]);
    }
    JsonValue::Obj(fields)
}

/// The stream-selecting filter: the protocol lowercased, then
/// `.stream==`, then the stream id.
pub open spec fn sp_follow_filter(protocol: Seq<char>, stream_id: nat) -> Seq<char> {
    lower_of(protocol) + ".stream=="@ + dec_of(stream_id)
}

/// Builds the filter expression that selects one stream, e.g.
/// `tcp.stream==0`.
pub fn follow_filter(protocol: &str, stream_id: u32) -> (r: String)
    ensures
        r@ == sp_follow_filter(protocol@, stream_id as nat),
{
    let lower: String = ascii_lower(protocol);
    let mut out: Vec<char> = crate::json::chars_of_str(lower.as_str());
    let mut infix: Vec<char> = crate::json::chars_of_str(".stream==");
    out.append(&mut infix);
    push_dec_u64(stream_id as u64, &mut out);
    proof {
        assert(out@ =~= sp_follow_filter(protocol@, stream_id as nat));
    }
    string_from_chars(&out)
}

/// The `follow` parameters: the follow type is the protocol uppercased,
/// the filter selects the stream.
pub open spec fn sp_follow_params(protocol: Seq<char>, stream_id: nat) -> JRep {
    JRep::Obj(
        seq![
            ("follow"@, JRep::Str(upper_of(protocol))),
            ("filter"@, JRep::Str(sp_follow_filter(protocol, stream_id))),
        ],
    )
}

/// Builds the `follow` parameters for one stream.
pub fn follow_params(protocol: &str, stream_id: u32) -> (r: JsonValue)
    ensures
        r.rep() == sp_follow_params(protocol@, stream_id as nat),
{
    let upper: String = ascii_upper(protocol);
    let filter: String = follow_filter(protocol, stream_id);
    let mut fields: Vec<(String, JsonValue)> = Vec::new();
    fields.push((String::from_str("follow"), JsonValue::Str(upper)));
    fields.push((String::from_str("filter"), JsonValue::Str(filter)));
    proof {
        lemma_field_reps_of(fields@);
        assert(field_reps_of(fields@) =~= seq![
            ("follow"@, JRep::Str(upper_of(protocol@))),
            ("filter"@, JRep::Str(sp_follow_filter(protocol@, stream_id as nat))),
        ]);
    }
    JsonValue::Obj(fields)
}

/// The batched `tap` parameters: protocol hierarchy, TCP conversations,
/// UDP conversations, IPv4 endpoints, as four named sub-queries of one
/// request.
pub open spec fn sp_tap_params() -> JRep {
    JRep::Obj(
        seq![
            ("tap0"@, JRep::Str("phs"@)),
            ("tap1"@, JRep::Str("conv:TCP"@)),
            ("tap2"@, JRep::Str("conv:UDP"@)),
            ("tap3"@, JRep::Str("endpt:IPv4"@)),
        ],
    )
}

/// Builds the batched statistics `tap` parameters.
pub fn tap_params() -> (r: JsonValue)
    ensures
        r.rep() == sp_tap_params(),
{
    let mut fields: Vec<(String, JsonValue)> = Vec::new();
    fields.push((String::from_str("tap0"), JsonValue::Str(String::from_str("phs"))));
    fields.push((String::from_str("tap1"), JsonValue::Str(String::from_str("conv:TCP"))));
    fields.push((String::from_str("tap2"), JsonValue::Str(String::from_str("conv:UDP"))));
    fields.push((String::from_str("tap3"), JsonValue::Str(String::from_str("endpt:IPv4"))));
    proof {
        lemma_field_reps_of(fields@);
        assert(field_reps_of(fields@) =~= seq![
            ("tap0"@, JRep::Str("phs"@)),
            ("tap1"@, JRep::Str("conv:TCP"@)),
            ("tap2"@, JRep::Str("conv:UDP"@)),
            ("tap3"@, JRep::Str("endpt:IPv4"@)),
        ]);
    }
    JsonValue::Obj(fields)
}

} // verus!
