//! Decoding of the engine's stream-follow replies.

use vstd::prelude::*;

use crate::decode::{sp_str_or_empty, sp_u64_or_zero, sp_u64_req};
use crate::json::{jget, JRep, JsonValue};

verus! {

/// One reassembled payload segment: its byte count, its bytes encoded
/// for transport, and its direction bit — zero for client to server, one
/// for server to client.
pub struct StreamPayload {
    pub n: u64,
    pub d: String,
    pub s: u8,
}

/// The mathematical shape of a payload segment.
pub struct PayloadRep {
    pub n: nat,
    pub d: Seq<char>,
    pub s: nat,
}

impl StreamPayload {
    /// The abstraction of this segment.
    pub open spec fn rep(self) -> PayloadRep {
        PayloadRep { n: self.n as nat, d: self.d@, s: self.s as nat }
    }
}

/// One reassembled conversation: the two ends, the byte totals per
/// direction, and the ordered payload segments.
pub struct StreamData {
    pub shost: String,
    pub sport: String,
    pub chost: String,
    pub cport: String,
    pub sbytes: u64,
    pub cbytes: u64,
    pub payloads: Vec<StreamPayload>,
}

/// The mathematical shape of a reassembled conversation.
pub struct StreamRep {
    pub shost: Seq<char>,
    pub sport: Seq<char>,
    pub chost: Seq<char>,
    pub cport: Seq<char>,
    pub sbytes: nat,
    pub cbytes: nat,
    pub payloads: Seq<PayloadRep>,
}

/// Abstractions of the segments, elementwise and in order.
pub open spec fn payload_reps(s: Seq<StreamPayload>) -> Seq<PayloadRep> {
    s.map_values(|p: StreamPayload| p.rep())
}

impl StreamData {
    /// The abstraction of this conversation.
    pub open spec fn rep(self) -> StreamRep {
        StreamRep {
            shost: self.shost@,
            sport: self.sport@,
            chost: self.chost@,
            cport: self.cport@,
            sbytes: self.sbytes as nat,
            cbytes: self.cbytes as nat,
            payloads: payload_reps(self.payloads@),
        }
    }
}

/// The segment a record decodes to: count, data and direction are all
/// required, and the direction must fit one byte.
pub open spec fn sp_payload_of(r: JRep) -> Option<PayloadRep> {
    match (sp_u64_req(r, "n"@), jget(r, "d"@), sp_u64_req(r, "s"@)) {
        (Some(n), Some(d), Some(s)) => match d {
            JRep::Str(ds) => if s <= 255 {
                Some(PayloadRep { n, d: ds, s })
            } else {
                None
            },
            _ => None,
        },
        _ => None,
    }
}

/// Decoding of each segment in a list.
pub open spec fn sp_payload_list(elems: Seq<JRep>) -> Option<Seq<PayloadRep>>
    decreases elems,
{
    if elems.len() == 0 {
        Some(Seq::empty())
    } else {
        match (sp_payload_list(elems.drop_last()), sp_payload_of(elems.last())) {
            (Some(pre), Some(p)) => Some(pre.push(p)),
            _ => None,
        }
    }
}

/// The conversation a `follow` reply decodes to: the ends and totals
/// default when absent; the segment list must decode record by record.
pub open spec fn sp_stream_of(r: JRep) -> Option<StreamRep> {
    match (sp_str_or_empty(r, "shost"@), sp_str_or_empty(r, "sport"@), sp_str_or_empty(
        r,
        "chost"@,
    ), sp_str_or_empty(r, "cport"@)) {
        (Some(shost), Some(sport), Some(chost), Some(cport)) => {
            match (sp_u64_or_zero(r, "sbytes"@), sp_u64_or_zero(r, "cbytes"@)) {
                (Some(sbytes), Some(cbytes)) => {
                    match jget(r, "payloads"@) {
                        None => Some(
                            StreamRep {
                                shost,
                                sport,
                                chost,
                                cport,
                                sbytes,
                                cbytes,
                                payloads: Seq::empty(),
                            },
                        ),
                        Some(p) => match p {
                            JRep::Arr(elems) => match sp_payload_list(elems) {
                                Some(payloads) => Some(
                                    StreamRep {
                                        shost,
                                        sport,
                                        chost,
                                        cport,
                                        sbytes,
                                        cbytes,
                                        payloads,
                                    },
                                ),
                                None => None,
                            },
                            _ => None,
                        },
                    }
                },
                _ => None,
            }
        },
        _ => None,
    }
}

fn payload_from_value(v: &JsonValue) -> (r: Option<StreamPayload>)
    ensures
        match (r, sp_payload_of(v.rep())) {
            (None, None) => true,
            (Some(p), Some(pr)) => p.rep() == pr,
            _ => false,
        },
{
    let n: Option<u64> = match v.get("n") {
        None => None,
        Some(x) => x.as_u64(),
    };
    let d: Option<String> = match v.get("d") {
        None => None,
        Some(x) => match x {
            JsonValue::Str(s) => Some(s.clone()),
            _ => None,
        },
    };
    let dir: Option<u64> = match v.get("s") {
        None => None,
        Some(x) => x.as_u64(),
    };
    match (n, d, dir) {
        (Some(n), Some(d), Some(dir)) => {
            if dir <= 255 {
                Some(StreamPayload { n, d, s: dir as u8 })
            } else {
                None
            }
        },
        _ => None,
    }
}

/// A segment that refuses to decode refuses the whole list.
proof fn lemma_payload_list_fail(elems: Seq<JRep>, i: int)
    requires
        0 <= i < elems.len(),
        sp_payload_of(elems[i]) is None,
    ensures
        sp_payload_list(elems) is None,
    decreases elems.len(),
{
    if elems.len() > 0 {
        if i == elems.len() - 1 {
        } else {
            lemma_payload_list_fail(elems.drop_last(), i);
        }
    }
}

/// Decodes a `follow` reply.
#[verifier::loop_isolation(false)]
pub fn stream_from_value(v: &JsonValue) -> (r: Option<StreamData>)
    ensures
        match (r, sp_stream_of(v.rep())) {
            (None, None) => true,
            (Some(s), Some(sr)) => s.rep() == sr,
            _ => false,
        },
{
    let shost: Option<String> = crate::decode::field_str_or_empty(v, "shost");
    let sport: Option<String> = crate::decode::field_str_or_empty(v, "sport");
    let chost: Option<String> = crate::decode::field_str_or_empty(v, "chost");
    let cport: Option<String> = crate::decode::field_str_or_empty(v, "cport");
    let sbytes: Option<u64> = crate::decode::field_u64_or_zero(v, "sbytes");
    let cbytes: Option<u64> = crate::decode::field_u64_or_zero(v, "cbytes");
    let (shost, sport, chost, cport): (String, String, String, String) = match (
        shost,
        sport,
        chost,
        cport,
    ) {
        (Some(a), Some(b), Some(c), Some(d)) => (a, b, c, d),
        _ => {
            return None;
        },
    };
    let (sbytes, cbytes): (u64, u64) = match (sbytes, cbytes) {
        (Some(a), Some(b)) => (a, b),
        _ => {
            return None;
        },
    };
    let mut payloads: Vec<StreamPayload> = Vec::new();
    proof {
        assert(payload_reps(payloads@) =~= Seq::<PayloadRep>::empty());
    }
    match v.get("payloads") {
        None => Some(StreamData { shost, sport, chost, cport, sbytes, cbytes, payloads }),
        Some(p) => match p {
            JsonValue::Arr(elems) => {
                let n: usize = elems.len();
                let mut i: usize = 0;
                proof {
                    crate::json::lemma_reps_of(elems@);
                }
                while i < n
                    invariant
                        0 <= i <= n,
                        sp_payload_list(crate::json::reps_of(elems@).take(i as int)) == Some(
                            payload_reps(payloads@),
                        ),
                    decreases n - i,
                {
                    proof {
                        assert(crate::json::reps_of(elems@).take(i as int + 1).drop_last()
                            =~= crate::json::reps_of(elems@).take(i as int));
                    }
                    match payload_from_value(&elems[i]) {
                        Some(p) => {
                            let ghost pre = payloads@;
                            let ghost prep = p.rep();
                            payloads.push(p);
                            proof {
                                assert(payload_reps(payloads@) =~= payload_reps(pre).push(prep));
                            }
                        },
                        None => {
                            proof {
                                lemma_payload_list_fail(crate::json::reps_of(elems@), i as int);
                            }
                            return None;
                        },
                    }
                    i = i + 1;
                }
                proof {
                    assert(crate::json::reps_of(elems@).take(n as int) =~= crate::json::reps_of(
                        elems@,
                    ));
                }
                Some(StreamData { shost, sport, chost, cport, sbytes, cbytes, payloads })
            },
            _ => None,
        },
    }
}

} // verus!
