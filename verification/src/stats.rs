//! Decoding of the batched statistics reply: protocol hierarchy,
//! conversations and endpoints, located among the tap result blocks by
//! their tag — never by position, because the engine returns the blocks
//! in no specified order. A tap absent from the reply is an empty data
//! set, not an error.

use vstd::prelude::*;

use crate::decode::{
    field_opt_num_text, field_opt_str, field_str_or_empty, field_u64_or_zero, opt_view,
    sp_opt_num_text, sp_opt_str, sp_str_or_empty, sp_u64_or_zero,
};
use crate::json::{jget, JRep, JsonValue};

verus! {

/// Deepest protocol nesting the decoder accepts. The engine's
/// hierarchies stay under ten levels; anything deeper is refused and so
/// decodes to an empty hierarchy.
pub const PROTO_DEPTH_LIMIT: u64 = 64;

/// One node of the protocol hierarchy: the protocol, its frame and byte
/// counts, and the sub-protocols layered on it within the same frames.
pub struct ProtocolNode {
    pub protocol: String,
    pub frames: u64,
    pub bytes: u64,
    pub children: Vec<ProtocolNode>,
}

/// The mathematical shape of a hierarchy node.
pub enum ProtoRep {
    Node { protocol: Seq<char>, frames: nat, bytes: nat, children: Seq<ProtoRep> },
}

impl ProtocolNode {
    /// The abstraction of this node.
    pub open spec fn rep(self) -> ProtoRep
        decreases self,
    {
        ProtoRep::Node {
            protocol: self.protocol@,
            frames: self.frames as nat,
            bytes: self.bytes as nat,
            children: proto_reps_of(self.children@),
        }
    }
}

/// Abstractions of a node list, elementwise and in order.
pub open spec fn proto_reps_of(s: Seq<ProtocolNode>) -> Seq<ProtoRep>
    decreases s,
{
    if s.len() == 0 {
        Seq::empty()
    } else {
        proto_reps_of(s.drop_last()).push(s.last().rep())
    }
}

pub proof fn lemma_proto_reps_of(s: Seq<ProtocolNode>)
    ensures
        proto_reps_of(s).len() == s.len(),
        forall|i: int| 0 <= i < s.len() ==> #[trigger] proto_reps_of(s)[i] == s[i].rep(),
    decreases s,
{
    if s.len() > 0 {
        lemma_proto_reps_of(s.drop_last());
    }
}

/// The node a record decodes to, down to the given depth: the name under
/// `proto` is required, the counts default to zero, the children under
/// `protos` default to none.
pub open spec fn sp_proto_of(r: JRep, fuel: nat) -> Option<ProtoRep>
    decreases fuel, 0int,
{
    if fuel == 0 {
        None
    } else {
        match jget(r, "proto"@) {
            Some(namev) => match namev {
                JRep::Str(name) => match (sp_u64_or_zero(r, "frames"@), sp_u64_or_zero(
                    r,
                    "bytes"@,
                )) {
                    (Some(frames), Some(bytes)) => match jget(r, "protos"@) {
                        None => Some(
                            ProtoRep::Node { protocol: name, frames, bytes, children: Seq::empty() },
                        ),
                        Some(c) => match c {
                            JRep::Arr(es) => match sp_proto_list(es, (fuel - 1) as nat) {
                                Some(children) => Some(
                                    ProtoRep::Node { protocol: name, frames, bytes, children },
                                ),
                                None => None,
                            },
                            _ => None,
                        },
                    },
                    _ => None,
                },
                _ => None,
            },
            None => None,
        }
    }
}

/// Decoding of each node in a list, down to the given depth.
pub open spec fn sp_proto_list(es: Seq<JRep>, fuel: nat) -> Option<Seq<ProtoRep>>
    decreases fuel, es.len() + 1,
{
    if es.len() == 0 {
        Some(Seq::empty())
    } else {
        match (sp_proto_list(es.drop_last(), fuel), sp_proto_of(es.last(), fuel)) {
            (Some(pre), Some(p)) => Some(pre.push(p)),
            _ => None,
        }
    }
}

/// A node that refuses to decode refuses the whole list.
proof fn lemma_proto_list_fail(es: Seq<JRep>, i: int, fuel: nat)
    requires
        0 <= i < es.len(),
        sp_proto_of(es[i], fuel) is None,
    ensures
        sp_proto_list(es, fuel) is None,
    decreases es.len(),
{
    if es.len() > 0 {
        if i == es.len() - 1 {
        } else {
            lemma_proto_list_fail(es.drop_last(), i, fuel);
        }
    }
}

/// Decodes one hierarchy node, down to the given depth.
#[verifier::loop_isolation(false)]
pub fn proto_from_value(v: &JsonValue, fuel: u64) -> (r: Option<ProtocolNode>)
    ensures
        match (r, sp_proto_of(v.rep(), fuel as nat)) {
            (None, None) => true,
            (Some(p), Some(pr)) => p.rep() == pr,
            _ => false,
        },
    decreases fuel, 0int,
{
    if fuel == 0 {
        return None;
    }
    let name: String = match v.get("proto") {
        Some(x) => match x {
            JsonValue::Str(s) => s.clone(),
            _ => {
                return None;
            },
        },
        None => {
            return None;
        },
    };
    let frames: u64 = match field_u64_or_zero(v, "frames") {
        Some(n) => n,
        None => {
            return None;
        },
    };
    let bytes: u64 = match field_u64_or_zero(v, "bytes") {
        Some(n) => n,
        None => {
            return None;
        },
    };
    match v.get("protos") {
        None => Some(
            ProtocolNode { protocol: name, frames, bytes, children: Vec::new() },
        ),
        Some(c) => match c {
            JsonValue::Arr(es) => match protos_from_array(es, fuel - 1) {
                Some(children) => Some(ProtocolNode { protocol: name, frames, bytes, children }),
                None => None,
            },
            _ => None,
        },
    }
}

/// Decodes a list of hierarchy nodes, down to the given depth.
#[verifier::loop_isolation(false)]
pub fn protos_from_array(es: &Vec<JsonValue>, fuel: u64) -> (r: Option<Vec<ProtocolNode>>)
    ensures
        match (r, sp_proto_list(crate::json::reps_of(es@), fuel as nat)) {
            (None, None) => true,
            (Some(ns), Some(nrs)) => proto_reps_of(ns@) == nrs,
            _ => false,
        },
    decreases fuel, 1int,
{
    let mut nodes: Vec<ProtocolNode> = Vec::new();
    let n: usize = es.len();
    let mut i: usize = 0;
    proof {
        crate::json::lemma_reps_of(es@);
        lemma_proto_reps_of(nodes@);
    }
    while i < n
        invariant
            0 <= i <= n,
            sp_proto_list(crate::json::reps_of(es@).take(i as int), fuel as nat) == Some(
                proto_reps_of(nodes@),
            ),
        decreases n - i,
    {
        proof {
            assert(crate::json::reps_of(es@).take(i as int + 1).drop_last()
                =~= crate::json::reps_of(es@).take(i as int));
        }
        match proto_from_value(&es[i], fuel) {
            Some(p) => {
                let ghost pre = nodes@;
                let ghost prep = p.rep();
                nodes.push(p);
                proof {
                    lemma_proto_reps_of(pre);
                    lemma_proto_reps_of(nodes@);
                    assert(proto_reps_of(nodes@) =~= proto_reps_of(pre).push(prep));
                }
            },
            None => {
                proof {
                    lemma_proto_list_fail(crate::json::reps_of(es@), i as int, fuel as nat);
                }
                return None;
            },
        }
        i = i + 1;
    }
    proof {
        assert(crate::json::reps_of(es@).take(n as int) =~= crate::json::reps_of(es@));
    }
    Some(nodes)
}

/// One conversation row: the two addresses with their optional ports,
/// the frame and byte counts each way, the optional time bounds kept as
/// the engine's decimal text, and the optional filter that would isolate
/// the conversation.
pub struct Conversation {
    pub saddr: String,
    pub daddr: String,
    pub sport: Option<String>,
    pub dport: Option<String>,
    pub rxf: u64,
    pub rxb: u64,
    pub txf: u64,
    pub txb: u64,
    pub start: Option<String>,
    pub stop: Option<String>,
    pub filter: Option<String>,
}

/// The mathematical shape of a conversation row.
pub struct ConvRep {
    pub saddr: Seq<char>,
    pub daddr: Seq<char>,
    pub sport: Option<Seq<char>>,
    pub dport: Option<Seq<char>>,
    pub rxf: nat,
    pub rxb: nat,
    pub txf: nat,
    pub txb: nat,
    pub start: Option<Seq<char>>,
    pub stop: Option<Seq<char>>,
    pub filter: Option<Seq<char>>,
}

impl Conversation {
    /// The abstraction of this row.
    pub open spec fn rep(self) -> ConvRep {
        ConvRep {
            saddr: self.saddr@,
            daddr: self.daddr@,
            sport: opt_view(self.sport),
            dport: opt_view(self.dport),
            rxf: self.rxf as nat,
            rxb: self.rxb as nat,
            txf: self.txf as nat,
            txb: self.txb as nat,
            start: opt_view(self.start),
            stop: opt_view(self.stop),
            filter: opt_view(self.filter),
        }
    }
}

/// The row a record decodes to; every member has a default.
pub open spec fn sp_conv_of(r: JRep) -> Option<ConvRep> {
    match (sp_str_or_empty(r, "saddr"@), sp_str_or_empty(r, "daddr"@), sp_opt_str(
        r,
        "sport"@,
    ), sp_opt_str(r, "dport"@)) {
        (Some(saddr), Some(daddr), Some(sport), Some(dport)) => {
            match (sp_u64_or_zero(r, "rxf"@), sp_u64_or_zero(r, "rxb"@), sp_u64_or_zero(
                r,
                "txf"@,
            ), sp_u64_or_zero(r, "txb"@)) {
                (Some(rxf), Some(rxb), Some(txf), Some(txb)) => {
                    match (sp_opt_num_text(r, "start"@), sp_opt_num_text(r, "stop"@), sp_opt_str(
                        r,
                        "filter"@,
                    )) {
                        (Some(start), Some(stop), Some(filter)) => Some(
                            ConvRep {
                                saddr,
                                daddr,
                                sport,
                                dport,
                                rxf,
                                rxb,
                                txf,
                                txb,
                                start,
                                stop,
                                filter,
                            },
                        ),
                        _ => None,
                    }
                },
                _ => None,
            }
        },
        _ => None,
    }
}

/// Decodes one conversation row.
pub fn conv_from_value(v: &JsonValue) -> (r: Option<Conversation>)
    ensures
        match (r, sp_conv_of(v.rep())) {
            (None, None) => true,
            (Some(c), Some(cr)) => c.rep() == cr,
            _ => false,
        },
{
    match (field_str_or_empty(v, "saddr"), field_str_or_empty(v, "daddr"), field_opt_str(
        v,
        "sport",
    ), field_opt_str(v, "dport")) {
        (Some(saddr), Some(daddr), Some(sport), Some(dport)) => {
            match (field_u64_or_zero(v, "rxf"), field_u64_or_zero(v, "rxb"), field_u64_or_zero(
                v,
                "txf",
            ), field_u64_or_zero(v, "txb")) {
                (Some(rxf), Some(rxb), Some(txf), Some(txb)) => {
                    match (field_opt_num_text(v, "start"), field_opt_num_text(v, "stop"),
                    field_opt_str(v, "filter")) {
                        (Some(start), Some(stop), Some(filter)) => Some(
                            Conversation {
                                saddr,
                                daddr,
                                sport,
                                dport,
                                rxf,
                                rxb,
                                txf,
                                txb,
                                start,
                                stop,
                                filter,
                            },
                        ),
                        _ => None,
                    }
                },
                _ => None,
            }
        },
        _ => None,
    }
}

/// One endpoint row: the address with its optional port, the counts each
/// way, and the optional filter that would isolate the endpoint.
pub struct Endpoint {
    pub host: String,
    pub port: Option<String>,
    pub rxf: u64,
    pub rxb: u64,
    pub txf: u64,
    pub txb: u64,
    pub filter: Option<String>,
}

/// The mathematical shape of an endpoint row.
pub struct EndpointRep {
    pub host: Seq<char>,
    pub port: Option<Seq<char>>,
    pub rxf: nat,
    pub rxb: nat,
    pub txf: nat,
    pub txb: nat,
    pub filter: Option<Seq<char>>,
}

impl Endpoint {
    /// The abstraction of this row.
    pub open spec fn rep(self) -> EndpointRep {
        EndpointRep {
            host: self.host@,
            port: opt_view(self.port),
            rxf: self.rxf as nat,
            rxb: self.rxb as nat,
            txf: self.txf as nat,
            txb: self.txb as nat,
            filter: opt_view(self.filter),
        }
    }
}

/// The row a record decodes to; every member has a default.
pub open spec fn sp_endpoint_of(r: JRep) -> Option<EndpointRep> {
    match (sp_str_or_empty(r, "host"@), sp_opt_str(r, "port"@)) {
        (Some(host), Some(port)) => {
            match (sp_u64_or_zero(r, "rxf"@), sp_u64_or_zero(r, "rxb"@), sp_u64_or_zero(
                r,
                "txf"@,
            ), sp_u64_or_zero(r, "txb"@), sp_opt_str(r, "filter"@)) {
                (Some(rxf), Some(rxb), Some(txf), Some(txb), Some(filter)) => Some(
                    EndpointRep { host, port, rxf, rxb, txf, txb, filter },
                ),
                _ => None,
            }
        },
        _ => None,
    }
}

/// Decodes one endpoint row.
pub fn endpoint_from_value(v: &JsonValue) -> (r: Option<Endpoint>)
    ensures
        match (r, sp_endpoint_of(v.rep())) {
            (None, None) => true,
            (Some(e), Some(er)) => e.rep() == er,
            _ => false,
        },
{
    match (field_str_or_empty(v, "host"), field_opt_str(v, "port")) {
        (Some(host), Some(port)) => {
            match (field_u64_or_zero(v, "rxf"), field_u64_or_zero(v, "rxb"), field_u64_or_zero(
                v,
                "txf",
            ), field_u64_or_zero(v, "txb"), field_opt_str(v, "filter")) {
                (Some(rxf), Some(rxb), Some(txf), Some(txb), Some(filter)) => Some(
                    Endpoint { host, port, rxf, rxb, txf, txb, filter },
                ),
                _ => None,
            }
        },
        _ => None,
    }
}

/// Abstractions of decoded conversation rows, elementwise and in order.
pub open spec fn conv_reps(s: Seq<Conversation>) -> Seq<ConvRep> {
    s.map_values(|c: Conversation| c.rep())
}

/// Abstractions of decoded endpoint rows, elementwise and in order.
pub open spec fn endpoint_reps(s: Seq<Endpoint>) -> Seq<EndpointRep> {
    s.map_values(|e: Endpoint| e.rep())
}

/// Decoding of each conversation row in a list.
pub open spec fn sp_conv_list(elems: Seq<JRep>) -> Option<Seq<ConvRep>>
    decreases elems,
{
    if elems.len() == 0 {
        Some(Seq::empty())
    } else {
        match (sp_conv_list(elems.drop_last()), sp_conv_of(elems.last())) {
            (Some(pre), Some(c)) => Some(pre.push(c)),
            _ => None,
        }
    }
}

/// Decoding of each endpoint row in a list.
pub open spec fn sp_endpoint_list(elems: Seq<JRep>) -> Option<Seq<EndpointRep>>
    decreases elems,
{
    if elems.len() == 0 {
        Some(Seq::empty())
    } else {
        match (sp_endpoint_list(elems.drop_last()), sp_endpoint_of(elems.last())) {
            (Some(pre), Some(e)) => Some(pre.push(e)),
            _ => None,
        }
    }
}

proof fn lemma_conv_list_fail(elems: Seq<JRep>, i: int)
    requires
        0 <= i < elems.len(),
        sp_conv_of(elems[i]) is None,
    ensures
        sp_conv_list(elems) is None,
    decreases elems.len(),
{
    if elems.len() > 0 && i != elems.len() - 1 {
        lemma_conv_list_fail(elems.drop_last(), i);
    }
}

proof fn lemma_endpoint_list_fail(elems: Seq<JRep>, i: int)
    requires
        0 <= i < elems.len(),
        sp_endpoint_of(elems[i]) is None,
    ensures
        sp_endpoint_list(elems) is None,
    decreases elems.len(),
{
    if elems.len() > 0 && i != elems.len() - 1 {
        lemma_endpoint_list_fail(elems.drop_last(), i);
    }
}

/// Decodes a list of conversation rows.
#[verifier::loop_isolation(false)]
pub fn convs_from_array(elems: &Vec<JsonValue>) -> (r: Option<Vec<Conversation>>)
    ensures
        match (r, sp_conv_list(crate::json::reps_of(elems@))) {
            (None, None) => true,
            (Some(cs), Some(crs)) => conv_reps(cs@) == crs,
            _ => false,
        },
{
    let mut rows: Vec<Conversation> = Vec::new();
    let n: usize = elems.len();
    let mut i: usize = 0;
    proof {
        crate::json::lemma_reps_of(elems@);
        assert(conv_reps(rows@) =~= Seq::<ConvRep>::empty());
    }
    while i < n
        invariant
            0 <= i <= n,
            sp_conv_list(crate::json::reps_of(elems@).take(i as int)) == Some(conv_reps(rows@)),
        decreases n - i,
    {
        proof {
            assert(crate::json::reps_of(elems@).take(i as int + 1).drop_last()
                =~= crate::json::reps_of(elems@).take(i as int));
        }
        match conv_from_value(&elems[i]) {
            Some(c) => {
                let ghost pre = rows@;
                let ghost crep = c.rep();
                rows.push(c);
                proof {
                    assert(conv_reps(rows@) =~= conv_reps(pre).push(crep));
                }
            },
            None => {
                proof {
                    lemma_conv_list_fail(crate::json::reps_of(elems@), i as int);
                }
                return None;
            },
        }
        i = i + 1;
    }
    proof {
        assert(crate::json::reps_of(elems@).take(n as int) =~= crate::json::reps_of(elems@));
    }
    Some(rows)
}

/// Decodes a list of endpoint rows.
#[verifier::loop_isolation(false)]
pub fn endpoints_from_array(elems: &Vec<JsonValue>) -> (r: Option<Vec<Endpoint>>)
    ensures
        match (r, sp_endpoint_list(crate::json::reps_of(elems@))) {
            (None, None) => true,
            (Some(es), Some(ers)) => endpoint_reps(es@) == ers,
            _ => false,
        },
{
    let mut rows: Vec<Endpoint> = Vec::new();
    let n: usize = elems.len();
    let mut i: usize = 0;
    proof {
        crate::json::lemma_reps_of(elems@);
        assert(endpoint_reps(rows@) =~= Seq::<EndpointRep>::empty());
    }
    while i < n
        invariant
            0 <= i <= n,
            sp_endpoint_list(crate::json::reps_of(elems@).take(i as int)) == Some(
                endpoint_reps(rows@),
            ),
        decreases n - i,
    {
        proof {
            assert(crate::json::reps_of(elems@).take(i as int + 1).drop_last()
                =~= crate::json::reps_of(elems@).take(i as int));
        }
        match endpoint_from_value(&elems[i]) {
            Some(e) => {
                let ghost pre = rows@;
                let ghost erep = e.rep();
                rows.push(e);
                proof {
                    assert(endpoint_reps(rows@) =~= endpoint_reps(pre).push(erep));
                }
            },
            None => {
                proof {
                    lemma_endpoint_list_fail(crate::json::reps_of(elems@), i as int);
                }
                return None;
            },
        }
        i = i + 1;
    }
    proof {
        assert(crate::json::reps_of(elems@).take(n as int) =~= crate::json::reps_of(elems@));
    }
    Some(rows)
}

/// The tag of a tap result block: its `tap` member when that is a
/// string.
pub open spec fn sp_tag_of(t: JRep) -> Option<Seq<char>> {
    match jget(t, "tap"@) {
        Some(x) => match x {
            JRep::Str(s) => Some(s),
            _ => None,
        },
        None => None,
    }
}

/// The first block tagged `name`, in whatever order the blocks came.
pub open spec fn sp_find_tap(taps: Seq<JRep>, name: Seq<char>) -> Option<JRep>
    decreases taps,
{
    if taps.len() == 0 {
        None
    } else if sp_tag_of(taps.first()) == Some(name) {
        Some(taps.first())
    } else {
        sp_find_tap(taps.drop_first(), name)
    }
}

/// Finds the block tagged `name`.
#[verifier::loop_isolation(false)]
pub fn find_tap<'a>(taps: &'a Vec<JsonValue>, name: &str) -> (r: Option<&'a JsonValue>)
    ensures
        match r {
            Some(t) => sp_find_tap(crate::json::reps_of(taps@), name@) == Some(t.rep()),
            None => sp_find_tap(crate::json::reps_of(taps@), name@) is None,
        },
{
    let n: usize = taps.len();
    let mut i: usize = 0;
    proof {
        crate::json::lemma_reps_of(taps@);
        assert(crate::json::reps_of(taps@).skip(0) =~= crate::json::reps_of(taps@));
    }
    while i < n
        invariant
            0 <= i <= n,
            sp_find_tap(crate::json::reps_of(taps@), name@) == sp_find_tap(
                crate::json::reps_of(taps@).skip(i as int),
                name@,
            ),
        decreases n - i,
    {
        proof {
            assert(crate::json::reps_of(taps@).skip(i as int).first() == crate::json::reps_of(
                taps@,
            )[i as int]);
            assert(crate::json::reps_of(taps@).skip(i as int).drop_first()
                =~= crate::json::reps_of(taps@).skip(i as int + 1));
        }
        let tagged: bool = match taps[i].get("tap") {
            Some(x) => match x {
                JsonValue::Str(s) => crate::json::str_eq(s.as_str(), name),
                _ => false,
            },
            None => false,
        };
        if tagged {
            return Some(&taps[i]);
        }
        i = i + 1;
    }
    proof {
        assert(crate::json::reps_of(taps@).skip(n as int) =~= Seq::<JRep>::empty());
    }
    None
}

/// The hierarchy under the `phs` block, or empty when the block, its
/// `protos` member, or any node of it does not decode.
pub open spec fn sp_phs_of(taps: Seq<JRep>) -> Seq<ProtoRep> {
    match sp_find_tap(taps, "phs"@) {
        Some(t) => match jget(t, "protos"@) {
            Some(p) => match p {
                JRep::Arr(es) => match sp_proto_list(es, PROTO_DEPTH_LIMIT as nat) {
                    Some(x) => x,
                    None => Seq::empty(),
                },
                _ => Seq::empty(),
            },
            None => Seq::empty(),
        },
        None => Seq::empty(),
    }
}

/// The conversations under the block tagged `name`, or empty.
pub open spec fn sp_convs_of(taps: Seq<JRep>, name: Seq<char>) -> Seq<ConvRep> {
    match sp_find_tap(taps, name) {
        Some(t) => match jget(t, "convs"@) {
            Some(p) => match p {
                JRep::Arr(es) => match sp_conv_list(es) {
                    Some(x) => x,
                    None => Seq::empty(),
                },
                _ => Seq::empty(),
            },
            None => Seq::empty(),
        },
        None => Seq::empty(),
    }
}

/// The endpoints under the block tagged `endpt:IPv4`, or empty.
pub open spec fn sp_hosts_of(taps: Seq<JRep>) -> Seq<EndpointRep> {
    match sp_find_tap(taps, "endpt:IPv4"@) {
        Some(t) => match jget(t, "hosts"@) {
            Some(p) => match p {
                JRep::Arr(es) => match sp_endpoint_list(es) {
                    Some(x) => x,
                    None => Seq::empty(),
                },
                _ => Seq::empty(),
            },
            None => Seq::empty(),
        },
        None => Seq::empty(),
    }
}

/// One consistent statistics snapshot: protocol hierarchy, TCP and UDP
/// conversations, and IPv4 endpoints, all from one batched request.
pub struct CaptureStats {
    pub protocol_hierarchy: Vec<ProtocolNode>,
    pub tcp_conversations: Vec<Conversation>,
    pub udp_conversations: Vec<Conversation>,
    pub endpoints: Vec<Endpoint>,
}

/// The mathematical shape of a snapshot.
pub struct StatsRep {
    pub protocol_hierarchy: Seq<ProtoRep>,
    pub tcp_conversations: Seq<ConvRep>,
    pub udp_conversations: Seq<ConvRep>,
    pub endpoints: Seq<EndpointRep>,
}

impl CaptureStats {
    /// The abstraction of this snapshot.
    pub open spec fn rep(self) -> StatsRep {
        StatsRep {
            protocol_hierarchy: proto_reps_of(self.protocol_hierarchy@),
            tcp_conversations: conv_reps(self.tcp_conversations@),
            udp_conversations: conv_reps(self.udp_conversations@),
            endpoints: endpoint_reps(self.endpoints@),
        }
    }
}

/// The empty snapshot.
pub open spec fn sp_empty_stats() -> StatsRep {
    StatsRep {
        protocol_hierarchy: Seq::empty(),
        tcp_conversations: Seq::empty(),
        udp_conversations: Seq::empty(),
        endpoints: Seq::empty(),
    }
}

/// The snapshot a sequence of tap blocks demultiplexes to: each part
/// located by its tag, absent parts empty.
pub open spec fn sp_stats_from_taps(taps: Seq<JRep>) -> StatsRep {
    StatsRep {
        protocol_hierarchy: sp_phs_of(taps),
        tcp_conversations: sp_convs_of(taps, "conv:TCP"@),
        udp_conversations: sp_convs_of(taps, "conv:UDP"@),
        endpoints: sp_hosts_of(taps),
    }
}

/// The snapshot a whole `tap` reply decodes to: the blocks under `taps`,
/// or the empty snapshot when there are none. This decoder is total:
/// no reply shape is an error.
pub open spec fn sp_capture_stats_of(r: JRep) -> StatsRep {
    match jget(r, "taps"@) {
        Some(t) => match t {
            JRep::Arr(taps) => sp_stats_from_taps(taps),
            _ => sp_empty_stats(),
        },
        None => sp_empty_stats(),
    }
}

fn phs_or_empty(taps: &Vec<JsonValue>) -> (r: Vec<ProtocolNode>)
    ensures
        proto_reps_of(r@) == sp_phs_of(crate::json::reps_of(taps@)),
{
    let found: Option<&JsonValue> = find_tap(taps, "phs");
    let out: Vec<ProtocolNode> = match found {
        Some(t) => match t.get("protos") {
            Some(p) => match p {
                JsonValue::Arr(es) => match protos_from_array(es, PROTO_DEPTH_LIMIT) {
                    Some(x) => x,
                    None => Vec::new(),
                },
                _ => Vec::new(),
            },
            None => Vec::new(),
        },
        None => Vec::new(),
    };
    proof {
        lemma_proto_reps_of(out@);
        if out@.len() == 0 {
            assert(proto_reps_of(out@) =~= Seq::<ProtoRep>::empty());
        }
    }
    out
}

fn convs_or_empty(taps: &Vec<JsonValue>, name: &str) -> (r: Vec<Conversation>)
    ensures
        conv_reps(r@) == sp_convs_of(crate::json::reps_of(taps@), name@),
{
    let found: Option<&JsonValue> = find_tap(taps, name);
    let out: Vec<Conversation> = match found {
        Some(t) => match t.get("convs") {
            Some(p) => match p {
                JsonValue::Arr(es) => match convs_from_array(es) {
                    Some(x) => x,
                    None => Vec::new(),
                },
                _ => Vec::new(),
            },
            None => Vec::new(),
        },
        None => Vec::new(),
    };
    proof {
        if out@.len() == 0 {
            assert(conv_reps(out@) =~= Seq::<ConvRep>::empty());
        }
    }
    out
}

fn hosts_or_empty(taps: &Vec<JsonValue>) -> (r: Vec<Endpoint>)
    ensures
        endpoint_reps(r@) == sp_hosts_of(crate::json::reps_of(taps@)),
{
    let found: Option<&JsonValue> = find_tap(taps, "endpt:IPv4");
    let out: Vec<Endpoint> = match found {
        Some(t) => match t.get("hosts") {
            Some(p) => match p {
                JsonValue::Arr(es) => match endpoints_from_array(es) {
                    Some(x) => x,
                    None => Vec::new(),
                },
                _ => Vec::new(),
            },
            None => Vec::new(),
        },
        None => Vec::new(),
    };
    proof {
        if out@.len() == 0 {
            assert(endpoint_reps(out@) =~= Seq::<EndpointRep>::empty());
        }
    }
    out
}

fn empty_stats() -> (r: CaptureStats)
    ensures
        r.rep() == sp_empty_stats(),
{
    let r = CaptureStats {
        protocol_hierarchy: Vec::new(),
        tcp_conversations: Vec::new(),
        udp_conversations: Vec::new(),
        endpoints: Vec::new(),
    };
    proof {
        lemma_proto_reps_of(r.protocol_hierarchy@);
        assert(proto_reps_of(r.protocol_hierarchy@) =~= Seq::<ProtoRep>::empty());
        assert(conv_reps(r.tcp_conversations@) =~= Seq::<ConvRep>::empty());
        assert(conv_reps(r.udp_conversations@) =~= Seq::<ConvRep>::empty());
        assert(endpoint_reps(r.endpoints@) =~= Seq::<EndpointRep>::empty());
    }
    r
}

/// Demultiplexes a batched `tap` reply into one snapshot. Total over
/// every reply shape: whatever is missing or malformed comes back
/// empty, never as an error.
pub fn capture_stats_from_value(v: &JsonValue) -> (r: CaptureStats)
    ensures
        r.rep() == sp_capture_stats_of(v.rep()),
{
    match v.get("taps") {
        Some(t) => match t {
            JsonValue::Arr(taps) => CaptureStats {
                protocol_hierarchy: phs_or_empty(taps),
                tcp_conversations: convs_or_empty(taps, "conv:TCP"),
                udp_conversations: convs_or_empty(taps, "conv:UDP"),
                endpoints: hosts_or_empty(taps),
            },
            _ => empty_stats(),
        },
        None => empty_stats(),
    }
}

/// A reply with no tap blocks at all — the empty capture's reply —
/// demultiplexes to the empty snapshot, never to an error.
pub proof fn lemma_empty_capture_empty_stats()
    ensures
        sp_stats_from_taps(Seq::empty()) == sp_empty_stats(),
{
}

/// At most one block per tag.
pub open spec fn tags_unique(taps: Seq<JRep>) -> bool {
    forall|i: int, j: int|
        0 <= i < taps.len() && 0 <= j < taps.len() && i != j && #[trigger] sp_tag_of(
            taps[i],
        ) is Some ==> sp_tag_of(taps[i]) != #[trigger] sp_tag_of(taps[j])
}

proof fn lemma_find_tap_found(taps: Seq<JRep>, name: Seq<char>)
    requires
        sp_find_tap(taps, name) is Some,
    ensures
        exists|i: int|
            0 <= i < taps.len() && taps[i] == sp_find_tap(taps, name)->0 && #[trigger] sp_tag_of(
                taps[i],
            ) == Some(name),
    decreases taps,
{
    if taps.len() > 0 {
        if sp_tag_of(taps.first()) == Some(name) {
            assert(taps[0] == sp_find_tap(taps, name)->0 && sp_tag_of(taps[0]) == Some(name));
        } else {
            lemma_find_tap_found(taps.drop_first(), name);
            let i = choose|i: int|
                0 <= i < taps.drop_first().len() && taps.drop_first()[i] == sp_find_tap(
                    taps.drop_first(),
                    name,
                )->0 && #[trigger] sp_tag_of(taps.drop_first()[i]) == Some(name);
            assert(taps[i + 1] == sp_find_tap(taps, name)->0 && sp_tag_of(taps[i + 1]) == Some(
                name,
            ));
        }
    }
}

proof fn lemma_find_tap_missing(taps: Seq<JRep>, name: Seq<char>)
    requires
        sp_find_tap(taps, name) is None,
    ensures
        forall|i: int| 0 <= i < taps.len() ==> #[trigger] sp_tag_of(taps[i]) != Some(name),
    decreases taps,
{
    if taps.len() > 0 {
        lemma_find_tap_missing(taps.drop_first(), name);
        assert forall|i: int| 0 <= i < taps.len() implies #[trigger] sp_tag_of(taps[i]) != Some(
            name,
        ) by {
            if i > 0 {
                assert(taps.drop_first()[i - 1] == taps[i]);
            }
        }
    }
}

proof fn lemma_find_tap_present(taps: Seq<JRep>, name: Seq<char>, i: int)
    requires
        0 <= i < taps.len(),
        sp_tag_of(taps[i]) == Some(name),
    ensures
        sp_find_tap(taps, name) is Some,
    decreases taps,
{
    if taps.len() > 0 {
        if sp_tag_of(taps.first()) == Some(name) {
        } else {
            assert(i != 0);
            assert(taps.drop_first()[i - 1] == taps[i]);
            lemma_find_tap_present(taps.drop_first(), name, i - 1);
        }
    }
}

/// With unique tags, the block found for a name does not depend on the
/// order the blocks came in: any permutation yields the same block.
pub proof fn lemma_find_tap_order_independent(t1: Seq<JRep>, t2: Seq<JRep>, name: Seq<char>)
    requires
        t1.to_multiset() == t2.to_multiset(),
        tags_unique(t1),
    ensures
        sp_find_tap(t1, name) == sp_find_tap(t2, name),
{
    broadcast use vstd::seq_lib::group_to_multiset_ensures;

    if sp_find_tap(t1, name) is Some {
        lemma_find_tap_found(t1, name);
        let i = choose|i: int|
            0 <= i < t1.len() && t1[i] == sp_find_tap(t1, name)->0 && #[trigger] sp_tag_of(
                t1[i],
            ) == Some(name);
        assert(t1.contains(t1[i]));
        assert(t1.to_multiset().count(t1[i]) > 0);
        assert(t2.to_multiset().count(t1[i]) > 0);
        assert(t2.contains(t1[i]));
        let j = choose|j: int| 0 <= j < t2.len() && t2[j] == t1[i];
        lemma_find_tap_present(t2, name, j);
        lemma_find_tap_found(t2, name);
        let k = choose|k: int|
            0 <= k < t2.len() && t2[k] == sp_find_tap(t2, name)->0 && #[trigger] sp_tag_of(
                t2[k],
            ) == Some(name);
        assert(t2.contains(t2[k]));
        assert(t2.to_multiset().count(t2[k]) > 0);
        assert(t1.to_multiset().count(t2[k]) > 0);
        assert(t1.contains(t2[k]));
        let m = choose|m: int| 0 <= m < t1.len() && t1[m] == t2[k];
        assert(sp_tag_of(t1[m]) == Some(name));
        assert(m == i);
    } else {
        lemma_find_tap_missing(t1, name);
        if sp_find_tap(t2, name) is Some {
            lemma_find_tap_found(t2, name);
            let k = choose|k: int|
                0 <= k < t2.len() && t2[k] == sp_find_tap(t2, name)->0 && #[trigger] sp_tag_of(
                    t2[k],
                ) == Some(name);
            assert(t2.contains(t2[k]));
            assert(t2.to_multiset().count(t2[k]) > 0);
            assert(t1.to_multiset().count(t2[k]) > 0);
            assert(t1.contains(t2[k]));
            let m = choose|m: int| 0 <= m < t1.len() && t1[m] == t2[k];
            assert(sp_tag_of(t1[m]) != Some(name));
            assert(false);
        }
    }
}

/// Order independence of the demultiplexer: feeding the tap blocks in
/// any permutation yields an identical snapshot, as long as no tag
/// repeats.
pub proof fn lemma_stats_order_independent(t1: Seq<JRep>, t2: Seq<JRep>)
    requires
        t1.to_multiset() == t2.to_multiset(),
        tags_unique(t1),
    ensures
        sp_stats_from_taps(t1) == sp_stats_from_taps(t2),
{
    lemma_find_tap_order_independent(t1, t2, "phs"@);
    lemma_find_tap_order_independent(t1, t2, "conv:TCP"@);
    lemma_find_tap_order_independent(t1, t2, "conv:UDP"@);
    lemma_find_tap_order_independent(t1, t2, "endpt:IPv4"@);
}

} // verus!
