//! The shapes handed outward — to the command layer and to the local
//! HTTP re-export — and the translation into them.

use vstd::prelude::*;

use base64::Engine;

use crate::decode::{opt_nat, opt_view, Frame, FrameRep, Status};
use crate::json::string_from_chars;

verus! {

/// A page request: how many records to skip and how many to return.
pub struct FramesRequest {
    pub skip: u32,
    pub limit: u32,
}

/// A request for one record's full detail.
pub struct FrameDetailsRequest {
    pub frame_num: u32,
}

/// A request to validate a filter expression.
pub struct CheckFilterRequest {
    pub filter: String,
}

/// The verdict on a filter expression.
pub struct CheckFilterResponse {
    pub valid: bool,
}

/// A filtered search request.
pub struct SearchRequest {
    pub filter: String,
    pub limit: u32,
    pub skip: u32,
}

/// A stream-follow request: which stream, which protocol, and how to
/// render the payload bytes.
pub struct StreamRequest {
    pub stream_id: u32,
    pub protocol: String,
    pub format: String,
}

/// The page size used when a search request names none.
pub fn default_limit() -> (r: u32)
    ensures
        r == 100,
{
    100
}

/// The protocol used when a stream request names none.
pub fn default_protocol() -> (r: String)
    ensures
        r@ == "TCP"@,
{
    String::from_str("TCP")
}

/// The payload rendering used when a stream request names none.
pub fn default_format() -> (r: String)
    ensures
        r@ == "ascii"@,
{
    String::from_str("ascii")
}

/// One record reshaped for display: the well-known columns pulled out by
/// their positions.
pub struct FrameData {
    pub number: u32,
    pub time: String,
    pub source: String,
    pub destination: String,
    pub protocol: String,
    pub length: String,
    pub info: String,
    pub background: Option<String>,
    pub foreground: Option<String>,
}

/// The mathematical shape of a display record.
pub struct FrameDataRep {
    pub number: nat,
    pub time: Seq<char>,
    pub source: Seq<char>,
    pub destination: Seq<char>,
    pub protocol: Seq<char>,
    pub length: Seq<char>,
    pub info: Seq<char>,
    pub background: Option<Seq<char>>,
    pub foreground: Option<Seq<char>>,
}

impl FrameData {
    /// The abstraction of this record.
    pub open spec fn rep(self) -> FrameDataRep {
        FrameDataRep {
            number: self.number as nat,
            time: self.time@,
            source: self.source@,
            destination: self.destination@,
            protocol: self.protocol@,
            length: self.length@,
            info: self.info@,
            background: opt_view(self.background),
            foreground: opt_view(self.foreground),
        }
    }
}

/// The column at `i`, or empty where the record is short.
pub open spec fn sp_col(cols: Seq<Seq<char>>, i: int) -> Seq<char> {
    if 0 <= i < cols.len() {
        cols[i]
    } else {
        Seq::empty()
    }
}

/// The display record a frame reshapes to: number, then time, source,
/// destination, protocol, length and info from columns one through six.
pub open spec fn sp_frame_data_of(f: FrameRep) -> FrameDataRep {
    FrameDataRep {
        number: f.number,
        time: sp_col(f.columns, 1),
        source: sp_col(f.columns, 2),
        destination: sp_col(f.columns, 3),
        protocol: sp_col(f.columns, 4),
        length: sp_col(f.columns, 5),
        info: sp_col(f.columns, 6),
        background: f.background,
        foreground: f.foreground,
    }
}

fn col_or_empty(cols: &Vec<String>, i: usize) -> (r: String)
    ensures
        r@ == sp_col(crate::decode::col_views(cols@), i as int),
{
    if i < cols.len() {
        cols[i].clone()
    } else {
        String::new()
    }
}

impl FrameData {
    /// Reshapes one frame for display.
    pub fn from_frame(frame: &Frame) -> (r: FrameData)
        ensures
            r.rep() == sp_frame_data_of(frame.rep()),
    {
        FrameData {
            number: frame.number,
            time: col_or_empty(&frame.columns, 1),
            source: col_or_empty(&frame.columns, 2),
            destination: col_or_empty(&frame.columns, 3),
            protocol: col_or_empty(&frame.columns, 4),
            length: col_or_empty(&frame.columns, 5),
            info: col_or_empty(&frame.columns, 6),
            background: frame.background.clone(),
            foreground: frame.foreground.clone(),
        }
    }
}

/// Abstractions of a display-record list, elementwise and in order.
pub open spec fn frame_data_reps(s: Seq<FrameData>) -> Seq<FrameDataRep> {
    s.map_values(|f: FrameData| f.rep())
}

/// Display records for every frame of a list, in order.
pub open spec fn sp_frame_datas_of(fs: Seq<FrameRep>) -> Seq<FrameDataRep> {
    fs.map_values(|f: FrameRep| sp_frame_data_of(f))
}

/// Reshapes a list of frames for display.
#[verifier::loop_isolation(false)]
pub fn frames_to_data(frames: &Vec<Frame>) -> (r: Vec<FrameData>)
    ensures
        frame_data_reps(r@) == sp_frame_datas_of(crate::decode::frame_reps(frames@)),
{
    let mut out: Vec<FrameData> = Vec::new();
    let n: usize = frames.len();
    let mut i: usize = 0;
    while i < n
        invariant
            0 <= i <= n,
            out@.len() == i,
            forall|k: int|
                0 <= k < i ==> (#[trigger] out@[k]).rep() == sp_frame_data_of(frames@[k].rep()),
        decreases n - i,
    {
        out.push(FrameData::from_frame(&frames[i]));
        i = i + 1;
    }
    proof {
        assert(frame_data_reps(out@) =~= sp_frame_datas_of(crate::decode::frame_reps(frames@)));
    }
    out
}

/// A page of display records and the loaded capture's total record
/// count.
pub struct FramesResult {
    pub frames: Vec<FrameData>,
    pub total: u64,
}

/// The mathematical shape of a page result.
pub struct FramesResultRep {
    pub frames: Seq<FrameDataRep>,
    pub total: nat,
}

impl FramesResult {
    /// The abstraction of this page result.
    pub open spec fn rep(self) -> FramesResultRep {
        FramesResultRep { frames: frame_data_reps(self.frames@), total: self.total as nat }
    }
}

/// Builds a page result: the frames reshaped for display, the total
/// from the capture status, zero when none is known.
pub fn build_frames_result(frames: &Vec<Frame>, total_frames: Option<u64>) -> (r: FramesResult)
    ensures
        r.rep().frames == sp_frame_datas_of(crate::decode::frame_reps(frames@)),
        r.rep().total == match opt_nat(total_frames) {
            Some(n) => n,
            None => 0,
        },
{
    FramesResult {
        frames: frames_to_data(frames),
        total: match total_frames {
            Some(n) => n,
            None => 0,
        },
    }
}

/// A search result: the page found, the count of records in this page
/// — not a true total, there is no cheap one — and the filter that was
/// applied.
pub struct SearchResult {
    pub frames: Vec<FrameData>,
    pub total_matching: u64,
    pub filter_applied: String,
}

/// The mathematical shape of a search result.
pub struct SearchResultRep {
    pub frames: Seq<FrameDataRep>,
    pub total_matching: nat,
    pub filter_applied: Seq<char>,
}

impl SearchResult {
    /// The abstraction of this search result.
    pub open spec fn rep(self) -> SearchResultRep {
        SearchResultRep {
            frames: frame_data_reps(self.frames@),
            total_matching: self.total_matching as nat,
            filter_applied: self.filter_applied@,
        }
    }
}

/// Builds a search result from a decoded page. The reported count is
/// the page's own size, kept as the engine bridge has always reported
/// it; callers must not read it as a true total.
pub fn build_search_result(frames: &Vec<Frame>, total: u64, filter: String) -> (r: SearchResult)
    ensures
        r.rep().frames == sp_frame_datas_of(crate::decode::frame_reps(frames@)),
        r.rep().total_matching == total as nat,
        r.rep().filter_applied == filter@,
{
    SearchResult { frames: frames_to_data(frames), total_matching: total, filter_applied: filter }
}

/// The empty search result for a filter the engine rejected.
pub fn empty_search_result(filter: String) -> (r: SearchResult)
    ensures
        r.rep().frames == Seq::<FrameDataRep>::empty(),
        r.rep().total_matching == 0,
        r.rep().filter_applied == filter@,
{
    let r = SearchResult {
        frames: Vec::new(),
        total_matching: 0,
        filter_applied: filter,
    };
    proof {
        assert(frame_data_reps(r.frames@) =~= Seq::<FrameDataRep>::empty());
    }
    r
}

/// The outcome of a load command: whether it worked, the capture's
/// record count and duration text, and the error when it failed.
pub struct LoadResult {
    pub success: bool,
    pub frame_count: u64,
    pub duration: Option<String>,
    pub error: Option<String>,
}

impl LoadResult {
    /// A failed load: no counts, the error carried through.
    pub fn failure(error: String) -> (r: LoadResult)
        ensures
            !r.success,
            r.frame_count == 0,
            r.duration is None,
            r.error matches Some(e) && e@ == error@,
    {
        LoadResult { success: false, frame_count: 0, duration: None, error: Some(error) }
    }

    /// A successful load described by the capture status that followed
    /// it.
    pub fn from_status(status: &Status) -> (r: LoadResult)
        ensures
            r.success,
            r.frame_count as nat == match opt_nat(status.frames) {
                Some(n) => n,
                None => 0,
            },
            opt_view(r.duration) == opt_view(status.duration),
            r.error is None,
    {
        LoadResult {
            success: true,
            frame_count: match status.frames {
                Some(n) => n,
                None => 0,
            },
            duration: status.duration.clone(),
            error: None,
        }
    }
}

/// The outcome of applying a filter: the capture's record count when
/// the filter was accepted, the fixed rejection message otherwise. The
/// engine keeps no filter state across requests, so acceptance changes
/// nothing there.
pub fn apply_filter_outcome(accepted: bool, total_frames: Option<u64>) -> (r: Result<u64, String>)
    ensures
        match r {
            Ok(n) => accepted && n as nat == match opt_nat(total_frames) {
                Some(m) => m,
                None => 0,
            },
            Err(m) => !accepted && m@ == "Invalid filter expression"@,
        },
{
    if accepted {
        Ok(
            match total_frames {
                Some(n) => n,
                None => 0,
            },
        )
    } else {
        Err(String::from_str("Invalid filter expression"))
    }
}

/// What the standard base64 alphabet decodes a string to, when it
/// decodes at all. A function of the text alone.
pub uninterp spec fn base64_decode_of(s: Seq<char>) -> Option<Seq<u8>>;

/// Decodes standard base64.
///
/// Relies on `base64::engine::general_purpose::STANDARD.decode`: the
/// decoded bytes are a function of the input text alone.
#[verifier::external_body]
fn b64_decode(s: &str) -> (r: Option<Vec<u8>>)
    ensures
        match (r, base64_decode_of(s@)) {
            (None, None) => true,
            (Some(b), Some(bs)) => b@ == bs,
            _ => false,
        },
{
    base64::engine::general_purpose::STANDARD.decode(s).ok()
}

/// What lossy UTF-8 decoding turns a byte string into: valid sequences
/// pass through, invalid ones become replacement characters. A function
/// of the bytes alone.
pub uninterp spec fn utf8_lossy_of(b: Seq<u8>) -> Seq<char>;

/// Decodes bytes as UTF-8, replacing what does not decode.
///
/// Relies on `String::from_utf8_lossy`: the result is a function of
/// the bytes alone.
#[verifier::external_body]
fn utf8_lossy(b: &Vec<u8>) -> (r: String)
    ensures
        r@ == utf8_lossy_of(b@),
{
    String::from_utf8_lossy(b).into_owned()
}

/// The digit character for `d` below sixteen, lowercase.
pub open spec fn sp_hex_digit(d: nat) -> char {
    if d < 10 {
        crate::json::digit_char(d)
    } else if d == 10 {
        'a'
    } else if d == 11 {
        'b'
    } else if d == 12 {
        'c'
    } else if d == 13 {
        'd'
    } else if d == 14 {
        'e'
    } else {
        'f'
    }
}

/// The hex dump of a byte string: two lowercase digits per byte, bytes
/// separated by single spaces.
pub open spec fn sp_hex_join(bytes: Seq<u8>) -> Seq<char>
    decreases bytes,
{
    if bytes.len() == 0 {
        Seq::empty()
    } else if bytes.len() == 1 {
        sp_hex_pair(bytes[0])
    } else {
        sp_hex_join(bytes.drop_last()) + seq![' '] + sp_hex_pair(bytes.last())
    }
}

/// The two lowercase hex digits of one byte.
pub open spec fn sp_hex_pair(b: u8) -> Seq<char> {
    seq![sp_hex_digit((b / 16) as nat), sp_hex_digit((b % 16) as nat)]
}

fn hex_digit(d: u8) -> (r: char)
    requires
        d < 16,
    ensures
        r == sp_hex_digit(d as nat),
{
    match d {
        0 => '0',
        1 => '1',
        2 => '2',
        3 => '3',
        4 => '4',
        5 => '5',
        6 => '6',
        7 => '7',
        8 => '8',
        9 => '9',
        10 => 'a',
        11 => 'b',
        12 => 'c',
        13 => 'd',
        14 => 'e',
        _ => 'f',
    }
}

/// Renders bytes as a space-separated lowercase hex dump.
#[verifier::loop_isolation(false)]
pub fn hex_of_bytes(bytes: &Vec<u8>) -> (r: String)
    ensures
        r@ == sp_hex_join(bytes@),
{
    let mut out: Vec<char> = Vec::new();
    let n: usize = bytes.len();
    let mut i: usize = 0;
    proof {
        assert(bytes@.take(0) =~= Seq::<u8>::empty());
    }
    while i < n
        invariant
            0 <= i <= n,
            out@ == sp_hex_join(bytes@.take(i as int)),
        decreases n - i,
    {
        if i > 0 {
            out.push(' ');
        }
        out.push(hex_digit(bytes[i] / 16));
        out.push(hex_digit(bytes[i] % 16));
        proof {
            assert(bytes@.take(i as int + 1).drop_last() =~= bytes@.take(i as int));
            assert(bytes@.take(i as int + 1).last() == bytes@[i as int]);
            assert(out@ =~= sp_hex_join(bytes@.take(i as int + 1)));
        }
        i = i + 1;
    }
    proof {
        assert(bytes@.take(n as int) =~= bytes@);
    }
    string_from_chars(&out)
}

/// One end of a followed stream.
pub struct EndpointInfo {
    pub host: String,
    pub port: String,
}

/// One payload segment rendered for display.
pub struct StreamSegment {
    pub direction: String,
    pub size: u64,
    pub data: String,
}

/// The mathematical shape of a rendered segment.
pub struct SegmentRep {
    pub direction: Seq<char>,
    pub size: nat,
    pub data: Seq<char>,
}

impl StreamSegment {
    /// The abstraction of this segment.
    pub open spec fn rep(self) -> SegmentRep {
        SegmentRep { direction: self.direction@, size: self.size as nat, data: self.data@ }
    }
}

/// A followed stream rendered for display.
pub struct StreamResponse {
    pub server: EndpointInfo,
    pub client: EndpointInfo,
    pub server_bytes: u64,
    pub client_bytes: u64,
    pub segments: Vec<StreamSegment>,
    pub combined_text: Option<String>,
}

/// The direction label for a payload's direction bit.
pub open spec fn sp_direction(s: nat) -> Seq<char> {
    if s == 0 {
        "client_to_server"@
    } else {
        "server_to_client"@
    }
}

/// The display text of one segment's bytes under a format: `hex` is a
/// hex dump of the decoded bytes, `raw` passes the transport encoding
/// through, anything else decodes to text; where base64 fails, `hex`
/// passes the encoding through and text rendering falls back to a
/// placeholder.
pub open spec fn sp_segment_data(format: Seq<char>, d: Seq<char>) -> Seq<char> {
    if format == "hex"@ {
        match base64_decode_of(d) {
            Some(bytes) => sp_hex_join(bytes),
            None => d,
        }
    } else if format == "raw"@ {
        d
    } else {
        match base64_decode_of(d) {
            Some(bytes) => utf8_lossy_of(bytes),
            None => "[binary data]"@,
        }
    }
}

/// One rendered segment.
pub open spec fn sp_segment_of(format: Seq<char>, p: crate::stream::PayloadRep) -> SegmentRep {
    SegmentRep {
        direction: sp_direction(p.s),
        size: p.n,
        data: sp_segment_data(format, p.d),
    }
}

/// Abstractions of rendered segments, elementwise and in order.
pub open spec fn segment_reps(s: Seq<StreamSegment>) -> Seq<SegmentRep> {
    s.map_values(|x: StreamSegment| x.rep())
}

/// Rendered segments for every payload, in order.
pub open spec fn sp_segments_of(format: Seq<char>, ps: Seq<crate::stream::PayloadRep>) -> Seq<
    SegmentRep,
> {
    ps.map_values(|p: crate::stream::PayloadRep| sp_segment_of(format, p))
}

/// One segment's block in the combined text.
pub open spec fn sp_block(seg: SegmentRep) -> Seq<char> {
    seq!['['] + seg.direction + seq![']', '\n'] + seg.data
}

/// The combined text: the blocks joined by blank lines.
pub open spec fn sp_joined_blocks(segs: Seq<SegmentRep>) -> Seq<char>
    decreases segs,
{
    if segs.len() == 0 {
        Seq::empty()
    } else if segs.len() == 1 {
        sp_block(segs[0])
    } else {
        sp_joined_blocks(segs.drop_last()) + seq!['\n', '\n'] + sp_block(segs.last())
    }
}

/// Whether a format asks for the combined text: plain text rendering
/// does, by name or by default.
pub open spec fn sp_wants_combined(format: Seq<char>) -> bool {
    format == "ascii"@ || format.len() == 0
}

/// Renders a followed stream for display under a format.
#[verifier::loop_isolation(false)]
pub fn build_stream_response(stream: &crate::stream::StreamData, format: &str) -> (r:
    StreamResponse)
    ensures
        r.server.host@ == stream.shost@,
        r.server.port@ == stream.sport@,
        r.client.host@ == stream.chost@,
        r.client.port@ == stream.cport@,
        r.server_bytes == stream.sbytes,
        r.client_bytes == stream.cbytes,
        segment_reps(r.segments@) == sp_segments_of(
            format@,
            crate::stream::payload_reps(stream.payloads@),
        ),
        sp_wants_combined(format@) ==> (r.combined_text matches Some(t) && t@ == sp_joined_blocks(
            segment_reps(r.segments@),
        )),
        !sp_wants_combined(format@) ==> r.combined_text is None,
{
    let is_hex: bool = crate::json::str_eq(format, "hex");
    let is_raw: bool = crate::json::str_eq(format, "raw");
    let mut segments: Vec<StreamSegment> = Vec::new();
    let n: usize = stream.payloads.len();
    let mut i: usize = 0;
    while i < n
        invariant
            0 <= i <= n,
            segments@.len() == i,
            forall|k: int|
                0 <= k < i ==> (#[trigger] segments@[k]).rep() == sp_segment_of(
                    format@,
                    stream.payloads@[k].rep(),
                ),
        decreases n - i,
    {
        let p: &crate::stream::StreamPayload = &stream.payloads[i];
        let direction: String = crate::decode::direction_label(p.s);
        let data: String = if is_hex {
            match b64_decode(p.d.as_str()) {
                Some(bytes) => hex_of_bytes(&bytes),
                None => p.d.clone(),
            }
        } else if is_raw {
            p.d.clone()
        } else {
            match b64_decode(p.d.as_str()) {
                Some(bytes) => utf8_lossy(&bytes),
                None => String::from_str("[binary data]"),
            }
        };
        segments.push(StreamSegment { direction, size: p.n, data });
        i = i + 1;
    }
    proof {
        assert(segment_reps(segments@) =~= sp_segments_of(
            format@,
            crate::stream::payload_reps(stream.payloads@),
        ));
    }
    let wants: bool = crate::json::str_eq(format, "ascii") || format.unicode_len() == 0;
    let combined_text: Option<String> = if wants {
        let mut text: Vec<char> = Vec::new();
        let m: usize = segments.len();
        let mut j: usize = 0;
        proof {
            assert(segment_reps(segments@).take(0) =~= Seq::<SegmentRep>::empty());
        }
        while j < m
            invariant
                0 <= j <= m,
                m == segments@.len(),
                text@ == sp_joined_blocks(segment_reps(segments@).take(j as int)),
            decreases m - j,
        {
            if j > 0 {
                text.push('\n');
                text.push('\n');
            }
            text.push('[');
            let mut dir: Vec<char> = crate::json::chars_of_str(segments[j].direction.as_str());
            text.append(&mut dir);
            text.push(']');
            text.push('\n');
            let mut dat: Vec<char> = crate::json::chars_of_str(segments[j].data.as_str());
            text.append(&mut dat);
            proof {
                let reps = segment_reps(segments@);
                assert(reps.take(j as int + 1).drop_last() =~= reps.take(j as int));
                assert(reps.take(j as int + 1).last() == reps[j as int]);
                assert(text@ =~= sp_joined_blocks(reps.take(j as int + 1)));
            }
            j = j + 1;
        }
        proof {
            assert(segment_reps(segments@).take(m as int) =~= segment_reps(segments@));
        }
        Some(string_from_chars(&text))
    } else {
        None
    };
    StreamResponse {
        server: EndpointInfo { host: stream.shost.clone(), port: stream.sport.clone() },
        client: EndpointInfo { host: stream.chost.clone(), port: stream.cport.clone() },
        server_bytes: stream.sbytes,
        client_bytes: stream.cbytes,
        segments,
        combined_text,
    }
}

/// The number of nodes in a hierarchy, children included.
pub open spec fn sp_count_protocols(ns: Seq<crate::stats::ProtoRep>) -> nat
    decreases ns,
{
    if ns.len() == 0 {
        0
    } else {
        sp_count_protocols(ns.drop_last()) + sp_count_node(ns.last())
    }
}

/// The number of nodes under and including one node.
pub open spec fn sp_count_node(n: crate::stats::ProtoRep) -> nat
    decreases n,
{
    match n {
        crate::stats::ProtoRep::Node { children, .. } => 1 + sp_count_protocols(children),
    }
}

/// Counting a prefix counts no more than the whole.
proof fn lemma_count_prefix(ns: Seq<crate::stats::ProtoRep>, i: int)
    requires
        0 <= i <= ns.len(),
    ensures
        sp_count_protocols(ns.take(i)) <= sp_count_protocols(ns),
    decreases ns.len() - i,
{
    if i < ns.len() {
        assert(ns.take(i + 1).drop_last() =~= ns.take(i));
        lemma_count_prefix(ns, i + 1);
        assert(ns.take(ns.len() as int) =~= ns);
    } else {
        assert(ns.take(i) =~= ns);
    }
}

fn count_node(n: &crate::stats::ProtocolNode) -> (r: usize)
    requires
        sp_count_node(n.rep()) <= usize::MAX,
    ensures
        r as nat == sp_count_node(n.rep()),
    decreases *n,
{
    proof {
        crate::stats::lemma_proto_reps_of(n.children@);
    }
    1 + count_protocols(&n.children)
}

/// Counts the protocols in a hierarchy, children included.
#[verifier::loop_isolation(false)]
pub fn count_protocols(nodes: &Vec<crate::stats::ProtocolNode>) -> (r: usize)
    requires
        sp_count_protocols(crate::stats::proto_reps_of(nodes@)) <= usize::MAX,
    ensures
        r as nat == sp_count_protocols(crate::stats::proto_reps_of(nodes@)),
    decreases nodes@,
{
    let mut total: usize = 0;
    let n: usize = nodes.len();
    let mut i: usize = 0;
    proof {
        crate::stats::lemma_proto_reps_of(nodes@);
        assert(crate::stats::proto_reps_of(nodes@).take(0) =~= Seq::<
            crate::stats::ProtoRep,
        >::empty());
    }
    while i < n
        invariant
            0 <= i <= n,
            total as nat == sp_count_protocols(crate::stats::proto_reps_of(nodes@).take(i as int)),
        decreases n - i,
    {
        proof {
            let reps = crate::stats::proto_reps_of(nodes@);
            assert(reps.take(i as int + 1).drop_last() =~= reps.take(i as int));
            lemma_count_prefix(reps, i as int + 1);
        }
        let c: usize = count_node(&nodes[i]);
        total = total + c;
        i = i + 1;
    }
    proof {
        assert(crate::stats::proto_reps_of(nodes@).take(n as int) =~= crate::stats::proto_reps_of(
            nodes@,
        ));
    }
    total
}

/// One hierarchy node reshaped for the response.
pub struct ProtocolNodeResponse {
    pub protocol: String,
    pub frames: u64,
    pub bytes: u64,
    pub children: Vec<ProtocolNodeResponse>,
}

impl ProtocolNodeResponse {
    /// The abstraction of this node: the same shape the source node
    /// abstracts to.
    pub open spec fn rep(self) -> crate::stats::ProtoRep
        decreases self,
    {
        crate::stats::ProtoRep::Node {
            protocol: self.protocol@,
            frames: self.frames as nat,
            bytes: self.bytes as nat,
            children: resp_reps_of(self.children@),
        }
    }
}

/// Abstractions of a response-node list, elementwise and in order.
pub open spec fn resp_reps_of(s: Seq<ProtocolNodeResponse>) -> Seq<crate::stats::ProtoRep>
    decreases s,
{
    if s.len() == 0 {
        Seq::empty()
    } else {
        resp_reps_of(s.drop_last()).push(s.last().rep())
    }
}

pub proof fn lemma_resp_reps_of(s: Seq<ProtocolNodeResponse>)
    ensures
        resp_reps_of(s).len() == s.len(),
        forall|i: int| 0 <= i < s.len() ==> #[trigger] resp_reps_of(s)[i] == s[i].rep(),
    decreases s,
{
    if s.len() > 0 {
        lemma_resp_reps_of(s.drop_last());
    }
}

fn convert_protocol_node(n: &crate::stats::ProtocolNode) -> (r: ProtocolNodeResponse)
    ensures
        r.rep() == n.rep(),
    decreases *n,
{
    proof {
        crate::stats::lemma_proto_reps_of(n.children@);
    }
    ProtocolNodeResponse {
        protocol: n.protocol.clone(),
        frames: n.frames,
        bytes: n.bytes,
        children: convert_protocol_nodes(&n.children),
    }
}

/// Reshapes hierarchy nodes for the response; the abstract tree is
/// unchanged.
#[verifier::loop_isolation(false)]
pub fn convert_protocol_nodes(nodes: &Vec<crate::stats::ProtocolNode>) -> (r: Vec<
    ProtocolNodeResponse,
>)
    ensures
        resp_reps_of(r@) == crate::stats::proto_reps_of(nodes@),
    decreases nodes@,
{
    let mut out: Vec<ProtocolNodeResponse> = Vec::new();
    let n: usize = nodes.len();
    let mut i: usize = 0;
    proof {
        crate::stats::lemma_proto_reps_of(nodes@);
    }
    while i < n
        invariant
            0 <= i <= n,
            out@.len() == i,
            forall|k: int| 0 <= k < i ==> (#[trigger] out@[k]).rep() == nodes@[k].rep(),
        decreases n - i,
    {
        out.push(convert_protocol_node(&nodes[i]));
        i = i + 1;
    }
    proof {
        lemma_resp_reps_of(out@);
        assert(resp_reps_of(out@) =~= crate::stats::proto_reps_of(nodes@));
    }
    out
}

/// One conversation row reshaped for the response.
pub struct ConversationResponse {
    pub src_addr: String,
    pub dst_addr: String,
    pub src_port: Option<String>,
    pub dst_port: Option<String>,
    pub rx_frames: u64,
    pub rx_bytes: u64,
    pub tx_frames: u64,
    pub tx_bytes: u64,
    pub filter: Option<String>,
}

/// The mathematical shape of a conversation response row.
pub struct ConvRespRep {
    pub src_addr: Seq<char>,
    pub dst_addr: Seq<char>,
    pub src_port: Option<Seq<char>>,
    pub dst_port: Option<Seq<char>>,
    pub rx_frames: nat,
    pub rx_bytes: nat,
    pub tx_frames: nat,
    pub tx_bytes: nat,
    pub filter: Option<Seq<char>>,
}

impl ConversationResponse {
    /// The abstraction of this row.
    pub open spec fn rep(self) -> ConvRespRep {
        ConvRespRep {
            src_addr: self.src_addr@,
            dst_addr: self.dst_addr@,
            src_port: opt_view(self.src_port),
            dst_port: opt_view(self.dst_port),
            rx_frames: self.rx_frames as nat,
            rx_bytes: self.rx_bytes as nat,
            tx_frames: self.tx_frames as nat,
            tx_bytes: self.tx_bytes as nat,
            filter: opt_view(self.filter),
        }
    }
}

/// The response row a conversation reshapes to; the time bounds are for
/// the bridge's own callers and are left out here.
pub open spec fn sp_conv_resp_of(c: crate::stats::ConvRep) -> ConvRespRep {
    ConvRespRep {
        src_addr: c.saddr,
        dst_addr: c.daddr,
        src_port: c.sport,
        dst_port: c.dport,
        rx_frames: c.rxf,
        rx_bytes: c.rxb,
        tx_frames: c.txf,
        tx_bytes: c.txb,
        filter: c.filter,
    }
}

/// One endpoint row reshaped for the response.
pub struct EndpointResponse {
    pub host: String,
    pub port: Option<String>,
    pub rx_frames: u64,
    pub rx_bytes: u64,
    pub tx_frames: u64,
    pub tx_bytes: u64,
}

/// The mathematical shape of an endpoint response row.
pub struct EndpointRespRep {
    pub host: Seq<char>,
    pub port: Option<Seq<char>>,
    pub rx_frames: nat,
    pub rx_bytes: nat,
    pub tx_frames: nat,
    pub tx_bytes: nat,
}

impl EndpointResponse {
    /// The abstraction of this row.
    pub open spec fn rep(self) -> EndpointRespRep {
        EndpointRespRep {
            host: self.host@,
            port: opt_view(self.port),
            rx_frames: self.rx_frames as nat,
            rx_bytes: self.rx_bytes as nat,
            tx_frames: self.tx_frames as nat,
            tx_bytes: self.tx_bytes as nat,
        }
    }
}

/// The response row an endpoint reshapes to; its isolating filter is
/// for the bridge's own callers and is left out here.
pub open spec fn sp_endpoint_resp_of(e: crate::stats::EndpointRep) -> EndpointRespRep {
    EndpointRespRep {
        host: e.host,
        port: e.port,
        rx_frames: e.rxf,
        rx_bytes: e.rxb,
        tx_frames: e.txf,
        tx_bytes: e.txb,
    }
}

/// Reshapes conversation rows for the response.
#[verifier::loop_isolation(false)]
pub fn convert_conversations(rows: &Vec<crate::stats::Conversation>) -> (r: Vec<
    ConversationResponse,
>)
    ensures
        r@.map_values(|x: ConversationResponse| x.rep()) == crate::stats::conv_reps(
            rows@,
        ).map_values(|c: crate::stats::ConvRep| sp_conv_resp_of(c)),
{
    let mut out: Vec<ConversationResponse> = Vec::new();
    let n: usize = rows.len();
    let mut i: usize = 0;
    while i < n
        invariant
            0 <= i <= n,
            out@.len() == i,
            forall|k: int|
                0 <= k < i ==> (#[trigger] out@[k]).rep() == sp_conv_resp_of(rows@[k].rep()),
        decreases n - i,
    {
        let c: &crate::stats::Conversation = &rows[i];
        out.push(
            ConversationResponse {
                src_addr: c.saddr.clone(),
                dst_addr: c.daddr.clone(),
                src_port: c.sport.clone(),
                dst_port: c.dport.clone(),
                rx_frames: c.rxf,
                rx_bytes: c.rxb,
                tx_frames: c.txf,
                tx_bytes: c.txb,
                filter: c.filter.clone(),
            },
        );
        i = i + 1;
    }
    proof {
        assert(out@.map_values(|x: ConversationResponse| x.rep()) =~= crate::stats::conv_reps(
            rows@,
        ).map_values(|c: crate::stats::ConvRep| sp_conv_resp_of(c)));
    }
    out
}

/// Reshapes endpoint rows for the response.
#[verifier::loop_isolation(false)]
pub fn convert_endpoints(rows: &Vec<crate::stats::Endpoint>) -> (r: Vec<EndpointResponse>)
    ensures
        r@.map_values(|x: EndpointResponse| x.rep()) == crate::stats::endpoint_reps(
            rows@,
        ).map_values(|e: crate::stats::EndpointRep| sp_endpoint_resp_of(e)),
{
    let mut out: Vec<EndpointResponse> = Vec::new();
    let n: usize = rows.len();
    let mut i: usize = 0;
    while i < n
        invariant
            0 <= i <= n,
            out@.len() == i,
            forall|k: int|
                0 <= k < i ==> (#[trigger] out@[k]).rep() == sp_endpoint_resp_of(rows@[k].rep()),
        decreases n - i,
    {
        let e: &crate::stats::Endpoint = &rows[i];
        out.push(
            EndpointResponse {
                host: e.host.clone(),
                port: e.port.clone(),
                rx_frames: e.rxf,
                rx_bytes: e.rxb,
                tx_frames: e.txf,
                tx_bytes: e.txb,
            },
        );
        i = i + 1;
    }
    proof {
        assert(out@.map_values(|x: EndpointResponse| x.rep()) =~= crate::stats::endpoint_reps(
            rows@,
        ).map_values(|e: crate::stats::EndpointRep| sp_endpoint_resp_of(e)));
    }
    out
}

/// Headline numbers for a statistics snapshot. The duration is the
/// engine's decimal text for it.
pub struct StatsSummary {
    pub total_frames: u64,
    pub duration: Option<String>,
    pub protocol_count: usize,
    pub tcp_conversation_count: usize,
    pub udp_conversation_count: usize,
    pub endpoint_count: usize,
}

/// A statistics snapshot reshaped for the response.
pub struct CaptureStatsResponse {
    pub summary: StatsSummary,
    pub protocol_hierarchy: Vec<ProtocolNodeResponse>,
    pub tcp_conversations: Vec<ConversationResponse>,
    pub udp_conversations: Vec<ConversationResponse>,
    pub endpoints: Vec<EndpointResponse>,
}

/// Reshapes a snapshot and the capture status into the response: the
/// summary counts come from the snapshot itself, the totals from the
/// status, zero and empty where none is known.
pub fn build_capture_stats_response(status: &Option<Status>, stats: &crate::stats::CaptureStats)
    -> (r: CaptureStatsResponse)
    requires
        sp_count_protocols(crate::stats::proto_reps_of(stats.protocol_hierarchy@)) <= usize::MAX,
    ensures
        r.summary.total_frames as nat == match *status {
            Some(s) => match opt_nat(s.frames) {
                Some(n) => n,
                None => 0,
            },
            None => 0,
        },
        opt_view(r.summary.duration) == match *status {
            Some(s) => opt_view(s.duration),
            None => None,
        },
        r.summary.protocol_count as nat == sp_count_protocols(
            crate::stats::proto_reps_of(stats.protocol_hierarchy@),
        ),
        r.summary.tcp_conversation_count == stats.tcp_conversations@.len(),
        r.summary.udp_conversation_count == stats.udp_conversations@.len(),
        r.summary.endpoint_count == stats.endpoints@.len(),
        resp_reps_of(r.protocol_hierarchy@) == crate::stats::proto_reps_of(
            stats.protocol_hierarchy@,
        ),
        r.tcp_conversations@.map_values(|x: ConversationResponse| x.rep())
            == crate::stats::conv_reps(stats.tcp_conversations@).map_values(
            |c: crate::stats::ConvRep| sp_conv_resp_of(c),
        ),
        r.udp_conversations@.map_values(|x: ConversationResponse| x.rep())
            == crate::stats::conv_reps(stats.udp_conversations@).map_values(
            |c: crate::stats::ConvRep| sp_conv_resp_of(c),
        ),
        r.endpoints@.map_values(|x: EndpointResponse| x.rep()) == crate::stats::endpoint_reps(
            stats.endpoints@,
        ).map_values(|e: crate::stats::EndpointRep| sp_endpoint_resp_of(e)),
{
    let total_frames: u64 = match status {
        Some(s) => match s.frames {
            Some(n) => n,
            None => 0,
        },
        None => 0,
    };
    let duration: Option<String> = match status {
        Some(s) => s.duration.clone(),
        None => None,
    };
    let protocol_count: usize = count_protocols(&stats.protocol_hierarchy);
    CaptureStatsResponse {
        summary: StatsSummary {
            total_frames,
            duration,
            protocol_count,
            tcp_conversation_count: stats.tcp_conversations.len(),
            udp_conversation_count: stats.udp_conversations.len(),
            endpoint_count: stats.endpoints.len(),
        },
        protocol_hierarchy: convert_protocol_nodes(&stats.protocol_hierarchy),
        tcp_conversations: convert_conversations(&stats.tcp_conversations),
        udp_conversations: convert_conversations(&stats.udp_conversations),
        endpoints: convert_endpoints(&stats.endpoints),
    }
}

/// The port the analysis sidecar listens on.
pub const SIDECAR_PORT: u16 = 8765;

/// The sidecar's reported state.
pub struct SidecarStatus {
    pub is_running: bool,
    pub port: u16,
    pub version: Option<String>,
    pub error: Option<String>,
}

/// The sidecar status for a liveness check outcome: the fixed port, the
/// version only while it runs, never an error.
pub fn get_sidecar_status(is_running: bool) -> (r: SidecarStatus)
    ensures
        r.is_running == is_running,
        r.port == SIDECAR_PORT,
        is_running ==> (r.version matches Some(v) && v@ == "0.1.0"@),
        !is_running ==> r.version is None,
        r.error is None,
{
    SidecarStatus {
        is_running,
        port: SIDECAR_PORT,
        version: if is_running {
            Some(String::from_str("0.1.0"))
        } else {
            None
        },
        error: None,
    }
}

/// The sidecar status reported right after a start: the version is
/// claimed, and a not-responding note stands in for the error until the
/// liveness check passes.
pub fn sidecar_status_after_start(is_running: bool) -> (r: SidecarStatus)
    ensures
        r.is_running == is_running,
        r.port == SIDECAR_PORT,
        r.version matches Some(v) && v@ == "0.1.0"@,
        is_running ==> r.error is None,
        !is_running ==> (r.error matches Some(e) && e@
            == "Sidecar started but not responding yet"@),
{
    SidecarStatus {
        is_running,
        port: SIDECAR_PORT,
        version: Some(String::from_str("0.1.0")),
        error: if is_running {
            None
        } else {
            Some(String::from_str("Sidecar started but not responding yet"))
        },
    }
}

} // verus!
