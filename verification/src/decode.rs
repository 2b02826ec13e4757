//! Decoding of the engine's reply shapes into the bridge's data model.
//!
//! Each decoder is total over JSON values and states exactly which
//! shapes it accepts and what it hands back for them.

use vstd::prelude::*;

use crate::json::{
    jget, jhas, sp_num_u64, str_eq, string_from_chars, JRep, JsonValue,
};
use crate::json_out::render_rep;

verus! {

/// The abstraction of an optional string.
pub open spec fn opt_view(x: Option<String>) -> Option<Seq<char>> {
    match x {
        None => None,
        Some(s) => Some(s@),
    }
}

/// The abstraction of an optional count.
pub open spec fn opt_nat(x: Option<u64>) -> Option<nat> {
    match x {
        None => None,
        Some(n) => Some(n as nat),
    }
}

/// Reading an optional string member: absent or null is no value, a
/// string is that value, any other shape refuses the whole record.
pub open spec fn sp_opt_str(r: JRep, key: Seq<char>) -> Option<Option<Seq<char>>> {
    match jget(r, key) {
        None => Some(None),
        Some(x) => match x {
            JRep::Str(s) => Some(Some(s)),
            JRep::Null => Some(None),
            _ => None,
        },
    }
}

/// Reading an optional unsigned count member, absent or null meaning no
/// value.
pub open spec fn sp_opt_u64(r: JRep, key: Seq<char>) -> Option<Option<nat>> {
    match jget(r, key) {
        None => Some(None),
        Some(x) => match x {
            JRep::Null => Some(None),
            _ => match sp_num_u64(x) {
                Some(n) => if n <= u64::MAX {
                    Some(Some(n))
                } else {
                    None
                },
                None => None,
            },
        },
    }
}

/// Reading an optional number member kept as its decimal text, absent or
/// null meaning no value.
pub open spec fn sp_opt_num_text(r: JRep, key: Seq<char>) -> Option<Option<Seq<char>>> {
    match jget(r, key) {
        None => Some(None),
        Some(x) => match x {
            JRep::Num(s) => Some(Some(s)),
            JRep::Null => Some(None),
            _ => None,
        },
    }
}

/// Reading a string member that defaults to empty when absent.
pub open spec fn sp_str_or_empty(r: JRep, key: Seq<char>) -> Option<Seq<char>> {
    match jget(r, key) {
        None => Some(Seq::empty()),
        Some(x) => match x {
            JRep::Str(s) => Some(s),
            _ => None,
        },
    }
}

/// Reading an unsigned count member that defaults to zero when absent.
pub open spec fn sp_u64_or_zero(r: JRep, key: Seq<char>) -> Option<nat> {
    match jget(r, key) {
        None => Some(0),
        Some(x) => match sp_num_u64(x) {
            Some(n) => if n <= u64::MAX {
                Some(n)
            } else {
                None
            },
            None => None,
        },
    }
}

/// Reading a required unsigned count member.
pub open spec fn sp_u64_req(r: JRep, key: Seq<char>) -> Option<nat> {
    match jget(r, key) {
        None => None,
        Some(x) => match sp_num_u64(x) {
            Some(n) => if n <= u64::MAX {
                Some(n)
            } else {
                None
            },
            None => None,
        },
    }
}

pub(crate) fn field_opt_str(v: &JsonValue, key: &str) -> (r: Option<Option<String>>)
    ensures
        match (r, sp_opt_str(v.rep(), key@)) {
            (None, None) => true,
            (Some(x), Some(y)) => opt_view(x) == y,
            _ => false,
        },
{
    match v.get(key) {
        None => Some(None),
        Some(x) => match x {
            JsonValue::Str(s) => Some(Some(s.clone())),
            JsonValue::Null => Some(None),
            _ => None,
        },
    }
}

pub(crate) fn field_opt_u64(v: &JsonValue, key: &str) -> (r: Option<Option<u64>>)
    ensures
        match (r, sp_opt_u64(v.rep(), key@)) {
            (None, None) => true,
            (Some(x), Some(y)) => opt_nat(x) == y,
            _ => false,
        },
{
    match v.get(key) {
        None => Some(None),
        Some(x) => match x {
            JsonValue::Null => Some(None),
            _ => match x.as_u64() {
                Some(n) => Some(Some(n)),
                None => None,
            },
        },
    }
}

pub(crate) fn field_opt_num_text(v: &JsonValue, key: &str) -> (r: Option<Option<String>>)
    ensures
        match (r, sp_opt_num_text(v.rep(), key@)) {
            (None, None) => true,
            (Some(x), Some(y)) => opt_view(x) == y,
            _ => false,
        },
{
    match v.get(key) {
        None => Some(None),
        Some(x) => match x {
            JsonValue::Num(s) => Some(Some(s.clone())),
            JsonValue::Null => Some(None),
            _ => None,
        },
    }
}

pub(crate) fn field_str_or_empty(v: &JsonValue, key: &str) -> (r: Option<String>)
    ensures
        match (r, sp_str_or_empty(v.rep(), key@)) {
            (None, None) => true,
            (Some(x), Some(y)) => x@ == y,
            _ => false,
        },
{
    match v.get(key) {
        None => Some(String::new()),
        Some(x) => match x {
            JsonValue::Str(s) => Some(s.clone()),
            _ => None,
        },
    }
}

pub(crate) fn field_u64_or_zero(v: &JsonValue, key: &str) -> (r: Option<u64>)
    ensures
        match (r, sp_u64_or_zero(v.rep(), key@)) {
            (None, None) => true,
            (Some(x), Some(y)) => x as nat == y,
            _ => false,
        },
{
    match v.get(key) {
        None => Some(0),
        Some(x) => x.as_u64(),
    }
}

pub(crate) fn field_u64_req(v: &JsonValue, key: &str) -> (r: Option<u64>)
    ensures
        match (r, sp_u64_req(v.rep(), key@)) {
            (None, None) => true,
            (Some(x), Some(y)) => x as nat == y,
            _ => false,
        },
{
    match v.get(key) {
        None => None,
        Some(x) => x.as_u64(),
    }
}

/// The aggregate state of the loaded capture. The duration is kept as
/// the engine's decimal text for it, exact and unrounded.
pub struct Status {
    pub frames: Option<u64>,
    pub duration: Option<String>,
    pub filename: Option<String>,
}

/// The mathematical shape of a `Status`.
pub struct StatusRep {
    pub frames: Option<nat>,
    pub duration: Option<Seq<char>>,
    pub filename: Option<Seq<char>>,
}

impl Status {
    /// The abstraction of this status.
    pub open spec fn rep(self) -> StatusRep {
        StatusRep {
            frames: opt_nat(self.frames),
            duration: opt_view(self.duration),
            filename: opt_view(self.filename),
        }
    }
}

/// The status record a reply value decodes to, when each member present
/// has its documented shape. An absent frame count is not an error: it
/// only means no capture is loaded yet.
pub open spec fn sp_status_of(r: JRep) -> Option<StatusRep> {
    match (sp_opt_u64(r, "frames"@), sp_opt_num_text(r, "duration"@), sp_opt_str(
        r,
        "filename"@,
    )) {
        (Some(frames), Some(duration), Some(filename)) => Some(
            StatusRep { frames, duration, filename },
        ),
        _ => None,
    }
}

/// Decodes a `status` reply.
pub fn status_from_value(v: &JsonValue) -> (r: Option<Status>)
    ensures
        match (r, sp_status_of(v.rep())) {
            (None, None) => true,
            (Some(s), Some(sr)) => s.rep() == sr,
            _ => false,
        },
{
    let frames: Option<Option<u64>> = field_opt_u64(v, "frames");
    let duration: Option<Option<String>> = field_opt_num_text(v, "duration");
    let filename: Option<Option<String>> = field_opt_str(v, "filename");
    match (frames, duration, filename) {
        (Some(frames), Some(duration), Some(filename)) => Some(
            Status { frames, duration, filename },
        ),
        _ => None,
    }
}

/// One capture record: its column strings in display order, its number,
/// and optional color hints.
pub struct Frame {
    pub columns: Vec<String>,
    pub number: u32,
    pub background: Option<String>,
    pub foreground: Option<String>,
}

/// The mathematical shape of a `Frame`.
pub struct FrameRep {
    pub columns: Seq<Seq<char>>,
    pub number: nat,
    pub background: Option<Seq<char>>,
    pub foreground: Option<Seq<char>>,
}

/// Abstractions of the column strings, elementwise and in order.
pub open spec fn col_views(cols: Seq<String>) -> Seq<Seq<char>> {
    cols.map_values(|s: String| s@)
}

impl Frame {
    /// The abstraction of this frame.
    pub open spec fn rep(self) -> FrameRep {
        FrameRep {
            columns: col_views(self.columns@),
            number: self.number as nat,
            background: opt_view(self.background),
            foreground: opt_view(self.foreground),
        }
    }
}

/// The column strings of a `c` member: every element must be a string.
pub open spec fn sp_col_strs(cols: Seq<JRep>) -> Option<Seq<Seq<char>>>
    decreases cols,
{
    if cols.len() == 0 {
        Some(Seq::empty())
    } else {
        match sp_col_strs(cols.drop_last()) {
            None => None,
            Some(pre) => match cols.last() {
                JRep::Str(s) => Some(pre.push(s)),
                _ => None,
            },
        }
    }
}

/// The frame a record value decodes to: columns under `c` and the number
/// under `num` are required, the color hints are optional.
pub open spec fn sp_frame_of(r: JRep) -> Option<FrameRep> {
    match jget(r, "c"@) {
        Some(c) => match c {
            JRep::Arr(cols) => match (sp_col_strs(cols), sp_u64_req(r, "num"@), sp_opt_str(
                r,
                "bg"@,
            ), sp_opt_str(r, "fg"@)) {
                (Some(cs), Some(n), Some(bg), Some(fg)) => if n <= u32::MAX {
                    Some(FrameRep { columns: cs, number: n, background: bg, foreground: fg })
                } else {
                    None
                },
                _ => None,
            },
            _ => None,
        },
        _ => None,
    }
}

/// Decodes one frame record.
#[verifier::loop_isolation(false)]
pub fn frame_from_value(v: &JsonValue) -> (r: Option<Frame>)
    ensures
        match (r, sp_frame_of(v.rep())) {
            (None, None) => true,
            (Some(f), Some(fr)) => f.rep() == fr,
            _ => false,
        },
{
    let cols_val: Option<&JsonValue> = v.get("c");
    match cols_val {
        Some(c) => match c {
            JsonValue::Arr(cols) => {
                let mut columns: Vec<String> = Vec::new();
                let n: usize = cols.len();
                let mut i: usize = 0;
                proof {
                    crate::json::lemma_reps_of(cols@);
                }
                while i < n
                    invariant
                        0 <= i <= n,
                        n == cols@.len(),
                        crate::json::reps_of(cols@).len() == n,
                        forall|j: int| 0 <= j < n ==> #[trigger] crate::json::reps_of(cols@)[j]
                            == cols@[j].rep(),
                        sp_col_strs(crate::json::reps_of(cols@).take(i as int)) == Some(
                            col_views(columns@),
                        ),
                    decreases n - i,
                {
                    proof {
                        assert(crate::json::reps_of(cols@).take(i as int + 1).drop_last()
                            =~= crate::json::reps_of(cols@).take(i as int));
                    }
                    match &cols[i] {
                        JsonValue::Str(s) => {
                            let ghost pre = columns@;
                            columns.push(s.clone());
                            proof {
                                assert(col_views(columns@) =~= col_views(pre).push(s@));
                            }
                        },
                        _ => {
                            proof {
                                lemma_col_strs_fail(crate::json::reps_of(cols@), i as int);
                            }
                            return None;
                        },
                    }
                    i = i + 1;
                }
                proof {
                    assert(crate::json::reps_of(cols@).take(n as int) =~= crate::json::reps_of(
                        cols@,
                    ));
                }
                let num: Option<u64> = field_u64_req(v, "num");
                let bg: Option<Option<String>> = field_opt_str(v, "bg");
                let fg: Option<Option<String>> = field_opt_str(v, "fg");
                match (num, bg, fg) {
                    (Some(n), Some(background), Some(foreground)) => {
                        if n <= 0xffff_ffff {
                            Some(
                                Frame {
                                    columns,
                                    number: n as u32,
                                    background,
                                    foreground,
                                },
                            )
                        } else {
                            None
                        }
                    },
                    _ => None,
                }
            },
            _ => None,
        },
        _ => None,
    }
}

/// A prefix that refuses a column refuses the whole list.
proof fn lemma_col_strs_fail(cols: Seq<JRep>, i: int)
    requires
        0 <= i < cols.len(),
        !(cols[i] is Str),
    ensures
        sp_col_strs(cols) is None,
    decreases cols.len(),
{
    if cols.len() > 0 {
        if i == cols.len() - 1 {
        } else {
            lemma_col_strs_fail(cols.drop_last(), i);
        }
    }
}

/// A page of records as one value.
pub struct FramesResponse {
    pub frames: Vec<Frame>,
}

/// The frame list a `frames` reply decodes to: the reply must be an
/// array and every record must decode.
pub open spec fn sp_frames_of(r: JRep) -> Option<Seq<FrameRep>> {
    match r {
        JRep::Arr(elems) => sp_frame_list(elems),
        _ => None,
    }
}

/// Decoding of each record in a list.
pub open spec fn sp_frame_list(elems: Seq<JRep>) -> Option<Seq<FrameRep>>
    decreases elems,
{
    if elems.len() == 0 {
        Some(Seq::empty())
    } else {
        match (sp_frame_list(elems.drop_last()), sp_frame_of(elems.last())) {
            (Some(pre), Some(f)) => Some(pre.push(f)),
            _ => None,
        }
    }
}

/// Abstractions of decoded frames, elementwise and in order.
pub open spec fn frame_reps(frames: Seq<Frame>) -> Seq<FrameRep> {
    frames.map_values(|f: Frame| f.rep())
}

/// A record that refuses to decode refuses the whole list.
proof fn lemma_frame_list_fail(elems: Seq<JRep>, i: int)
    requires
        0 <= i < elems.len(),
        sp_frame_of(elems[i]) is None,
    ensures
        sp_frame_list(elems) is None,
    decreases elems.len(),
{
    if elems.len() > 0 {
        if i == elems.len() - 1 {
        } else {
            lemma_frame_list_fail(elems.drop_last(), i);
        }
    }
}

/// Decodes a list of frame records.
#[verifier::loop_isolation(false)]
pub fn frames_from_array(elems: &Vec<JsonValue>) -> (r: Option<Vec<Frame>>)
    ensures
        match (r, sp_frame_list(crate::json::reps_of(elems@))) {
            (None, None) => true,
            (Some(fs), Some(frs)) => frame_reps(fs@) == frs,
            _ => false,
        },
{
    let mut frames: Vec<Frame> = Vec::new();
    let n: usize = elems.len();
    let mut i: usize = 0;
    proof {
        crate::json::lemma_reps_of(elems@);
    }
    while i < n
        invariant
            0 <= i <= n,
            n == elems@.len(),
            crate::json::reps_of(elems@).len() == n,
            forall|j: int| 0 <= j < n ==> #[trigger] crate::json::reps_of(elems@)[j]
                == elems@[j].rep(),
            sp_frame_list(crate::json::reps_of(elems@).take(i as int)) == Some(frame_reps(frames@)),
        decreases n - i,
    {
        proof {
            assert(crate::json::reps_of(elems@).take(i as int + 1).drop_last()
                =~= crate::json::reps_of(elems@).take(i as int));
        }
        match frame_from_value(&elems[i]) {
            Some(f) => {
                let ghost pre = frames@;
                let ghost frep = f.rep();
                frames.push(f);
                proof {
                    assert(frame_reps(frames@) =~= frame_reps(pre).push(frep));
                }
            },
            None => {
                proof {
                    lemma_frame_list_fail(crate::json::reps_of(elems@), i as int);
                }
                return None;
            },
        }
        i = i + 1;
    }
    proof {
        assert(crate::json::reps_of(elems@).take(n as int) =~= crate::json::reps_of(elems@));
    }
    Some(frames)
}

/// Decodes a plain `frames` reply, which is a bare array of records.
pub fn frames_from_value(v: &JsonValue) -> (r: Option<Vec<Frame>>)
    ensures
        match (r, sp_frames_of(v.rep())) {
            (None, None) => true,
            (Some(fs), Some(frs)) => frame_reps(fs@) == frs,
            _ => false,
        },
{
    match v {
        JsonValue::Arr(elems) => frames_from_array(elems),
        _ => None,
    }
}

/// The page a filtered search decodes to, and the count reported with
/// it. The engine hands the page back either as a bare array or wrapped
/// under a `frames` member; both are accepted; any other shape yields an
/// empty page. The count is only the number of records in this page —
/// there is no cheap true total, and callers must not mistake it for
/// one.
pub open spec fn sp_search_of(r: JRep) -> Option<(Seq<FrameRep>, nat)> {
    match r {
        JRep::Arr(elems) => match sp_frame_list(elems) {
            Some(fs) => Some((fs, fs.len())),
            None => None,
        },
        _ => match jget(r, "frames"@) {
            Some(w) => match w {
                JRep::Arr(elems) => match sp_frame_list(elems) {
                    Some(fs) => Some((fs, fs.len())),
                    None => None,
                },
                _ => None,
            },
            None => Some((Seq::empty(), 0)),
        },
    }
}

/// Decodes a filtered search reply into its page and the page's own
/// record count.
pub fn search_from_value(v: &JsonValue) -> (r: Option<(Vec<Frame>, u64)>)
    requires
        true,
    ensures
        match (r, sp_search_of(v.rep())) {
            (None, None) => true,
            (Some(p), Some(q)) => frame_reps(p.0@) == q.0 && p.1 as nat == q.1 && p.1 as nat
                == q.0.len(),
            _ => false,
        },
{
    match v {
        JsonValue::Arr(elems) => match frames_from_array(elems) {
            Some(fs) => {
                let n: usize = fs.len();
                if n as u64 <= u64::MAX {
                    Some((fs, n as u64))
                } else {
                    None
                }
            },
            None => None,
        },
        _ => match v.get("frames") {
            Some(w) => match w {
                JsonValue::Arr(elems) => match frames_from_array(elems) {
                    Some(fs) => {
                        let n: usize = fs.len();
                        Some((fs, n as u64))
                    },
                    None => None,
                },
                _ => None,
            },
            None => Some((Vec::new(), 0)),
        },
    }
}

/// Whether a `check` reply means the filter is valid: it is valid
/// exactly when the reply carries no `err` member. This function is
/// total: a malformed reply is a verdict, never a failure.
pub fn check_filter_verdict(v: &JsonValue) -> (r: bool)
    ensures
        r == !jhas(v.rep(), "err"@),
{
    match v.get("err") {
        Some(_) => false,
        None => true,
    }
}

/// The acceptance rule when a filter is applied: an empty expression is
/// always accepted; any other stands or falls with the engine's verdict
/// on it.
pub open spec fn sp_filter_accepted(filter: Seq<char>, verdict: bool) -> bool {
    filter.len() == 0 || verdict
}

/// Applies the acceptance rule.
pub fn filter_accepted(filter: &str, verdict: bool) -> (r: bool)
    ensures
        r == sp_filter_accepted(filter@, verdict),
{
    filter.unicode_len() == 0 || verdict
}

/// An empty filter expression is accepted whatever the engine's verdict
/// would have been.
pub proof fn lemma_empty_filter_always_accepted(verdict: bool)
    ensures
        sp_filter_accepted(Seq::empty(), verdict),
{
}

/// The error value of a `load` reply: none when the reply is
/// `status: "OK"`; otherwise the `err` member if there is one.
pub open spec fn sp_load_error(r: JRep) -> Option<JRep> {
    if jget(r, "status"@) == Some(JRep::Str("OK"@)) {
        None
    } else {
        jget(r, "err"@)
    }
}

/// Reads a `load` reply: success on `status: "OK"`, the error code's
/// text on an `err` member, and success again when the reply names
/// neither.
pub fn load_verdict(v: &JsonValue) -> (r: Result<(), String>)
    ensures
        match (r, sp_load_error(v.rep())) {
            (Ok(()), None) => true,
            (Err(m), Some(e)) => m@ == "Failed to load file: error code "@ + render_rep(e),
            _ => false,
        },
{
    let ok: bool = match v.get("status") {
        Some(s) => match s {
            JsonValue::Str(t) => str_eq(t.as_str(), "OK"),
            _ => false,
        },
        None => false,
    };
    if ok {
        return Ok(());
    }
    match v.get("err") {
        Some(e) => {
            let rendered: String = crate::json_out::render_json(e);
            let mut msg: Vec<char> = crate::json::chars_of_str("Failed to load file: error code ");
            let mut tail: Vec<char> = crate::json::chars_of_str(rendered.as_str());
            msg.append(&mut tail);
            Err(string_from_chars(&msg))
        },
        None => Ok(()),
    }
}

/// Whether a startup status reply looks like the engine answering: it
/// must name its frames or its columns. The spawn handshake requires
/// this before the bridge is declared ready.
pub fn handshake_ok(v: &JsonValue) -> (r: bool)
    ensures
        r == (jhas(v.rep(), "frames"@) || jhas(v.rep(), "columns"@)),
{
    let frames: bool = match v.get("frames") {
        Some(_) => true,
        None => false,
    };
    let columns: bool = match v.get("columns") {
        Some(_) => true,
        None => false,
    };
    frames || columns
}

/// The label for a payload direction bit: zero is traffic from the
/// client to the server, anything else the other way.
pub fn direction_label(dir: u8) -> (r: String)
    ensures
        dir == 0 ==> r@ == "client_to_server"@,
        dir != 0 ==> r@ == "server_to_client"@,
{
    if dir == 0 {
        String::from_str("client_to_server")
    } else {
        String::from_str("server_to_client")
    }
}

} // verus!
