//! Discovery of a usable engine executable.
//!
//! The caller probes the filesystem and hands the outcomes in; the
//! decision — which path wins, and the diagnostic trail of every path
//! probed and why it was passed over — is made here, one platform
//! strategy record at a time. In production mode the bundled candidates
//! beside the running executable are preferred, a wrapper entry point
//! before the raw binary; failing those, discovery falls back to the
//! system candidates.

use vstd::prelude::*;

use crate::json::{chars_of_str, string_from_chars, str_eq};

verus! {

/// The platforms the bundle strategy table knows.
#[derive(Clone, Copy, PartialEq, Eq, Structural, Debug)]
pub enum Platform {
    LinuxX64,
    LinuxArm64,
    MacX64,
    MacArm64,
    WindowsX64,
    Other,
}

/// The target-triple string for a platform.
pub open spec fn sp_target_triple(p: Platform) -> Seq<char> {
    match p {
        Platform::LinuxX64 => "x86_64-unknown-linux-gnu"@,
        Platform::LinuxArm64 => "aarch64-unknown-linux-gnu"@,
        Platform::MacX64 => "x86_64-apple-darwin"@,
        Platform::MacArm64 => "aarch64-apple-darwin"@,
        Platform::WindowsX64 => "x86_64-pc-windows-msvc"@,
        Platform::Other => "unknown"@,
    }
}

/// The target-triple string for a platform; `unknown` for one outside
/// the table.
pub fn get_target_triple(p: Platform) -> (r: String)
    ensures
        r@ == sp_target_triple(p),
{
    match p {
        Platform::LinuxX64 => String::from_str("x86_64-unknown-linux-gnu"),
        Platform::LinuxArm64 => String::from_str("aarch64-unknown-linux-gnu"),
        Platform::MacX64 => String::from_str("x86_64-apple-darwin"),
        Platform::MacArm64 => String::from_str("aarch64-apple-darwin"),
        Platform::WindowsX64 => String::from_str("x86_64-pc-windows-msvc"),
        Platform::Other => String::from_str("unknown"),
    }
}

/// The path separator a platform writes.
pub open spec fn sp_sep(p: Platform) -> char {
    if p is WindowsX64 {
        '\\'
    } else {
        '/'
    }
}

/// Whether `needle` occurs contiguously inside `hay`.
pub open spec fn sp_contains(hay: Seq<char>, needle: Seq<char>) -> bool {
    exists|i: int|
        0 <= i && i + needle.len() <= hay.len() && #[trigger] hay.subrange(i, i + needle.len())
            == needle
}

/// Whether `hay` matches `needle` at position `i`.
fn match_at(hay: &Vec<char>, needle: &Vec<char>, i: usize) -> (r: bool)
    requires
        i + needle@.len() <= hay@.len(),
    ensures
        r == (hay@.subrange(i as int, i as int + needle@.len() as int) == needle@),
{
    let n: usize = needle.len();
    let hl: usize = hay.len();
    let mut j: usize = 0;
    while j < n
        invariant
            0 <= j <= n,
            n == needle@.len(),
            hl == hay@.len(),
            i + n <= hay@.len(),
            forall|k: int| 0 <= k < j ==> hay@[i as int + k] == needle@[k],
        decreases n - j,
    {
        if hay[i + j] != needle[j] {
            proof {
                assert(hay@.subrange(i as int, i as int + n as int)[j as int] != needle@[j as int]);
            }
            return false;
        }
        j = j + 1;
    }
    proof {
        assert(hay@.subrange(i as int, i as int + n as int) =~= needle@);
    }
    true
}

/// Substring search.
#[verifier::loop_isolation(false)]
pub fn contains_sub(hay: &str, needle: &str) -> (r: bool)
    ensures
        r == sp_contains(hay@, needle@),
{
    let h: Vec<char> = chars_of_str(hay);
    let nd: Vec<char> = chars_of_str(needle);
    let hn: usize = h.len();
    let nn: usize = nd.len();
    if nn > hn {
        return false;
    }
    if nn == 0 {
        proof {
            assert(hay@.subrange(0, 0 + needle@.len() as int) =~= needle@);
        }
        return true;
    }
    let mut i: usize = 0;
    while i <= hn - nn
        invariant
            0 <= i <= hn - nn + 1,
            forall|k: int|
                0 <= k < i ==> #[trigger] hay@.subrange(k, k + needle@.len() as int) != needle@,
        decreases hn - nn - i + 1,
    {
        if match_at(&h, &nd, i) {
            return true;
        }
        i = i + 1;
    }
    false
}

/// Development builds run out of a `target/debug` or `target/release`
/// directory; every other executable location is production.
pub open spec fn sp_is_production(exe_path: Seq<char>) -> bool {
    !sp_contains(exe_path, "target/debug"@) && !sp_contains(exe_path, "target/release"@)
}

/// Whether the path of the running executable marks a production
/// install.
pub fn is_production_mode(exe_path: &str) -> (r: bool)
    ensures
        r == sp_is_production(exe_path@),
{
    !contains_sub(exe_path, "target/debug") && !contains_sub(exe_path, "target/release")
}

/// `dir`, the separator, then `name`.
pub open spec fn sp_join(dir: Seq<char>, p: Platform, name: Seq<char>) -> Seq<char> {
    dir + seq![sp_sep(p)] + name
}

/// Joins a file name onto a directory with the platform's separator.
pub fn join_path(dir: &str, p: Platform, name: &str) -> (r: String)
    ensures
        r@ == sp_join(dir@, p, name@),
{
    let mut out: Vec<char> = chars_of_str(dir);
    if match p {
        Platform::WindowsX64 => true,
        _ => false,
    } {
        out.push('\\');
    } else {
        out.push('/');
    }
    let mut tail: Vec<char> = chars_of_str(name);
    out.append(&mut tail);
    proof {
        assert(out@ =~= sp_join(dir@, p, name@));
    }
    string_from_chars(&out)
}

/// The bundled candidate names for a platform, best first: on Windows
/// the triple-qualified binary then the plain legacy name; elsewhere the
/// wrapper entry point, the raw binary, then the plain legacy name. The
/// wrapper is preferred because it sets up the runtime library path.
pub open spec fn sp_bundled_candidates(exe_dir: Seq<char>, p: Platform) -> Seq<Seq<char>> {
    if p is WindowsX64 {
        seq![
            sp_join(exe_dir, p, "sharkd-"@ + sp_target_triple(p) + ".exe"@),
            sp_join(exe_dir, p, "sharkd.exe"@),
        ]
    } else {
        seq![
            sp_join(exe_dir, p, "sharkd-wrapper-"@ + sp_target_triple(p)),
            sp_join(exe_dir, p, "sharkd-"@ + sp_target_triple(p)),
            sp_join(exe_dir, p, "sharkd"@),
        ]
    }
}

/// Abstractions of a path list.
pub open spec fn path_views(s: Seq<String>) -> Seq<Seq<char>> {
    s.map_values(|p: String| p@)
}

fn concat_strs(a: &str, b: &str) -> (r: String)
    ensures
        r@ == a@ + b@,
{
    let mut out: Vec<char> = chars_of_str(a);
    let mut tail: Vec<char> = chars_of_str(b);
    out.append(&mut tail);
    proof {
        assert(out@ =~= a@ + b@);
    }
    string_from_chars(&out)
}

/// The bundled candidate paths beside the running executable, best
/// first.
pub fn bundled_sharkd_candidates(exe_dir: &str, p: Platform) -> (r: Vec<String>)
    ensures
        path_views(r@) == sp_bundled_candidates(exe_dir@, p),
{
    let triple: String = get_target_triple(p);
    let mut out: Vec<String> = Vec::new();
    let windows: bool = match p {
        Platform::WindowsX64 => true,
        _ => false,
    };
    if windows {
        let qualified: String = concat_strs(
            concat_strs("sharkd-", triple.as_str()).as_str(),
            ".exe",
        );
        out.push(join_path(exe_dir, p, qualified.as_str()));
        out.push(join_path(exe_dir, p, "sharkd.exe"));
    } else {
        let wrapper: String = concat_strs("sharkd-wrapper-", triple.as_str());
        let raw: String = concat_strs("sharkd-", triple.as_str());
        out.push(join_path(exe_dir, p, wrapper.as_str()));
        out.push(join_path(exe_dir, p, raw.as_str()));
        out.push(join_path(exe_dir, p, "sharkd"));
    }
    proof {
        assert(path_views(out@) =~= sp_bundled_candidates(exe_dir@, p));
    }
    out
}

/// The fixed Windows install locations probed after the PATH lookup.
pub open spec fn sp_windows_install_paths() -> Seq<Seq<char>> {
    seq![
        "C:\\Program Files\\Wireshark\\sharkd.exe"@,
        "C:\\Program Files (x86)\\Wireshark\\sharkd.exe"@,
    ]
}

/// Whether `s` holds `x`, by contents.
pub open spec fn sp_seq_has(s: Seq<Seq<char>>, x: Seq<char>) -> bool {
    exists|i: int| 0 <= i < s.len() && s[i] == x
}

/// `s` with later repetitions of a path removed, first occurrences kept
/// in order.
pub open spec fn sp_dedup(s: Seq<Seq<char>>) -> Seq<Seq<char>>
    decreases s,
{
    if s.len() == 0 {
        Seq::empty()
    } else {
        let pre = sp_dedup(s.drop_last());
        if sp_seq_has(s.drop_last(), s.last()) {
            pre
        } else {
            pre.push(s.last())
        }
    }
}

fn vec_has_str(s: &Vec<String>, x: &str) -> (r: bool)
    ensures
        r == sp_seq_has(path_views(s@), x@),
{
    let n: usize = s.len();
    let mut i: usize = 0;
    while i < n
        invariant
            0 <= i <= n,
            n == s@.len(),
            forall|k: int| 0 <= k < i ==> path_views(s@)[k] != x@,
        decreases n - i,
    {
        if str_eq(s[i].as_str(), x) {
            proof {
                assert(path_views(s@)[i as int] == x@);
            }
            return true;
        }
        i = i + 1;
    }
    proof {
        assert(forall|k: int| 0 <= k < path_views(s@).len() ==> path_views(s@)[k] != x@);
    }
    false
}

/// The system candidate paths: what the platform's PATH lookup found,
/// with the fixed Windows install locations appended there, duplicates
/// dropped while the first occurrences keep their order.
pub open spec fn sp_system_candidates(path_hits: Seq<Seq<char>>, p: Platform) -> Seq<Seq<char>> {
    if p is WindowsX64 {
        sp_dedup(path_hits + sp_windows_install_paths())
    } else {
        sp_dedup(path_hits)
    }
}

/// Builds the system candidate list from the PATH lookup's results.
#[verifier::loop_isolation(false)]
pub fn system_sharkd_candidates(path_hits: &Vec<String>, p: Platform) -> (r: Vec<String>)
    ensures
        path_views(r@) == sp_system_candidates(path_views(path_hits@), p),
{
    let mut all: Vec<String> = Vec::new();
    let n: usize = path_hits.len();
    let mut i: usize = 0;
    while i < n
        invariant
            0 <= i <= n,
            path_views(all@) == path_views(path_hits@).take(i as int),
        decreases n - i,
    {
        all.push(path_hits[i].clone());
        proof {
            assert(path_views(all@) =~= path_views(path_hits@).take(i as int + 1));
        }
        i = i + 1;
    }
    proof {
        assert(path_views(path_hits@).take(n as int) =~= path_views(path_hits@));
    }
    let windows: bool = match p {
        Platform::WindowsX64 => true,
        _ => false,
    };
    if windows {
        all.push(String::from_str("C:\\Program Files\\Wireshark\\sharkd.exe"));
        all.push(String::from_str("C:\\Program Files (x86)\\Wireshark\\sharkd.exe"));
        proof {
            assert(path_views(all@) =~= path_views(path_hits@) + sp_windows_install_paths());
        }
    }
    let ghost pool = path_views(all@);
    let mut out: Vec<String> = Vec::new();
    let m: usize = all.len();
    let mut j: usize = 0;
    proof {
        assert(path_views(out@) =~= sp_dedup(pool.take(0)));
    }
    while j < m
        invariant
            0 <= j <= m,
            m == all@.len(),
            pool == path_views(all@),
            path_views(out@) == sp_dedup(pool.take(j as int)),
        decreases m - j,
    {
        proof {
            assert(pool.take(j as int + 1).drop_last() =~= pool.take(j as int));
        }
        if !vec_has_str(&out, all[j].as_str()) {
            // A fresh path joins the kept list exactly when no earlier
            // candidate equals it.
            proof {
                lemma_dedup_keeps(pool, j as int, path_views(out@));
            }
            let ghost pre = path_views(out@);
            out.push(all[j].clone());
            proof {
                assert(path_views(out@) =~= pre.push(pool[j as int]));
            }
        } else {
            proof {
                lemma_dedup_drops(pool, j as int, path_views(out@));
            }
        }
        j = j + 1;
    }
    proof {
        assert(pool.take(m as int) =~= pool);
    }
    out
}

/// Membership in a prefix's dedup equals membership in the prefix.
proof fn lemma_dedup_has(s: Seq<Seq<char>>, x: Seq<char>)
    ensures
        sp_seq_has(sp_dedup(s), x) == sp_seq_has(s, x),
    decreases s,
{
    if s.len() > 0 {
        lemma_dedup_has(s.drop_last(), x);
        let pre = sp_dedup(s.drop_last());
        if sp_seq_has(s.drop_last(), s.last()) {
            assert(sp_seq_has(s, x) == (sp_seq_has(s.drop_last(), x) || x == s.last())) by {
                if sp_seq_has(s.drop_last(), x) {
                    let i = choose|i: int| 0 <= i < s.drop_last().len() && s.drop_last()[i] == x;
                    assert(s[i] == x);
                } else if x == s.last() {
                    assert(s[s.len() - 1] == x);
                } else if sp_seq_has(s, x) {
                    let i = choose|i: int| 0 <= i < s.len() && s[i] == x;
                    if i < s.len() - 1 {
                        assert(s.drop_last()[i] == x);
                    }
                }
            }
        } else {
            assert(sp_seq_has(s, x) == (sp_seq_has(s.drop_last(), x) || x == s.last())) by {
                if sp_seq_has(s.drop_last(), x) {
                    let i = choose|i: int| 0 <= i < s.drop_last().len() && s.drop_last()[i] == x;
                    assert(s[i] == x);
                } else if x == s.last() {
                    assert(s[s.len() - 1] == x);
                } else if sp_seq_has(s, x) {
                    let i = choose|i: int| 0 <= i < s.len() && s[i] == x;
                    if i < s.len() - 1 {
                        assert(s.drop_last()[i] == x);
                    }
                }
            }
            assert(sp_seq_has(sp_dedup(s), x) == (sp_seq_has(pre, x) || x == s.last())) by {
                if sp_seq_has(pre, x) {
                    let i = choose|i: int| 0 <= i < pre.len() && pre[i] == x;
                    assert(sp_dedup(s)[i] == x);
                } else if x == s.last() {
                    assert(sp_dedup(s)[sp_dedup(s).len() - 1] == x);
                } else if sp_seq_has(sp_dedup(s), x) {
                    let i = choose|i: int| 0 <= i < sp_dedup(s).len() && sp_dedup(s)[i] == x;
                    if i < sp_dedup(s).len() - 1 {
                        assert(pre[i] == x);
                    }
                }
            }
        }
    }
}

proof fn lemma_dedup_keeps(pool: Seq<Seq<char>>, j: int, kept: Seq<Seq<char>>)
    requires
        0 <= j < pool.len(),
        kept == sp_dedup(pool.take(j)),
        !sp_seq_has(kept, pool[j]),
    ensures
        sp_dedup(pool.take(j + 1)) == kept.push(pool[j]),
{
    assert(pool.take(j + 1).drop_last() =~= pool.take(j));
    assert(pool.take(j + 1).last() == pool[j]);
    lemma_dedup_has(pool.take(j), pool[j]);
}

proof fn lemma_dedup_drops(pool: Seq<Seq<char>>, j: int, kept: Seq<Seq<char>>)
    requires
        0 <= j < pool.len(),
        kept == sp_dedup(pool.take(j)),
        sp_seq_has(kept, pool[j]),
    ensures
        sp_dedup(pool.take(j + 1)) == kept,
{
    assert(pool.take(j + 1).drop_last() =~= pool.take(j));
    assert(pool.take(j + 1).last() == pool[j]);
    lemma_dedup_has(pool.take(j), pool[j]);
}

/// One probed filesystem path and whether it existed.
pub struct ProbedPath {
    pub path: String,
    pub exists: bool,
}

/// The mathematical shape of a probe outcome.
pub struct ProbeRep {
    pub path: Seq<char>,
    pub exists: bool,
}

impl ProbedPath {
    /// The abstraction of this probe outcome.
    pub open spec fn rep(self) -> ProbeRep {
        ProbeRep { path: self.path@, exists: self.exists }
    }
}

/// Abstractions of a probe list, elementwise and in order.
pub open spec fn probe_reps(s: Seq<ProbedPath>) -> Seq<ProbeRep> {
    s.map_values(|p: ProbedPath| p.rep())
}

/// Everything discovery decides from: where the running executable is,
/// which platform this is, and the probe outcomes for the bundled and
/// system candidate paths, in their preference order.
pub struct DiscoverySnapshot {
    pub exe_path: Option<String>,
    pub platform: Platform,
    pub bundled: Vec<ProbedPath>,
    pub system: Vec<ProbedPath>,
}

/// Whether the snapshot marks a production install; without a known
/// executable path it does not.
pub open spec fn sp_snap_production(snap: DiscoverySnapshot) -> bool {
    match snap.exe_path {
        Some(p) => sp_is_production(p@),
        None => false,
    }
}

/// The words `true` or `false`.
pub open spec fn sp_bool_text(b: bool) -> Seq<char> {
    if b {
        "true"@
    } else {
        "false"@
    }
}

/// One trail line for one probed candidate.
pub open spec fn sp_check_line(kind: Seq<char>, p: ProbeRep) -> Seq<char> {
    "Checking "@ + kind + " path: "@ + p.path + " (exists: "@ + sp_bool_text(p.exists) + ")"@
}

/// The trail lines of a probe run: one line per candidate, stopping at
/// and including the first that exists.
pub open spec fn sp_check_lines(kind: Seq<char>, ps: Seq<ProbeRep>) -> Seq<Seq<char>>
    decreases ps,
{
    if ps.len() == 0 {
        Seq::empty()
    } else if ps.first().exists {
        seq![sp_check_line(kind, ps.first())]
    } else {
        seq![sp_check_line(kind, ps.first())] + sp_check_lines(kind, ps.drop_first())
    }
}

/// The first candidate that exists, in preference order.
pub open spec fn sp_first_existing(ps: Seq<ProbeRep>) -> Option<Seq<char>>
    decreases ps,
{
    if ps.len() == 0 {
        None
    } else if ps.first().exists {
        Some(ps.first().path)
    } else {
        sp_first_existing(ps.drop_first())
    }
}

/// The opening lines of every trail.
pub open spec fn sp_header(snap: DiscoverySnapshot) -> Seq<Seq<char>> {
    seq!["=== Sharkd Detection Debug ==="@] + (match snap.exe_path {
        Some(p) => seq![
            "Current executable: "@ + p@,
            "Is production mode: "@ + sp_bool_text(sp_is_production(p@)),
        ],
        None => seq!["Failed to get current executable"@],
    })
}

/// The bundled-probe section of the trail: the probe lines in
/// production mode, one note in development mode.
pub open spec fn sp_bundled_part(snap: DiscoverySnapshot) -> Seq<Seq<char>> {
    if sp_snap_production(snap) {
        sp_check_lines("bundled"@, probe_reps(snap.bundled@))
    } else {
        seq!["Development mode - bundled path checks are optional"@]
    }
}

/// The bundled candidate that wins, when one does: only production mode
/// considers them.
pub open spec fn sp_found_bundled(snap: DiscoverySnapshot) -> Option<Seq<char>> {
    if sp_snap_production(snap) {
        sp_first_existing(probe_reps(snap.bundled@))
    } else {
        None
    }
}

/// The path discovery settles on: the best existing bundled candidate
/// in production mode, else the best existing system candidate.
pub open spec fn sp_located(snap: DiscoverySnapshot) -> Option<Seq<char>> {
    match sp_found_bundled(snap) {
        Some(p) => Some(p),
        None => sp_first_existing(probe_reps(snap.system@)),
    }
}

/// The whole trail: the header, the bundled section, and — unless a
/// bundled candidate won — the fallback note and the system probe
/// lines.
pub open spec fn sp_trail(snap: DiscoverySnapshot) -> Seq<Seq<char>> {
    if sp_found_bundled(snap) is Some {
        sp_header(snap) + sp_bundled_part(snap)
    } else {
        sp_header(snap) + sp_bundled_part(snap) + seq![
            "Falling back to system sharkd discovery..."@,
        ] + sp_check_lines("system"@, probe_reps(snap.system@))
    }
}

/// Lines joined with newlines.
pub open spec fn sp_join_lines(ls: Seq<Seq<char>>) -> Seq<char>
    decreases ls,
{
    if ls.len() == 0 {
        Seq::empty()
    } else if ls.len() == 1 {
        ls[0]
    } else {
        sp_join_lines(ls.drop_last()) + seq!['\n'] + ls.last()
    }
}

/// The message a failed discovery carries: what was expected, then the
/// whole trail.
pub open spec fn sp_not_found_message(snap: DiscoverySnapshot) -> Seq<char> {
    "Sharkd not found. Expected a bundled sharkd beside the application or a Wireshark install with sharkd on the PATH.\n\nDebug info:\n"@
        + sp_join_lines(sp_trail(snap))
}

/// Joins trail lines with newlines.
#[verifier::loop_isolation(false)]
pub fn join_lines(ls: &Vec<String>) -> (r: String)
    ensures
        r@ == sp_join_lines(path_views(ls@)),
{
    let mut out: Vec<char> = Vec::new();
    let n: usize = ls.len();
    let mut i: usize = 0;
    proof {
        assert(path_views(ls@).take(0) =~= Seq::<Seq<char>>::empty());
    }
    while i < n
        invariant
            0 <= i <= n,
            out@ == sp_join_lines(path_views(ls@).take(i as int)),
        decreases n - i,
    {
        if i > 0 {
            out.push('\n');
        }
        let mut line: Vec<char> = chars_of_str(ls[i].as_str());
        out.append(&mut line);
        proof {
            let views = path_views(ls@);
            assert(views.take(i as int + 1).drop_last() =~= views.take(i as int));
            assert(views.take(i as int + 1).last() == views[i as int]);
            assert(out@ =~= sp_join_lines(views.take(i as int + 1)));
        }
        i = i + 1;
    }
    proof {
        assert(path_views(ls@).take(n as int) =~= path_views(ls@));
    }
    string_from_chars(&out)
}

/// Candidates before the first hit contribute their lines and nothing
/// else.
proof fn lemma_probe_prefix(kind: Seq<char>, ps: Seq<ProbeRep>, i: int)
    requires
        0 <= i <= ps.len(),
        forall|k: int| 0 <= k < i ==> !(#[trigger] ps[k]).exists,
    ensures
        sp_check_lines(kind, ps) == ps.take(i).map_values(|p: ProbeRep| sp_check_line(kind, p))
            + sp_check_lines(kind, ps.skip(i)),
        sp_first_existing(ps) == sp_first_existing(ps.skip(i)),
    decreases i,
{
    if i == 0 {
        assert(ps.skip(0) =~= ps);
        assert(ps.take(0).map_values(|p: ProbeRep| sp_check_line(kind, p))
            =~= Seq::<Seq<char>>::empty());
        assert(ps.take(0).map_values(|p: ProbeRep| sp_check_line(kind, p)) + sp_check_lines(
            kind,
            ps,
        ) =~= sp_check_lines(kind, ps));
    } else {
        lemma_probe_prefix(kind, ps, i - 1);
        assert(ps.skip(i - 1).len() > 0);
        assert(ps.skip(i - 1).first() == ps[i - 1]);
        assert(!ps[i - 1].exists);
        assert(ps.skip(i - 1).drop_first() =~= ps.skip(i));
        assert(sp_check_lines(kind, ps.skip(i - 1)) == seq![sp_check_line(kind, ps[i - 1])]
            + sp_check_lines(kind, ps.skip(i)));
        assert(ps.take(i).map_values(|p: ProbeRep| sp_check_line(kind, p)) =~= ps.take(
            i - 1,
        ).map_values(|p: ProbeRep| sp_check_line(kind, p)) + seq![sp_check_line(kind, ps[i - 1])]);
        assert(sp_check_lines(kind, ps) =~= ps.take(i).map_values(
            |p: ProbeRep| sp_check_line(kind, p),
        ) + sp_check_lines(kind, ps.skip(i)));
    }
}

fn bool_word(b: bool) -> (r: String)
    ensures
        r@ == sp_bool_text(b),
{
    if b {
        String::from_str("true")
    } else {
        String::from_str("false")
    }
}

fn check_line(kind: &str, p: &ProbedPath) -> (r: String)
    ensures
        r@ == sp_check_line(kind@, p.rep()),
{
    let a: String = concat_strs("Checking ", kind);
    let b: String = concat_strs(a.as_str(), " path: ");
    let c: String = concat_strs(b.as_str(), p.path.as_str());
    let d: String = concat_strs(c.as_str(), " (exists: ");
    let e: String = concat_strs(d.as_str(), bool_word(p.exists).as_str());
    concat_strs(e.as_str(), ")")
}

/// Walks one candidate list, appending a line per probe until and
/// including the first that exists, whose path is returned.
#[verifier::loop_isolation(false)]
fn probe_run(kind: &str, ps: &Vec<ProbedPath>, trail: &mut Vec<String>) -> (r: Option<String>)
    ensures
        path_views(final(trail)@) == path_views(old(trail)@) + sp_check_lines(
            kind@,
            probe_reps(ps@),
        ),
        match r {
            Some(p) => sp_first_existing(probe_reps(ps@)) == Some(p@),
            None => sp_first_existing(probe_reps(ps@)) is None,
        },
{
    let n: usize = ps.len();
    let mut i: usize = 0;
    while i < n
        invariant
            0 <= i <= n,
            forall|k: int| 0 <= k < i ==> !(#[trigger] probe_reps(ps@)[k]).exists,
            path_views(trail@) == path_views(old(trail)@) + probe_reps(ps@).take(
                i as int,
            ).map_values(|p: ProbeRep| sp_check_line(kind@, p)),
        decreases n - i,
    {
        let line: String = check_line(kind, &ps[i]);
        let ghost pre = path_views(trail@);
        trail.push(line);
        proof {
            let reps = probe_reps(ps@);
            assert(reps.take(i as int + 1).drop_last() =~= reps.take(i as int));
            assert(path_views(trail@) =~= pre.push(sp_check_line(kind@, reps[i as int])));
            assert(reps.take(i as int + 1).map_values(|p: ProbeRep| sp_check_line(kind@, p))
                =~= reps.take(i as int).map_values(|p: ProbeRep| sp_check_line(kind@, p)).push(
                sp_check_line(kind@, reps[i as int]),
            ));
        }
        if ps[i].exists {
            proof {
                let reps = probe_reps(ps@);
                lemma_probe_prefix(kind@, reps, i as int);
                assert(reps.skip(i as int).first() == reps[i as int]);
                assert(sp_check_lines(kind@, reps.skip(i as int)) == seq![
                    sp_check_line(kind@, reps[i as int]),
                ]);
                assert(path_views(trail@) =~= path_views(old(trail)@) + sp_check_lines(
                    kind@,
                    reps,
                ));
            }
            return Some(ps[i].path.clone());
        }
        i = i + 1;
    }
    proof {
        let reps = probe_reps(ps@);
        lemma_probe_prefix(kind@, reps, n as int);
        assert(reps.skip(n as int) =~= Seq::<ProbeRep>::empty());
        assert(path_views(trail@) =~= path_views(old(trail)@) + sp_check_lines(kind@, reps));
    }
    None
}

/// Runs discovery over a snapshot: the chosen path with the trail, or
/// the not-found message whose text holds the whole trail.
pub fn find_sharkd_with_debug(snap: &DiscoverySnapshot) -> (r: Result<(String, Vec<String>), String>)
    ensures
        match r {
            Ok(p) => sp_located(*snap) == Some(p.0@) && path_views(p.1@) == sp_trail(*snap),
            Err(m) => sp_located(*snap) is None && m@ == sp_not_found_message(*snap),
        },
{
    let mut trail: Vec<String> = Vec::new();
    trail.push(String::from_str("=== Sharkd Detection Debug ==="));
    let production: bool = match &snap.exe_path {
        Some(p) => {
            trail.push(concat_strs("Current executable: ", p.as_str()));
            let production: bool = is_production_mode(p.as_str());
            trail.push(
                concat_strs("Is production mode: ", bool_word(production).as_str()),
            );
            production
        },
        None => {
            trail.push(String::from_str("Failed to get current executable"));
            false
        },
    };
    proof {
        assert(path_views(trail@) =~= sp_header(*snap));
    }
    if production {
        match probe_run("bundled", &snap.bundled, &mut trail) {
            Some(p) => {
                proof {
                    assert(path_views(trail@) =~= sp_trail(*snap));
                }
                return Ok((p, trail));
            },
            None => {},
        }
    } else {
        trail.push(String::from_str("Development mode - bundled path checks are optional"));
    }
    proof {
        assert(path_views(trail@) =~= sp_header(*snap) + sp_bundled_part(*snap));
    }
    trail.push(String::from_str("Falling back to system sharkd discovery..."));
    match probe_run("system", &snap.system, &mut trail) {
        Some(p) => {
            proof {
                assert(path_views(trail@) =~= sp_trail(*snap));
            }
            Ok((p, trail))
        },
        None => {
            proof {
                assert(path_views(trail@) =~= sp_trail(*snap));
            }
            let ghost joined = sp_join_lines(sp_trail(*snap));
            let body: String = join_lines(&trail);
            let msg: String = concat_strs(
                "Sharkd not found. Expected a bundled sharkd beside the application or a Wireshark install with sharkd on the PATH.\n\nDebug info:\n",
                body.as_str(),
            );
            Err(msg)
        },
    }
}

/// Runs discovery over a snapshot, keeping only the chosen path.
pub fn find_sharkd(snap: &DiscoverySnapshot) -> (r: Result<String, String>)
    ensures
        match r {
            Ok(p) => sp_located(*snap) == Some(p@),
            Err(m) => sp_located(*snap) is None && m@ == sp_not_found_message(*snap),
        },
{
    match find_sharkd_with_debug(snap) {
        Ok(p) => Ok(p.0),
        Err(m) => Err(m),
    }
}

proof fn lemma_first_existing_none(ps: Seq<ProbeRep>)
    requires
        forall|i: int| 0 <= i < ps.len() ==> !(#[trigger] ps[i]).exists,
    ensures
        sp_first_existing(ps) is None,
    decreases ps,
{
    if ps.len() > 0 {
        assert(forall|i: int|
            0 <= i < ps.drop_first().len() ==> !(#[trigger] ps.drop_first()[i]).exists);
        lemma_first_existing_none(ps.drop_first());
    }
}

/// In production mode with every bundled candidate absent and a system
/// candidate present, discovery settles on the first existing system
/// candidate, and the trail holds one rejection line for each bundled
/// candidate before the fallback note and the system lines.
pub proof fn lemma_system_fallback(snap: DiscoverySnapshot)
    requires
        sp_snap_production(snap),
        forall|i: int|
            0 <= i < snap.bundled@.len() ==> !(#[trigger] probe_reps(snap.bundled@)[i]).exists,
        sp_first_existing(probe_reps(snap.system@)) is Some,
    ensures
        sp_located(snap) == sp_first_existing(probe_reps(snap.system@)),
        sp_trail(snap) == sp_header(snap) + probe_reps(snap.bundled@).map_values(
            |p: ProbeRep| sp_check_line("bundled"@, p),
        ) + seq!["Falling back to system sharkd discovery..."@] + sp_check_lines(
            "system"@,
            probe_reps(snap.system@),
        ),
{
    let reps = probe_reps(snap.bundled@);
    lemma_first_existing_none(reps);
    lemma_probe_prefix("bundled"@, reps, reps.len() as int);
    assert(reps.skip(reps.len() as int) =~= Seq::<ProbeRep>::empty());
    assert(reps.take(reps.len() as int) =~= reps);
    assert(sp_bundled_part(snap) == reps.map_values(|p: ProbeRep| sp_check_line("bundled"@, p)));
}

} // verus!
