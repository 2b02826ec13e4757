//! The install health report: a structured account of what stands in
//! the way of running the engine, if anything does.
//!
//! The caller probes the filesystem and, on Windows, may try the
//! engine's version switch; what those outcomes mean is decided here.
//! Nothing in this path raises an error: every problem becomes an
//! entry in the issue list.

use vstd::prelude::*;

use crate::decode::opt_view;
use crate::json::{str_eq, string_from_chars, chars_of_str};
use crate::locator::{
    find_sharkd, probe_reps, sp_contains, sp_located, sp_snap_production,
    DiscoverySnapshot, Platform, ProbeRep, ProbedPath,
};
use crate::params::{ascii_lower, lower_of};

verus! {

/// One installation problem: a stable code, a human message, and the
/// offending path when there is one.
pub struct InstallIssue {
    pub code: String,
    pub message: String,
    pub path: Option<String>,
}

/// The mathematical shape of an issue.
pub struct IssueRep {
    pub code: Seq<char>,
    pub message: Seq<char>,
    pub path: Option<Seq<char>>,
}

impl InstallIssue {
    /// The abstraction of this issue.
    pub open spec fn rep(self) -> IssueRep {
        IssueRep { code: self.code@, message: self.message@, path: opt_view(self.path) }
    }
}

/// Abstractions of an issue list, elementwise and in order.
pub open spec fn issue_reps(s: Seq<InstallIssue>) -> Seq<IssueRep> {
    s.map_values(|i: InstallIssue| i.rep())
}

/// The health report: overall health, the issues found, every path
/// probed, and a short remediation keyword for callers.
pub struct InstallHealthStatus {
    pub ok: bool,
    pub issues: Vec<InstallIssue>,
    pub checked_paths: Vec<String>,
    pub recommended_action: String,
}

/// The mathematical shape of a verdict.
pub struct HealthRep {
    pub ok: bool,
    pub issues: Seq<IssueRep>,
    pub checked_paths: Seq<Seq<char>>,
    pub recommended_action: Seq<char>,
}

impl InstallHealthStatus {
    /// The abstraction of this verdict.
    pub open spec fn rep(self) -> HealthRep {
        HealthRep {
            ok: self.ok,
            issues: issue_reps(self.issues@),
            checked_paths: crate::locator::path_views(self.checked_paths@),
            recommended_action: self.recommended_action@,
        }
    }
}

/// One probed runtime library: its bare name, its full path, and
/// whether it existed.
pub struct RuntimeFileProbe {
    pub name: String,
    pub path: String,
    pub exists: bool,
}

/// The mathematical shape of a runtime library probe.
pub struct RtFileRep {
    pub name: Seq<char>,
    pub path: Seq<char>,
    pub exists: bool,
}

impl RuntimeFileProbe {
    /// The abstraction of this probe.
    pub open spec fn rep(self) -> RtFileRep {
        RtFileRep { name: self.name@, path: self.path@, exists: self.exists }
    }
}

/// Abstractions of a probe list, elementwise and in order.
pub open spec fn rtfile_reps(s: Seq<RuntimeFileProbe>) -> Seq<RtFileRep> {
    s.map_values(|f: RuntimeFileProbe| f.rep())
}

/// What the Windows runtime check probed: the install directory, the
/// triple-qualified bundled binary, the required libraries, and the two
/// glib spellings — some distributions ship `glib-2.0-0.dll` where the
/// bundled engine expects `libglib-2.0-0.dll`.
pub struct WindowsRuntimeProbe {
    pub exe_dir: String,
    pub bundled_primary: ProbedPath,
    pub files: Vec<RuntimeFileProbe>,
    pub alt_glib_present: bool,
    pub expected_glib_present: bool,
}

/// The outcome of running the engine's version check.
pub enum VersionProbe {
    /// The check ran and exited cleanly.
    Success,
    /// The check ran but exited with the given status text.
    NonZero(String),
    /// The check could not start; the OS error text.
    SpawnError(String),
}

/// Everything the health verdict is decided from. The runtime and
/// version probes matter only on Windows; the version probe is
/// consulted only while no issue has been found.
pub struct HealthEnv {
    pub snapshot: DiscoverySnapshot,
    pub runtime: Option<WindowsRuntimeProbe>,
    pub version: Option<VersionProbe>,
}

/// The shared libraries a bundled Windows engine needs beside it.
pub open spec fn sp_required_runtime_files() -> Seq<Seq<char>> {
    seq![
        "libwireshark.dll"@,
        "libwiretap.dll"@,
        "libwsutil.dll"@,
        "libglib-2.0-0.dll"@,
        "libgcrypt-20.dll"@,
    ]
}

/// The shared libraries a bundled Windows engine needs beside it.
pub fn windows_required_runtime_files() -> (r: Vec<String>)
    ensures
        crate::locator::path_views(r@) == sp_required_runtime_files(),
{
    let mut out: Vec<String> = Vec::new();
    out.push(String::from_str("libwireshark.dll"));
    out.push(String::from_str("libwiretap.dll"));
    out.push(String::from_str("libwsutil.dll"));
    out.push(String::from_str("libglib-2.0-0.dll"));
    out.push(String::from_str("libgcrypt-20.dll"));
    proof {
        assert(crate::locator::path_views(out@) =~= sp_required_runtime_files());
    }
    out
}

/// One `missing_dependency` issue per absent library, in probe order.
pub open spec fn sp_missing_files(fs: Seq<RtFileRep>) -> Seq<IssueRep>
    decreases fs,
{
    if fs.len() == 0 {
        Seq::empty()
    } else {
        sp_missing_files(fs.drop_last()) + (if fs.last().exists {
            Seq::empty()
        } else {
            seq![
                IssueRep {
                    code: "missing_dependency"@,
                    message: "Required runtime library is missing: "@ + fs.last().name,
                    path: Some(fs.last().path),
                },
            ]
        })
    }
}

/// The issues the Windows runtime check finds: a missing bundled binary
/// ends the check by itself; otherwise each absent library is an issue,
/// and the known glib naming mismatch is one more.
pub open spec fn sp_validate_windows_runtime(
    exe_dir: Seq<char>,
    primary: ProbeRep,
    files: Seq<RtFileRep>,
    alt_glib: bool,
    expected_glib: bool,
) -> Seq<IssueRep> {
    if !primary.exists {
        seq![
            IssueRep {
                code: "missing_sharkd"@,
                message: "Bundled sharkd executable is missing."@,
                path: Some(primary.path),
            },
        ]
    } else {
        sp_missing_files(files) + (if alt_glib && !expected_glib {
            seq![
                IssueRep {
                    code: "invalid_bundle"@,
                    message:
                        "Found glib-2.0-0.dll but missing libglib-2.0-0.dll expected by bundled sharkd."@,
                    path: Some(exe_dir),
                },
            ]
        } else {
            Seq::empty()
        })
    }
}

fn make_issue(code: &str, message: &str, path: Option<String>) -> (r: InstallIssue)
    ensures
        r.rep() == (IssueRep { code: code@, message: message@, path: opt_view(path) }),
{
    InstallIssue { code: String::from_str(code), message: String::from_str(message), path }
}

fn concat_strs(a: &str, b: &str) -> (r: String)
    ensures
        r@ == a@ + b@,
{
    let mut out: Vec<char> = chars_of_str(a);
    let mut tail: Vec<char> = chars_of_str(b);
    out.append(&mut tail);
    proof {
        assert(out@ =~= a@ + b@);
    }
    string_from_chars(&out)
}

/// Runs the Windows runtime check over its probe outcomes.
#[verifier::loop_isolation(false)]
pub fn validate_windows_runtime(p: &WindowsRuntimeProbe) -> (r: Vec<InstallIssue>)
    ensures
        issue_reps(r@) == sp_validate_windows_runtime(
            p.exe_dir@,
            p.bundled_primary.rep(),
            rtfile_reps(p.files@),
            p.alt_glib_present,
            p.expected_glib_present,
        ),
{
    let mut issues: Vec<InstallIssue> = Vec::new();
    if !p.bundled_primary.exists {
        issues.push(
            make_issue(
                "missing_sharkd",
                "Bundled sharkd executable is missing.",
                Some(p.bundled_primary.path.clone()),
            ),
        );
        proof {
            assert(issue_reps(issues@) =~= sp_validate_windows_runtime(
                p.exe_dir@,
                p.bundled_primary.rep(),
                rtfile_reps(p.files@),
                p.alt_glib_present,
                p.expected_glib_present,
            ));
        }
        return issues;
    }
    let n: usize = p.files.len();
    let mut i: usize = 0;
    proof {
        assert(issue_reps(issues@) =~= Seq::<IssueRep>::empty());
        assert(rtfile_reps(p.files@).take(0) =~= Seq::<RtFileRep>::empty());
    }
    while i < n
        invariant
            0 <= i <= n,
            issue_reps(issues@) == sp_missing_files(rtfile_reps(p.files@).take(i as int)),
        decreases n - i,
    {
        proof {
            assert(rtfile_reps(p.files@).take(i as int + 1).drop_last() =~= rtfile_reps(
                p.files@,
            ).take(i as int));
        }
        if !p.files[i].exists {
            let message: String = concat_strs(
                "Required runtime library is missing: ",
                p.files[i].name.as_str(),
            );
            let ghost pre = issue_reps(issues@);
            issues.push(
                InstallIssue {
                    code: String::from_str("missing_dependency"),
                    message,
                    path: Some(p.files[i].path.clone()),
                },
            );
            proof {
                assert(issue_reps(issues@) =~= pre + seq![
                    IssueRep {
                        code: "missing_dependency"@,
                        message: "Required runtime library is missing: "@ + rtfile_reps(
                            p.files@,
                        )[i as int].name,
                        path: Some(rtfile_reps(p.files@)[i as int].path),
                    },
                ]);
            }
        } else {
            proof {
                assert(issue_reps(issues@) =~= issue_reps(issues@) + Seq::<IssueRep>::empty());
            }
        }
        i = i + 1;
    }
    proof {
        assert(rtfile_reps(p.files@).take(n as int) =~= rtfile_reps(p.files@));
    }
    if p.alt_glib_present && !p.expected_glib_present {
        let ghost pre = issue_reps(issues@);
        issues.push(
            make_issue(
                "invalid_bundle",
                "Found glib-2.0-0.dll but missing libglib-2.0-0.dll expected by bundled sharkd.",
                Some(p.exe_dir.clone()),
            ),
        );
        proof {
            assert(issue_reps(issues@) =~= pre + seq![
                IssueRep {
                    code: "invalid_bundle"@,
                    message:
                        "Found glib-2.0-0.dll but missing libglib-2.0-0.dll expected by bundled sharkd."@,
                    path: Some(p.exe_dir@),
                },
            ]);
        }
    } else {
        proof {
            assert(issue_reps(issues@) =~= issue_reps(issues@) + Seq::<IssueRep>::empty());
        }
    }
    issues
}

/// The paths of a probe list.
pub open spec fn probe_paths(ps: Seq<ProbeRep>) -> Seq<Seq<char>> {
    ps.map_values(|p: ProbeRep| p.path)
}

/// Every path health checking looks at: the bundled candidates, then
/// the system candidates.
pub open spec fn sp_checked_paths(snap: DiscoverySnapshot) -> Seq<Seq<char>> {
    probe_paths(probe_reps(snap.bundled@)) + probe_paths(probe_reps(snap.system@))
}

/// The issue added when discovery relies on a fallback although a
/// bundled engine was expected.
pub open spec fn sp_fallback_issue(found: Seq<char>) -> IssueRep {
    IssueRep {
        code: "invalid_bundle"@,
        message:
            "Bundled sharkd is missing or invalid; currently relying on a system sharkd fallback."@,
        path: Some(found),
    }
}

/// The issue a version-check outcome adds, if any. An error text naming
/// a `.dll` is surfaced whole, because it usually names the missing
/// dependency.
pub open spec fn sp_version_issue(v: VersionProbe, found: Seq<char>) -> Seq<IssueRep> {
    match v {
        VersionProbe::Success => Seq::empty(),
        VersionProbe::NonZero(st) => seq![
            IssueRep {
                code: "spawn_failed"@,
                message: "sharkd check returned non-zero status: "@ + st@,
                path: Some(found),
            },
        ],
        VersionProbe::SpawnError(e) => seq![
            IssueRep {
                code: "spawn_failed"@,
                message: if sp_contains(lower_of(e@), ".dll"@) {
                    "sharkd failed to start: "@ + e@
                } else {
                    "sharkd failed to start; installation may be incomplete."@
                },
                path: Some(found),
            },
        ],
    }
}

/// The issues found once discovery has succeeded on `found`.
pub open spec fn sp_post_discovery_issues(env: HealthEnv, found: Seq<char>) -> Seq<IssueRep> {
    let base: Seq<IssueRep> = if env.snapshot.platform is WindowsX64 && sp_snap_production(
        env.snapshot,
    ) {
        match env.runtime {
            Some(rt) => sp_validate_windows_runtime(
                rt.exe_dir@,
                rt.bundled_primary.rep(),
                rtfile_reps(rt.files@),
                rt.alt_glib_present,
                rt.expected_glib_present,
            ) + (if found != rt.bundled_primary.rep().path {
                seq![sp_fallback_issue(found)]
            } else {
                Seq::empty()
            }),
            None => Seq::empty(),
        }
    } else {
        Seq::empty()
    };
    if env.snapshot.platform is WindowsX64 && base.len() == 0 {
        match env.version {
            Some(v) => base + sp_version_issue(v, found),
            None => base,
        }
    } else {
        base
    }
}

/// The whole verdict an environment decides to.
pub open spec fn sp_install_health(env: HealthEnv) -> HealthRep {
    match sp_located(env.snapshot) {
        None => HealthRep {
            ok: false,
            issues: seq![
                IssueRep {
                    code: "missing_sharkd"@,
                    message: "Could not find sharkd binary in bundled or system locations."@,
                    path: None,
                },
            ],
            checked_paths: sp_checked_paths(env.snapshot),
            recommended_action:
                "repair (Sharkd not found. Expected a bundled sharkd beside the application or a Wireshark install with sharkd on the PATH.)"@,
        },
        Some(found) => {
            let issues = sp_post_discovery_issues(env, found);
            HealthRep {
                ok: issues.len() == 0,
                issues,
                checked_paths: sp_checked_paths(env.snapshot),
                recommended_action: if env.snapshot.platform is WindowsX64 {
                    "repair"@
                } else {
                    "none"@
                },
            }
        },
    }
}

fn checked_paths_of(snap: &DiscoverySnapshot) -> (r: Vec<String>)
    ensures
        crate::locator::path_views(r@) == sp_checked_paths(*snap),
{
    let mut out: Vec<String> = Vec::new();
    let nb: usize = snap.bundled.len();
    let mut i: usize = 0;
    while i < nb
        invariant
            0 <= i <= nb,
            nb == snap.bundled@.len(),
            crate::locator::path_views(out@) == probe_paths(probe_reps(snap.bundled@)).take(
                i as int,
            ),
        decreases nb - i,
    {
        let ghost pre = out@;
        out.push(snap.bundled[i].path.clone());
        proof {
            let bp = probe_paths(probe_reps(snap.bundled@));
            assert(out@ == pre.push(snap.bundled@[i as int].path));
            assert(crate::locator::path_views(pre).len() == pre.len());
            assert(pre.len() == i as int);
            assert(out@.len() == i + 1);
            assert forall|k: int| 0 <= k < out@.len() implies #[trigger] crate::locator::path_views(
                out@,
            )[k] == bp.take(i as int + 1)[k] by {
                assert(crate::locator::path_views(out@)[k] == out@[k]@);
                assert(probe_reps(snap.bundled@)[k] == snap.bundled@[k].rep());
                assert(bp[k] == probe_reps(snap.bundled@)[k].path);
                if k < i as int {
                    assert(crate::locator::path_views(pre)[k] == pre[k]@);
                }
            }
            assert(crate::locator::path_views(out@) =~= bp.take(i as int + 1));
        }
        i = i + 1;
    }
    let ns: usize = snap.system.len();
    let mut j: usize = 0;
    proof {
        assert(probe_paths(probe_reps(snap.bundled@)).take(nb as int) =~= probe_paths(
            probe_reps(snap.bundled@),
        ));
    }
    while j < ns
        invariant
            0 <= j <= ns,
            ns == snap.system@.len(),
            crate::locator::path_views(out@) == probe_paths(probe_reps(snap.bundled@))
                + probe_paths(probe_reps(snap.system@)).take(j as int),
        decreases ns - j,
    {
        let ghost pre = out@;
        out.push(snap.system[j].path.clone());
        proof {
            let bp = probe_paths(probe_reps(snap.bundled@));
            let sy = probe_paths(probe_reps(snap.system@));
            assert(out@ == pre.push(snap.system@[j as int].path));
            assert(crate::locator::path_views(pre).len() == pre.len());
            assert(bp.len() == snap.bundled@.len());
            assert(sy.len() == snap.system@.len());
            assert(pre.len() == bp.len() + j);
            assert(out@.len() == bp.len() + j + 1);
            assert forall|k: int| 0 <= k < out@.len() implies #[trigger] crate::locator::path_views(
                out@,
            )[k] == (bp + sy.take(j as int + 1))[k] by {
                assert(crate::locator::path_views(out@)[k] == out@[k]@);
                if k < pre.len() {
                    assert(crate::locator::path_views(pre)[k] == pre[k]@);
                }
                if k >= bp.len() {
                    assert(probe_reps(snap.system@)[k - bp.len()] == snap.system@[
                        k - bp.len()
                    ].rep());
                    assert(sy[k - bp.len()] == probe_reps(snap.system@)[k - bp.len()].path);
                }
            }
            assert(crate::locator::path_views(out@) =~= bp + sy.take(j as int + 1));
        }
        j = j + 1;
    }
    proof {
        assert(probe_paths(probe_reps(snap.system@)).take(ns as int) =~= probe_paths(
            probe_reps(snap.system@),
        ));
        assert(crate::locator::path_views(out@) =~= sp_checked_paths(*snap));
    }
    out
}

/// Decides the health verdict over an environment of probe outcomes.
/// Nothing here fails: every problem becomes an issue entry.
pub fn get_install_health(env: &HealthEnv) -> (r: InstallHealthStatus)
    ensures
        r.rep() == sp_install_health(*env),
{
    let checked_paths: Vec<String> = checked_paths_of(&env.snapshot);
    let windows: bool = match env.snapshot.platform {
        Platform::WindowsX64 => true,
        _ => false,
    };
    let found: String = match find_sharkd(&env.snapshot) {
        Ok(p) => p,
        Err(_) => {
            let mut issues: Vec<InstallIssue> = Vec::new();
            issues.push(
                make_issue(
                    "missing_sharkd",
                    "Could not find sharkd binary in bundled or system locations.",
                    None,
                ),
            );
            proof {
                assert(issue_reps(issues@) =~= sp_install_health(*env).issues);
            }
            return InstallHealthStatus {
                ok: false,
                issues,
                checked_paths,
                recommended_action: String::from_str(
                    "repair (Sharkd not found. Expected a bundled sharkd beside the application or a Wireshark install with sharkd on the PATH.)",
                ),
            };
        },
    };
    let production: bool = match &env.snapshot.exe_path {
        Some(p) => crate::locator::is_production_mode(p.as_str()),
        None => false,
    };
    let mut issues: Vec<InstallIssue> = Vec::new();
    proof {
        assert(issue_reps(issues@) =~= Seq::<IssueRep>::empty());
    }
    if windows && production {
        match &env.runtime {
            Some(rt) => {
                let mut rt_issues: Vec<InstallIssue> = validate_windows_runtime(rt);
                let ghost rt_reps = issue_reps(rt_issues@);
                issues.append(&mut rt_issues);
                proof {
                    assert(issue_reps(issues@) =~= rt_reps);
                }
                if !str_eq(found.as_str(), rt.bundled_primary.path.as_str()) {
                    let ghost pre = issue_reps(issues@);
                    issues.push(
                        make_issue(
                            "invalid_bundle",
                            "Bundled sharkd is missing or invalid; currently relying on a system sharkd fallback.",
                            Some(found.clone()),
                        ),
                    );
                    proof {
                        assert(issue_reps(issues@) =~= pre + seq![sp_fallback_issue(found@)]);
                    }
                } else {
                    proof {
                        assert(issue_reps(issues@) =~= issue_reps(issues@)
                            + Seq::<IssueRep>::empty());
                    }
                }
            },
            None => {},
        }
    }
    if windows && issues.len() == 0 {
        match &env.version {
            Some(v) => {
                match v {
                    VersionProbe::Success => {
                        proof {
                            assert(issue_reps(issues@) =~= issue_reps(issues@)
                                + Seq::<IssueRep>::empty());
                        }
                    },
                    VersionProbe::NonZero(st) => {
                        let ghost pre = issue_reps(issues@);
                        let message: String = concat_strs(
                            "sharkd check returned non-zero status: ",
                            st.as_str(),
                        );
                        issues.push(
                            InstallIssue {
                                code: String::from_str("spawn_failed"),
                                message,
                                path: Some(found.clone()),
                            },
                        );
                        proof {
                            assert(issue_reps(issues@) =~= pre + sp_version_issue(*v, found@));
                        }
                    },
                    VersionProbe::SpawnError(e) => {
                        let ghost pre = issue_reps(issues@);
                        let lowered: String = ascii_lower(e.as_str());
                        let message: String = if crate::locator::contains_sub(
                            lowered.as_str(),
                            ".dll",
                        ) {
                            concat_strs("sharkd failed to start: ", e.as_str())
                        } else {
                            String::from_str(
                                "sharkd failed to start; installation may be incomplete.",
                            )
                        };
                        issues.push(
                            InstallIssue {
                                code: String::from_str("spawn_failed"),
                                message,
                                path: Some(found.clone()),
                            },
                        );
                        proof {
                            assert(issue_reps(issues@) =~= pre + sp_version_issue(*v, found@));
                        }
                    },
                }
            },
            None => {},
        }
    }
    let ok: bool = issues.len() == 0;
    proof {
        assert(issue_reps(issues@) =~= sp_post_discovery_issues(*env, found@));
    }
    InstallHealthStatus {
        ok,
        issues,
        checked_paths,
        recommended_action: if windows {
            String::from_str("repair")
        } else {
            String::from_str("none")
        },
    }
}

} // verus!
