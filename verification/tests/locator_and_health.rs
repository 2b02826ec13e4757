use sharkd_bridge::api::get_sidecar_status;
use sharkd_bridge::health::{
    get_install_health, validate_windows_runtime, windows_required_runtime_files, HealthEnv,
    RuntimeFileProbe, VersionProbe, WindowsRuntimeProbe,
};
use sharkd_bridge::locator::{
    bundled_sharkd_candidates, contains_sub, find_sharkd, find_sharkd_with_debug,
    get_target_triple, is_production_mode, system_sharkd_candidates, DiscoverySnapshot, Platform,
    ProbedPath,
};

fn probe(path: &str, exists: bool) -> ProbedPath {
    ProbedPath { path: path.to_string(), exists }
}

#[test]
fn target_triples_follow_the_platform_table() {
    assert_eq!(get_target_triple(Platform::LinuxX64), "x86_64-unknown-linux-gnu");
    assert_eq!(get_target_triple(Platform::MacArm64), "aarch64-apple-darwin");
    assert_eq!(get_target_triple(Platform::WindowsX64), "x86_64-pc-windows-msvc");
    assert_eq!(get_target_triple(Platform::Other), "unknown");
}

#[test]
fn production_mode_reads_the_executable_path() {
    assert!(is_production_mode("/opt/app/bin/app"));
    assert!(!is_production_mode("/home/dev/proj/target/debug/app"));
    assert!(!is_production_mode("/home/dev/proj/target/release/app"));
    assert!(contains_sub("abcdef", "cde"));
    assert!(!contains_sub("abcdef", "ceX"));
}

#[test]
fn bundled_candidates_prefer_the_wrapper() {
    let c = bundled_sharkd_candidates("/opt/app", Platform::LinuxX64);
    assert_eq!(
        c,
        vec![
            "/opt/app/sharkd-wrapper-x86_64-unknown-linux-gnu".to_string(),
            "/opt/app/sharkd-x86_64-unknown-linux-gnu".to_string(),
            "/opt/app/sharkd".to_string(),
        ]
    );
    let w = bundled_sharkd_candidates("C:\\app", Platform::WindowsX64);
    assert_eq!(
        w,
        vec![
            "C:\\app\\sharkd-x86_64-pc-windows-msvc.exe".to_string(),
            "C:\\app\\sharkd.exe".to_string(),
        ]
    );
}

#[test]
fn system_candidates_dedup_and_keep_order() {
    let hits = vec!["/usr/bin/sharkd".to_string(), "/usr/bin/sharkd".to_string()];
    assert_eq!(
        system_sharkd_candidates(&hits, Platform::LinuxX64),
        vec!["/usr/bin/sharkd".to_string()]
    );
    let win = system_sharkd_candidates(&vec![], Platform::WindowsX64);
    assert_eq!(
        win,
        vec![
            "C:\\Program Files\\Wireshark\\sharkd.exe".to_string(),
            "C:\\Program Files (x86)\\Wireshark\\sharkd.exe".to_string(),
        ]
    );
}

#[test]
fn production_fallback_takes_the_system_candidate_and_records_rejections() {
    let snap = DiscoverySnapshot {
        exe_path: Some("/opt/app/bin/app".to_string()),
        platform: Platform::LinuxX64,
        bundled: vec![
            probe("/opt/app/bin/sharkd-wrapper-x86_64-unknown-linux-gnu", false),
            probe("/opt/app/bin/sharkd-x86_64-unknown-linux-gnu", false),
            probe("/opt/app/bin/sharkd", false),
        ],
        system: vec![probe("/usr/bin/sharkd", true)],
    };
    let (path, trail) = find_sharkd_with_debug(&snap).expect("a system candidate exists");
    assert_eq!(path, "/usr/bin/sharkd");
    for b in &snap.bundled {
        let line = format!("Checking bundled path: {} (exists: false)", b.path);
        assert!(trail.contains(&line), "trail misses: {}", line);
    }
    assert!(trail.contains(&"Falling back to system sharkd discovery...".to_string()));
    assert!(trail.contains(&"Checking system path: /usr/bin/sharkd (exists: true)".to_string()));
}

#[test]
fn production_prefers_an_existing_bundled_candidate() {
    let snap = DiscoverySnapshot {
        exe_path: Some("/opt/app/bin/app".to_string()),
        platform: Platform::LinuxX64,
        bundled: vec![
            probe("/opt/app/bin/sharkd-wrapper-x86_64-unknown-linux-gnu", false),
            probe("/opt/app/bin/sharkd-x86_64-unknown-linux-gnu", true),
            probe("/opt/app/bin/sharkd", true),
        ],
        system: vec![probe("/usr/bin/sharkd", true)],
    };
    assert_eq!(find_sharkd(&snap).expect("found"), "/opt/app/bin/sharkd-x86_64-unknown-linux-gnu");
}

#[test]
fn development_mode_skips_bundled_candidates() {
    let snap = DiscoverySnapshot {
        exe_path: Some("/home/dev/proj/target/debug/app".to_string()),
        platform: Platform::LinuxX64,
        bundled: vec![probe("/home/dev/proj/target/debug/sharkd", true)],
        system: vec![probe("/usr/bin/sharkd", true)],
    };
    assert_eq!(find_sharkd(&snap).expect("found"), "/usr/bin/sharkd");
    let (_, trail) = find_sharkd_with_debug(&snap).expect("found");
    assert!(trail.contains(&"Development mode - bundled path checks are optional".to_string()));
}

#[test]
fn discovery_failure_carries_the_trail() {
    let snap = DiscoverySnapshot {
        exe_path: None,
        platform: Platform::LinuxX64,
        bundled: vec![],
        system: vec![probe("/usr/bin/sharkd", false)],
    };
    match find_sharkd(&snap) {
        Err(m) => {
            assert!(m.starts_with("Sharkd not found."));
            assert!(m.contains("Debug info:"));
            assert!(m.contains("Checking system path: /usr/bin/sharkd (exists: false)"));
        },
        Ok(_) => panic!("nothing exists, discovery must fail"),
    }
}

fn healthy_linux_env() -> HealthEnv {
    HealthEnv {
        snapshot: DiscoverySnapshot {
            exe_path: Some("/opt/app/bin/app".to_string()),
            platform: Platform::LinuxX64,
            bundled: vec![probe("/opt/app/bin/sharkd", true)],
            system: vec![],
        },
        runtime: None,
        version: None,
    }
}

#[test]
fn healthy_install_reports_ok() {
    let h = get_install_health(&healthy_linux_env());
    assert!(h.ok);
    assert!(h.issues.is_empty());
    assert_eq!(h.recommended_action, "none");
    assert_eq!(h.checked_paths, vec!["/opt/app/bin/sharkd".to_string()]);
}

#[test]
fn missing_engine_reports_missing_sharkd() {
    let env = HealthEnv {
        snapshot: DiscoverySnapshot {
            exe_path: Some("/opt/app/bin/app".to_string()),
            platform: Platform::LinuxX64,
            bundled: vec![probe("/opt/app/bin/sharkd", false)],
            system: vec![probe("/usr/bin/sharkd", false)],
        },
        runtime: None,
        version: None,
    };
    let h = get_install_health(&env);
    assert!(!h.ok);
    assert_eq!(h.issues.len(), 1);
    assert_eq!(h.issues[0].code, "missing_sharkd");
    assert!(h.recommended_action.starts_with("repair ("));
    assert_eq!(h.checked_paths.len(), 2);
}

#[test]
fn required_runtime_files_are_fixed() {
    assert_eq!(
        windows_required_runtime_files(),
        vec![
            "libwireshark.dll".to_string(),
            "libwiretap.dll".to_string(),
            "libwsutil.dll".to_string(),
            "libglib-2.0-0.dll".to_string(),
            "libgcrypt-20.dll".to_string(),
        ]
    );
}

fn rt_file(name: &str, exists: bool) -> RuntimeFileProbe {
    RuntimeFileProbe {
        name: name.to_string(),
        path: format!("C:\\app\\{}", name),
        exists,
    }
}

#[test]
fn runtime_check_flags_missing_libraries_and_glib_mismatch() {
    let p = WindowsRuntimeProbe {
        exe_dir: "C:\\app".to_string(),
        bundled_primary: probe("C:\\app\\sharkd-x86_64-pc-windows-msvc.exe", true),
        files: vec![
            rt_file("libwireshark.dll", true),
            rt_file("libwiretap.dll", false),
            rt_file("libwsutil.dll", true),
            rt_file("libglib-2.0-0.dll", false),
            rt_file("libgcrypt-20.dll", true),
        ],
        alt_glib_present: true,
        expected_glib_present: false,
    };
    let issues = validate_windows_runtime(&p);
    assert_eq!(issues.len(), 3);
    assert_eq!(issues[0].code, "missing_dependency");
    assert_eq!(issues[0].message, "Required runtime library is missing: libwiretap.dll");
    assert_eq!(issues[0].path.as_deref(), Some("C:\\app\\libwiretap.dll"));
    assert_eq!(issues[1].code, "missing_dependency");
    assert_eq!(issues[2].code, "invalid_bundle");
}

#[test]
fn runtime_check_stops_at_a_missing_binary() {
    let p = WindowsRuntimeProbe {
        exe_dir: "C:\\app".to_string(),
        bundled_primary: probe("C:\\app\\sharkd-x86_64-pc-windows-msvc.exe", false),
        files: vec![rt_file("libwireshark.dll", false)],
        alt_glib_present: false,
        expected_glib_present: false,
    };
    let issues = validate_windows_runtime(&p);
    assert_eq!(issues.len(), 1);
    assert_eq!(issues[0].code, "missing_sharkd");
}

#[test]
fn windows_version_probe_failures_become_spawn_issues() {
    let base_snapshot = || DiscoverySnapshot {
        exe_path: Some("C:\\app\\app.exe".to_string()),
        platform: Platform::WindowsX64,
        bundled: vec![probe("C:\\app\\sharkd-x86_64-pc-windows-msvc.exe", true)],
        system: vec![],
    };
    let runtime = || WindowsRuntimeProbe {
        exe_dir: "C:\\app".to_string(),
        bundled_primary: probe("C:\\app\\sharkd-x86_64-pc-windows-msvc.exe", true),
        files: vec![rt_file("libwireshark.dll", true)],
        alt_glib_present: false,
        expected_glib_present: true,
    };
    let nonzero = HealthEnv {
        snapshot: base_snapshot(),
        runtime: Some(runtime()),
        version: Some(VersionProbe::NonZero("exit code: 1".to_string())),
    };
    let h = get_install_health(&nonzero);
    assert!(!h.ok);
    assert_eq!(h.issues[0].code, "spawn_failed");
    assert_eq!(h.issues[0].message, "sharkd check returned non-zero status: exit code: 1");
    assert_eq!(h.recommended_action, "repair");

    let dll = HealthEnv {
        snapshot: base_snapshot(),
        runtime: Some(runtime()),
        version: Some(VersionProbe::SpawnError("The code LIBWIRESHARK.DLL was not found".to_string())),
    };
    let h = get_install_health(&dll);
    assert_eq!(
        h.issues[0].message,
        "sharkd failed to start: The code LIBWIRESHARK.DLL was not found"
    );

    let vague = HealthEnv {
        snapshot: base_snapshot(),
        runtime: Some(runtime()),
        version: Some(VersionProbe::SpawnError("access denied".to_string())),
    };
    let h = get_install_health(&vague);
    assert_eq!(h.issues[0].message, "sharkd failed to start; installation may be incomplete.");
}

#[test]
fn windows_fallback_to_system_engine_is_flagged() {
    let env = HealthEnv {
        snapshot: DiscoverySnapshot {
            exe_path: Some("C:\\app\\app.exe".to_string()),
            platform: Platform::WindowsX64,
            bundled: vec![probe("C:\\app\\sharkd-x86_64-pc-windows-msvc.exe", false)],
            system: vec![probe("C:\\Program Files\\Wireshark\\sharkd.exe", true)],
        },
        runtime: Some(WindowsRuntimeProbe {
            exe_dir: "C:\\app".to_string(),
            bundled_primary: probe("C:\\app\\sharkd-x86_64-pc-windows-msvc.exe", false),
            files: vec![],
            alt_glib_present: false,
            expected_glib_present: true,
        }),
        version: None,
    };
    let h = get_install_health(&env);
    assert!(!h.ok);
    assert_eq!(h.issues[0].code, "missing_sharkd");
    assert_eq!(h.issues[1].code, "invalid_bundle");
    assert_eq!(
        h.issues[1].path.as_deref(),
        Some("C:\\Program Files\\Wireshark\\sharkd.exe")
    );
}

#[test]
fn sidecar_status_reports_the_fixed_port() {
    let up = get_sidecar_status(true);
    assert!(up.is_running);
    assert_eq!(up.port, 8765);
    assert_eq!(up.version.as_deref(), Some("0.1.0"));
    assert!(up.error.is_none());
    let down = get_sidecar_status(false);
    assert!(!down.is_running);
    assert!(down.version.is_none());
}
