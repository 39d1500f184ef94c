use display_dj::crash_log::{crash_reports_to_import, is_report_file_name, 
    debug_log_tail_of, ips_summary, needs_rotation, panic_entry, preferences_snapshot_of,
    rotation_start, split_ips, tail_lines, IpsFrame, IpsReport, IpsThread, PanicDetails,
};

#[test]
fn rotation_cuts_at_an_entry_marker() {
    assert!(!needs_rotation(2 * 1024 * 1024));
    assert!(needs_rotation(2 * 1024 * 1024 + 1));
    let content = b"========== A\nxxxxxxxxxxxxxxxxxxxxxx\n========== B\nyyyy\n";
    let start = rotation_start(content);
    assert!(content[start..].starts_with(b"=========="));
    assert_eq!(start, 36);
    assert_eq!(rotation_start(b"abcdefgh"), 4);
}

#[test]
fn rotation_skips_footers_and_split_characters() {
    let content = "\n========== RUST PANIC ==========\npayload\n========== END RUST PANIC ==========\n\n========== RUST PANIC ==========\nx\n";
    let start = rotation_start(content.as_bytes());
    assert!(content[start..].starts_with("========== RUST PANIC"));
    assert_eq!(start, content.rfind("========== RUST PANIC").unwrap());
    let text = "aaé€€€€";
    let cut = rotation_start(text.as_bytes());
    assert!(text.is_char_boundary(cut));
    assert_eq!(cut, 10);
}

#[test]
fn debug_log_tail_keeps_last_lines() {
    assert_eq!(tail_lines("a\nb\nc\nd\ne\n", 2), "d\ne");
    assert_eq!(tail_lines("a\nb", 10), "a\nb");
    assert_eq!(tail_lines("", 3), "");
    assert_eq!(debug_log_tail_of(None, 10), "<unavailable>");
    assert_eq!(debug_log_tail_of(Some("x\ny"), 1), "y");
    assert_eq!(preferences_snapshot_of(None), "<unavailable>");
    assert_eq!(preferences_snapshot_of(Some("{\"foo\":1}".into())), "{\"foo\":1}");
}

#[test]
fn panic_record_has_markers_and_fields() {
    let d = PanicDetails {
        timestamp: "T".into(),
        app_version: "7.0.26".into(),
        build_date: "D".into(),
        is_dev_build: "false".into(),
        os: "linux".into(),
        arch: "x86_64".into(),
        thread: "main".into(),
        location: "src/x.rs:1:2".into(),
        payload: "test-payload-marker".into(),
        backtrace: "bt".into(),
        log_tail: "tail".into(),
        preferences: "{}".into(),
    };
    let entry = panic_entry(&d);
    assert!(entry.starts_with("\n========== RUST PANIC ==========\ntimestamp: T\napp_version: 7.0.26\n"));
    assert!(entry.contains("os: linux x86_64\n"));
    assert!(entry.contains("payload: test-payload-marker\n\nbacktrace:\nbt\n\n"));
    assert!(entry.ends_with("preferences snapshot:\n{}\n========== END RUST PANIC ==========\n"));
}

#[test]
fn crash_report_split_and_summary() {
    assert_eq!(split_ips("h\nb\nc"), Some(("h".to_string(), "b\nc".to_string())));
    assert_eq!(split_ips("not-json"), None);
    let report = IpsReport {
        file_name: Some("display-dj-1.ips".into()),
        app_version: Some("7.0.26".into()),
        build_version: None,
        timestamp: Some("2026-05-20".into()),
        incident_id: Some("ABC".into()),
        bug_type: Some("309".into()),
        os_train: Some("macOS 26.5".into()),
        os_build: Some("25F71".into()),
        cpu_type: Some("ARM-64".into()),
        proc_name: Some("display-dj".into()),
        parent_proc: Some("launchd".into()),
        exception_type: Some("EXC_CRASH".into()),
        signal: Some("SIGABRT".into()),
        termination: Some("Abort trap: 6".into()),
        asi: Some("{\"libsystem_c.dylib\":[\"abort() called\"]}".into()),
        faulting_thread: Some(0),
        thread: Some(IpsThread {
            name: Some("main".into()),
            frames: Some(vec![
                IpsFrame {
                    symbol: Some("__pthread_kill".into()),
                    symbol_location: Some(8),
                    image_index: Some(4),
                    image_offset: Some(38376),
                },
                IpsFrame { symbol: None, symbol_location: None, image_index: None, image_offset: None },
            ]),
        }),
    };
    let s = ips_summary(&report);
    assert!(s.contains("MACOS NATIVE CRASH"));
    assert!(s.contains("crashed_app_version: 7.0.26\ncrashed_bundle_version: ?\n"));
    assert!(s.contains("signal: SIGABRT"));
    assert!(s.contains("exception_type: EXC_CRASH"));
    assert!(s.contains("faulting_thread: 'main' (idx=0)"));
    assert!(s.contains("   0: __pthread_kill +8  (imageIndex=4, imageOffset=38376)\n"));
    assert!(s.contains("   1: <unsymbolicated> +0  (imageIndex=0, imageOffset=0)\n"));
    assert!(s.contains("abort() called"));
    assert!(s.ends_with("========== END MACOS NATIVE CRASH ==========\n"));

    let empty = IpsReport {
        file_name: None,
        app_version: None,
        build_version: None,
        timestamp: None,
        incident_id: None,
        bug_type: None,
        os_train: None,
        os_build: None,
        cpu_type: None,
        proc_name: None,
        parent_proc: None,
        exception_type: None,
        signal: None,
        termination: None,
        asi: None,
        faulting_thread: None,
        thread: None,
    };
    let s = ips_summary(&empty);
    assert!(s.contains("asi: {}\nfaulting_thread: '<missing>' (idx=0)\nframes (top 40):\n========== END"));
}

#[test]
fn debug_log_tail_missing_file() {
    assert_eq!(debug_log_tail_of(None, 10), "<unavailable>");
}

#[test]
fn preferences_snapshot_missing() {
    assert_eq!(preferences_snapshot_of(None), "<unavailable>");
}

#[test]
fn summarizes_a_crash_report_text() {
    let header = r#"{"app_version":"7.1","build_version":"71","timestamp":"t0","incident_id":"I-1","bug_type":"309"}"#;
    let body = r#"{"osVersion":{"train":"macOS 14","build":"23A"},"cpuType":"ARM-64","procName":"display-dj","parentProc":"launchd","exception":{"type":"EXC_CRASH","signal":"SIGABRT"},"termination":{"indicator":"Abort trap: 6"},"asi":{"b":[1,"x\n"],"a":true},"faultingThread":1,"threads":[{"name":"main"},{"name":"worker","frames":[{"symbol":"boom","symbolLocation":12,"imageIndex":0,"imageOffset":4096}]}]}"#;
    let content = format!("{}\n{}", header, body);
    let content = content.as_str();
    let text = display_dj::crash_log::summarize_ips_text(content, Some("display-dj-1.ips")).unwrap();
    assert!(text.starts_with("\n========== MACOS NATIVE CRASH ==========\nsource_file: display-dj-1.ips\n"));
    assert!(text.contains("incident_id: I-1\n"));
    assert!(text.contains("os: macOS macOS 14 (23A)  cpu: ARM-64\n"));
    assert!(text.contains("asi: {\"a\":true,\"b\":[1,\"x\\n\"]}\n"));
    assert!(text.contains("faulting_thread: 'worker' (idx=1)\n"));
    assert!(text.contains("   0: boom +12  (imageIndex=0, imageOffset=4096)\n"));
    assert!(text.ends_with("========== END MACOS NATIVE CRASH ==========\n"));
    assert_eq!(display_dj::crash_log::summarize_ips_text("{bad\n{}", None), None);
    assert_eq!(display_dj::crash_log::summarize_ips_text("{}", None), None);
    let empty = display_dj::crash_log::summarize_ips_text("{}\n{}", None).unwrap();
    assert!(empty.contains("faulting_thread: '<missing>' (idx=0)\n"));
    assert!(empty.contains("source_file: ?\n"));
}

#[test]
fn picks_new_crash_reports_oldest_first() {
    assert!(is_report_file_name("display-dj-2024-01-01.ips"));
    assert!(!is_report_file_name("other-2024.ips"));
    assert!(!is_report_file_name("display-dj-2024.txt"));
    let entries = vec![
        ("display-dj-b.ips".to_string(), 300u64),
        ("notes.txt".to_string(), 900),
        ("display-dj-a.ips".to_string(), 200),
        ("display-dj-old.ips".to_string(), 100),
        ("display-dj-c.ips".to_string(), 200),
    ];
    let (names, newest) = crash_reports_to_import(entries, 100);
    assert_eq!(names, vec!["display-dj-a.ips", "display-dj-c.ips", "display-dj-b.ips"]);
    assert_eq!(newest, 300);
    let (none, same) = crash_reports_to_import(Vec::new(), 42);
    assert!(none.is_empty());
    assert_eq!(same, 42);
}
