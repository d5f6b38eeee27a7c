use rustdac::devices::{
    device_label, find_device_by_name, has_cable_output_consumers, is_cable_output, DeviceReading,
    SessionState, VIRTUAL_MIC,
};
use rustdac::sessions::{
    check_mic_in_use, describe_session, usage_text, SessionReading, POLL_INTERVAL_MS, TARGET_MIC,
};
use rustdac::text::{align_left, align_right, contains_text, decimal_text};

#[test]
fn first_device_of_a_name_is_found() {
    let names = vec![
        None,
        Some("Speakers".to_string()),
        Some(VIRTUAL_MIC.to_string()),
        Some(VIRTUAL_MIC.to_string()),
    ];
    assert_eq!(find_device_by_name(&names, VIRTUAL_MIC), Some(2));
    assert_eq!(find_device_by_name(&names, "Speakers"), Some(1));
    assert_eq!(find_device_by_name(&names, "Speaker"), None);
    assert_eq!(find_device_by_name(&vec![], "Speakers"), None);
}

#[test]
fn unnamed_device_is_unknown() {
    assert_eq!(device_label(Some("mic".to_string())), "mic");
    assert_eq!(device_label(None), "Unknown");
}

fn device(name: Option<&str>, sessions: Option<Vec<Option<SessionState>>>) -> DeviceReading {
    DeviceReading { name: name.map(|n| n.to_string()), sessions }
}

#[test]
fn active_session_on_the_cable_is_a_consumer() {
    let cable = Some("CABLE Output (VB-Audio Virtual Cable)");
    let active = || Some(vec![Some(SessionState::Inactive), None, Some(SessionState::Active)]);
    assert!(has_cable_output_consumers(&vec![device(Some("Mic"), active()), device(cable, active())]));
    assert!(!has_cable_output_consumers(&vec![device(Some("Mic"), active())]));
    assert!(!has_cable_output_consumers(&vec![device(None, active())]));
    assert!(!has_cable_output_consumers(&vec![device(cable, None)]));
    assert!(!has_cable_output_consumers(&vec![device(
        cable,
        Some(vec![Some(SessionState::Inactive), Some(SessionState::Expired), None])
    )]));
    assert!(!has_cable_output_consumers(&vec![]));
}

#[test]
fn cable_is_known_by_part_of_its_name() {
    assert!(is_cable_output("CABLE Output"));
    assert!(is_cable_output("my CABLE Output (x)"));
    assert!(is_cable_output("CABLE CABLE Output"));
    assert!(!is_cable_output("CABLE Outpu"));
    assert!(!is_cable_output("cable output"));
    assert!(!is_cable_output(""));
}

#[test]
fn search_agrees_with_the_standard_library() {
    for text in ["", "a", "ab", "aab", "aaab", "▶ ab ✓", "✓✓a"] {
        for part in ["", "a", "ab", "b ✓", "✓a", "aaa", "c"] {
            assert_eq!(contains_text(text, part), text.contains(part));
        }
    }
}

#[test]
fn numbers_and_columns_agree_with_formatting() {
    for n in [0u64, 9, 10, 42, 1000, 4294967295, u64::MAX] {
        assert_eq!(decimal_text(n), format!("{}", n));
        assert_eq!(align_right(&decimal_text(n), 6), format!("{:6}", n));
    }
    assert_eq!(align_left("ACTIVE ✓", 10), format!("{:<10}", "ACTIVE ✓"));
    assert_eq!(align_left("inactive", 8), "inactive");
}

#[test]
fn sessions_are_described() {
    let read = |state, pid, process: Option<&str>| SessionReading::Read {
        state,
        pid,
        process: process.map(|p| p.to_string()),
    };
    let readings = vec![
        read(SessionState::Active, 1234, Some("zoom.exe")),
        read(SessionState::Inactive, 0, None),
        read(SessionState::Expired, 7, None),
        SessionReading::Unreadable { error: "gone".to_string() },
        SessionReading::StateUnreadable { error: "denied".to_string() },
    ];
    let report = check_mic_in_use(&readings);
    assert_eq!(report.heading, format!("  Found {} session(s) total on '{}'", 5, TARGET_MIC));
    let lines: Vec<&str> = report.lines.iter().map(|l| l.text.as_str()).collect();
    assert_eq!(
        lines,
        vec![
            format!("  Session {:2}: [{:<8}] PID={:6}  ({})", 0, "ACTIVE ✓", 1234, "zoom.exe"),
            format!("  Session {:2}: [{:<8}] PID={:6}  ({})", 1, "inactive", 0, "<system/PID=0>"),
            format!("  Session {:2}: [{:<8}] PID={:6}  ({})", 2, "expired", 7, "<unknown PID 7>"),
            "  [warn] Could not read session 3: gone".to_string(),
            "  [warn] Could not read state for session 4: denied".to_string(),
        ]
    );
    let warnings: Vec<bool> = report.lines.iter().map(|l| l.warning).collect();
    assert_eq!(warnings, vec![false, false, false, true, true]);
    assert_eq!(report.active_sessions, 1);
    assert!(report.in_use);
    assert_eq!(
        describe_session(123, &readings[1]).text,
        "  Session 123: [inactive] PID=     0  (<system/PID=0>)"
    );
}

#[test]
fn without_active_sessions_the_microphone_is_free() {
    assert!(!check_mic_in_use(&vec![]).in_use);
    let readings = vec![
        SessionReading::Unreadable { error: String::new() },
        SessionReading::Read { state: SessionState::Expired, pid: 5, process: None },
    ];
    let report = check_mic_in_use(&readings);
    assert!(!report.in_use);
    assert_eq!(report.active_sessions, 0);
    assert_eq!(POLL_INTERVAL_MS, 2000);
}

#[test]
fn verdict_is_spelled_out() {
    assert_eq!(usage_text(true), "→ Microphone IS in use (at least one ACTIVE session).\n");
    assert_eq!(usage_text(false), "→ Microphone is NOT in use (no active sessions).\n");
}
