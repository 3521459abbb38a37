use noalbsgui::status::{parse_status_line, NoalbsStatus, ObsConnection};

fn parse(lines: &[&str]) -> NoalbsStatus {
    let mut s = NoalbsStatus::default();
    for l in lines {
        parse_status_line(l, &mut s);
    }
    s
}

#[test]
fn parses_scene_switch() {
    let s = parse(&["2026-06-13T12:00:00Z  INFO noalbs::switcher: Scene switched to [Normal] LIVE"]);
    assert_eq!(s.current_scene.as_deref(), Some("LIVE"));
    assert_eq!(s.last_switch_type.as_deref(), Some("Normal"));
}

#[test]
fn parses_scene_with_spaces() {
    let s = parse(&["...: Scene switched to [Offline] My BRB Scene"]);
    assert_eq!(s.current_scene.as_deref(), Some("My BRB Scene"));
    assert_eq!(s.last_switch_type.as_deref(), Some("Offline"));
}

#[test]
fn obs_connection_transitions() {
    let mut s = NoalbsStatus::default();
    assert_eq!(s.obs, ObsConnection::Disconnected);
    parse_status_line("... INFO noalbs::broadcasting_software::obs_v5: Connecting", &mut s);
    assert_eq!(s.obs, ObsConnection::Connecting);
    parse_status_line("... INFO noalbs::broadcasting_software::obs_v5: Connected", &mut s);
    assert_eq!(s.obs, ObsConnection::Connected);
    parse_status_line("... WARN noalbs::broadcasting_software::obs_v5: Disconnected", &mut s);
    assert_eq!(s.obs, ObsConnection::Disconnected);
}

#[test]
fn disconnected_not_misread_as_connected() {
    let mut s = NoalbsStatus::default();
    s.obs = ObsConnection::Connected;
    let changed = parse_status_line("... WARN ...obs_v5: Disconnected", &mut s);
    assert!(changed);
    assert_eq!(s.obs, ObsConnection::Disconnected);
}

#[test]
fn parses_user_and_switcher_state() {
    let s = parse(&[
        "... INFO noalbs::noalbs: Loaded user: b3ck",
        "... INFO noalbs::switcher: Switcher running",
    ]);
    assert_eq!(s.user.as_deref(), Some("b3ck"));
    assert_eq!(s.switcher_state.as_deref(), Some("Running"));
}

#[test]
fn unmatched_line_does_not_change() {
    let mut s = NoalbsStatus::default();
    let changed = parse_status_line("... INFO noalbs: some unrelated line", &mut s);
    assert!(!changed);
}

#[test]
fn switcher_messages() {
    let cases = [
        ("x: Offline timeout reached, stopping", "Offline timeout — stopping stream"),
        ("x: Switcher disabled", "Disabled"),
        ("x: Waiting for OBS connection", "Waiting for OBS"),
        ("x: Waiting till OBS starts streaming", "Waiting for streaming"),
        ("x: waiting for scene switch to a switchable scene", "Waiting for switchable scene"),
        ("x: Running switcher", "Running"),
    ];
    for (line, want) in cases {
        let s = parse(&[line]);
        assert_eq!(s.switcher_state.as_deref(), Some(want), "{line}");
    }
}

#[test]
fn same_line_twice_changes_once() {
    let mut s = NoalbsStatus::default();
    assert!(parse_status_line("a: Scene switched to [Low] BRB  ", &mut s));
    assert!(!parse_status_line("a: Scene switched to [Low] BRB  ", &mut s));
    assert_eq!(s.current_scene.as_deref(), Some("BRB"));
}

#[test]
fn scene_text_stops_at_next_marker_and_needs_separator() {
    let s = parse(&["Scene switched to [A] one Scene switched to [B] two"]);
    assert_eq!(s.last_switch_type.as_deref(), Some("A"));
    assert_eq!(s.current_scene.as_deref(), Some("one"));
    // a scene line without "] " changes nothing, and nothing else is tried
    let mut s = NoalbsStatus::default();
    assert!(!parse_status_line("Scene switched to [Normal Connected", &mut s));
    assert_eq!(s.obs, ObsConnection::Disconnected);
}

#[test]
fn trailing_space_still_matches_connection() {
    let s = parse(&["x: Connected   "]);
    assert_eq!(s.obs, ObsConnection::Connected);
}
