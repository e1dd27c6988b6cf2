use hyprpilot::cli::{
    AgentProbe, Report, TESTED_HYPRLAND, WindowInfo, WindowSession, agent_checks, parked_windows,
    sizes_mismatch, status_window, version_number, window_rows,
};
use hyprpilot::hypr::{Client, WorkspaceRef};
use hyprpilot::session::{Disposition, Shared, TrackedWindow};
use hyprpilot::error::Error;

fn probe(binary: bool, version: Option<&str>, writable: bool) -> AgentProbe {
    AgentProbe {
        binary,
        version: version.map(str::to_owned),
        sessions_dir: "/run/user/1000/hyprpilot/sessions".to_owned(),
        sessions_writable: writable,
        instances_dir: "/run/user/1000/hypr".to_owned(),
        instances_listable: true,
        host_socket: Some(true),
    }
}

fn lines(probe: &AgentProbe) -> Result<String, Error> {
    let mut report = Report::new();
    agent_checks(probe, &mut report);
    report.finish()
}

#[test]
fn status_detects_configured_effective_size_mismatch() {
    assert!(sizes_mismatch([1600, 1000], [1200, 800]));
    assert!(!sizes_mismatch([1600, 1000], [1600, 1000]));
    assert!(sizes_mismatch([1600, 1000], [1600, 999]));
}

#[test]
fn doctor_checks_the_isolated_mode_without_a_session() -> Result<(), Error> {
    let report = lines(&probe(
        true,
        Some("Hyprland 0.56.0 built from branch main at commit abc"),
        true,
    ))?;
    assert!(report.contains("ok    Hyprland found on PATH"), "{report}");
    assert!(
        report.contains("ok    Hyprland 0.56.0 is the version"),
        "{report}"
    );
    assert!(
        report.contains("ok    /run/user/1000/hyprpilot/sessions is writable"),
        "{report}"
    );

    let report = lines(&probe(true, Some("Hyprland 0.49.0 built from branch"), true))?;
    assert!(report.contains("warn  Hyprland 0.49.0"), "{report}");
    assert!(report.contains(TESTED_HYPRLAND), "{report}");
    let report = lines(&probe(true, None, true))?;
    assert!(report.contains("warn  no version number"), "{report}");

    let error = match lines(&probe(false, Some("Hyprland 0.56.0"), false)) {
        Err(error) => error,
        Ok(report) => panic!("a broken environment passed doctor: {report}"),
    };
    assert!(
        matches!(error, Error::DoctorFailed { failures: 2, .. }),
        "{error:?}"
    );
    let report = error.message();
    assert!(
        report.contains("FAIL  Hyprland not found on PATH"),
        "{report}"
    );
    assert!(report.contains("session start --isolated"), "{report}");
    assert!(report.contains("is not writable"), "{report}");

    let report = lines(&probe(true, Some("Hyprland 0.56.0"), true))?;
    assert!(
        report.contains("ok    /run/user/1000/hypr is listable"),
        "{report}"
    );
    assert!(
        report.contains("ok    this session's own instance socket"),
        "{report}"
    );

    let error = match lines(&AgentProbe {
        instances_listable: false,
        host_socket: Some(false),
        ..probe(true, Some("Hyprland 0.56.0"), true)
    }) {
        Err(error) => error,
        Ok(report) => panic!("an unreadable instance directory passed doctor: {report}"),
    };
    assert!(
        matches!(error, Error::DoctorFailed { failures: 2, .. }),
        "{error:?}"
    );
    let report = error.message();
    assert!(
        report.contains("FAIL  /run/user/1000/hypr cannot be listed"),
        "{report}"
    );
    assert!(report.contains("instance socket is missing"), "{report}");

    let report = lines(&AgentProbe {
        host_socket: None,
        ..probe(true, Some("Hyprland 0.56.0"), true)
    })?;
    assert!(!report.contains("instance socket"), "{report}");
    Ok(())
}

#[test]
fn a_version_number_is_read_out_of_the_hyprctl_line() {
    assert_eq!(
        version_number("Hyprland 0.56.0 built from branch main at commit deadbeef").as_deref(),
        Some("0.56.0")
    );
    assert_eq!(version_number("Hyprland, v0.45.2").as_deref(), Some("0.45.2"));
    assert_eq!(version_number("Hyprland built from source"), None);
    assert_eq!(version_number(""), None);
}

#[test]
fn a_report_counts_its_failures_and_keeps_its_lines_in_order() {
    let mut report = Report::new();
    report.ok("first");
    report.warn("second");
    report.info("third");
    report.check(true, "fourth", "never");
    assert_eq!(report.failures, 0);
    let text = match report.finish() {
        Ok(text) => text,
        Err(error) => panic!("{error:?}"),
    };
    let lines: Vec<&str> = text.lines().collect();
    assert_eq!(lines.len(), 4);
    assert!(lines[0].ends_with("first") && lines[0].starts_with("ok"), "{text}");
    assert!(lines[1].ends_with("second") && lines[1].starts_with("warn"), "{text}");
    assert!(lines[2].ends_with("third"), "{text}");
    assert!(lines[3].ends_with("fourth"), "{text}");

    let mut failing = Report::new();
    failing.fail("broken");
    failing.check(false, "never", "also broken");
    let error = match failing.finish() {
        Err(error) => error,
        Ok(text) => panic!("{text}"),
    };
    assert!(matches!(error, Error::DoctorFailed { failures: 2, .. }), "{error:?}");
    assert!(error.message().ends_with("2 check(s) failed"), "{}", error.message());
}

fn client(address: &str, workspace: &str) -> Client {
    Client {
        address: address.to_owned(),
        at: [10, 20],
        size: [800, 600],
        workspace: WorkspaceRef { name: workspace.to_owned() },
        floating: false,
        monitor: 1,
        class: "app".to_owned(),
        initial_class: "app".to_owned(),
        title: format!("window {address}"),
        initial_title: format!("window {address}"),
        pid: 42,
    }
}

fn clients() -> Vec<Client> {
    vec![client("0xaaa", "special:hyprpilot-parked"), client("0xbbb", "hyprpilot"), client("0xccc", "1")]
}

fn tracking_entry(client: &Client) -> TrackedWindow {
    TrackedWindow {
        address: client.address.clone(),
        title_at_adoption: client.title.clone(),
        origin_workspace: "1".to_owned(),
        origin_at: [0, 0],
        origin_size: [800, 600],
        origin_floating: false,
        teardown: Disposition::Restore,
    }
}

fn valid_session(clients: &[Client]) -> Shared {
    Shared {
        output: "hyprpilot".to_owned(),
        output_created: true,
        active_workspace: "hyprpilot".to_owned(),
        parking_workspace: "special:hyprpilot-parked".to_owned(),
        size: [1600, 1000],
        spawned_pid: None,
        initial_user_focus: None,
        primary_address: clients[0].address.clone(),
        active_address: clients[1].address.clone(),
        windows: vec![tracking_entry(&clients[0]), tracking_entry(&clients[1])],
    }
}

fn annotations(rows: &[WindowInfo]) -> Vec<(Option<bool>, Option<bool>)> {
    rows.iter().map(|row| (row.tracking, row.active)).collect()
}

#[test]
fn windows_serializes_exact_fields_and_calculates_focus() {
    let clients = clients();
    let rows = window_rows(&clients, Some(clients[1].address.as_str()), &WindowSession::Absent);
    assert_eq!(rows.len(), 3);
    let row = &rows[1];
    assert_eq!(row.address, "0xbbb");
    assert_eq!(row.class, "app");
    assert_eq!(row.initial_class, "app");
    assert_eq!(row.title, "window 0xbbb");
    assert_eq!(row.initial_title, "window 0xbbb");
    assert_eq!(row.pid, 42);
    assert_eq!(row.workspace, "hyprpilot");
    assert_eq!(row.at, [10, 20]);
    assert_eq!(row.size, [800, 600]);
    assert!(!row.floating);
    assert_eq!(row.monitor, 1);
    assert_eq!(
        rows.iter().filter(|row| row.focused).map(|row| row.address.as_str()).collect::<Vec<_>>(),
        vec!["0xbbb"]
    );
}

#[test]
fn windows_without_session_marks_every_client_untracked_and_inactive() {
    let rows = window_rows(&clients(), None, &WindowSession::Absent);
    assert!(annotations(&rows).iter().all(|pair| *pair == (Some(false), Some(false))));
}

#[test]
fn windows_with_valid_session_marks_tracked_and_active_addresses() {
    let clients = clients();
    let shared = valid_session(&clients);
    let rows = window_rows(&clients, None, &WindowSession::Shared(&shared));
    assert_eq!(
        annotations(&rows),
        vec![(Some(true), Some(false)), (Some(true), Some(true)), (Some(false), Some(false))]
    );
}

#[test]
fn windows_with_corrupt_session_marks_annotations_unknown() {
    let rows = window_rows(&clients(), None, &WindowSession::Unknown);
    assert!(annotations(&rows).iter().all(|pair| *pair == (None, None)));
}

#[test]
fn windows_without_clients_is_an_empty_json_array() {
    assert!(window_rows(&[], None, &WindowSession::Absent).is_empty());
}

#[test]
fn agent_windows_keep_the_shared_fields_and_annotate_the_recorded_window() {
    let clients = vec![client("0xaaa", "1"), client("0xbbb", "1"), client("0xccc", "2"), client("0xddd", "3")];
    let agent = window_rows(&clients, Some("0xddd"), &WindowSession::Agent(Some("0xbbb")));
    assert_eq!(
        agent
            .iter()
            .map(|row| (row.address.as_str(), row.tracking, row.active, row.focused))
            .collect::<Vec<_>>(),
        vec![
            ("0xaaa", Some(false), Some(false), false),
            ("0xbbb", Some(true), Some(true), false),
            ("0xccc", Some(false), Some(false), false),
            ("0xddd", Some(false), Some(false), true),
        ]
    );
    let empty = window_rows(&clients, None, &WindowSession::Agent(None));
    assert!(annotations(&empty).iter().all(|pair| *pair == (Some(false), Some(false))));
}

#[test]
fn status_reports_the_parked_windows_and_its_active_window() {
    let clients = clients();
    let shared = valid_session(&clients);
    assert_eq!(parked_windows(&shared, &clients), vec!["0xaaa".to_owned()]);
    assert_eq!(status_window(&clients, &shared).unwrap().address, "0xbbb");
    let gone = status_window(&clients[..1], &shared).unwrap_err();
    assert!(matches!(&gone, hyprpilot::error::Error::WindowGone(a) if a == "0xbbb"), "{gone:?}");
}

#[test]
fn json_strings_escape_quotes_backslashes_and_control_characters() {
    assert_eq!(hyprpilot::json::json_quote("a\"b\\c"), "\"a\\\"b\\\\c\"");
    assert_eq!(hyprpilot::json::json_quote("\n\t\u{1}\u{1f}é"), "\"\\n\\t\\u0001\\u001fé\"");
}
