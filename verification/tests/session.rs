use hyprpilot::error::{Error, RestoreFailure};
use hyprpilot::guard;
use hyprpilot::hypr::{ActiveWorkspace, Client, Monitor, ProcessOutput, WorkspaceRef};
use hyprpilot::session::{
    Criteria, DEFAULT_SESSION_NAME, Disposition, Escalation, Instance, Isolated, Mode, ModeState,
    Placement, Rect, Resolution, SCHEMA_VERSION, Session, Shared, Step, TargetLookup, TargetMode,
    TrackedWindow, WindowAction, ambiguous_error, parse_size, place, refuse_teardown_flags,
    report_teardown, resize_has_applied, resize_unsupported, resolve, resolve_name_from,
    target_disposition, target_lookup, teardown_plan, workspace_selector, effective_output_size,
    ensure_output_empty_for_sweep, evacuate_stray_workspace, output_rect, placement_is_verified,
    stray_move, target_layout_is_verified, check_primary, find_shared_session, SessionHeader,
    unsupported_version,
};

fn no_criteria() -> Criteria<'static> {
    Criteria { address: None, title: None, class: None, pid: None }
}

fn sample_shared() -> Shared {
    Shared {
        output: "hyprpilot".to_owned(),
        output_created: true,
        active_workspace: "hyprpilot".to_owned(),
        parking_workspace: "special:hyprpilot-parked".to_owned(),
        size: [1600, 1000],
        spawned_pid: Some(42),
        initial_user_focus: Some("0xdef".to_owned()),
        primary_address: "0xabc".to_owned(),
        active_address: "0xabc".to_owned(),
        windows: vec![TrackedWindow {
            address: "0xabc".to_owned(),
            title_at_adoption: "App".to_owned(),
            origin_workspace: "3".to_owned(),
            origin_at: [120, 80],
            origin_size: [900, 600],
            origin_floating: true,
            teardown: Disposition::Close,
        }],
    }
}

fn named_session(name: &str) -> Session {
    Session {
        schema_version: SCHEMA_VERSION,
        name: name.to_owned(),
        state: ModeState::Shared(sample_shared()),
    }
}

fn sample_session() -> Session {
    named_session(DEFAULT_SESSION_NAME)
}

fn sample_isolated(name: &str, instance: Instance) -> Session {
    Session {
        schema_version: SCHEMA_VERSION,
        name: name.to_owned(),
        state: ModeState::Isolated(Isolated {
            output: format!("hyprpilot-{name}"),
            workspace: format!("agent-{name}"),
            instance_nonce: "4242-1700000000000000000".to_owned(),
            size: [1920, 1080],
            shown: false,
            active_address: None,
            instance,
            host: Vec::new(),
        }),
    }
}

fn live_instance() -> Instance {
    Instance::Live {
        signature: "abcdef_1730000000".to_owned(),
        wayland_display: "wayland-2".to_owned(),
        pid: 4242,
        console_address: "0xc0ff33".to_owned(),
    }
}

fn client(address: &str, title: &str, class: &str, pid: i32, workspace: &str, at: [i32; 2]) -> Client {
    Client {
        address: address.to_owned(),
        at,
        size: [800, 600],
        workspace: WorkspaceRef { name: workspace.to_owned() },
        floating: false,
        monitor: 0,
        class: class.to_owned(),
        initial_class: class.to_owned(),
        title: title.to_owned(),
        initial_title: title.to_owned(),
        pid,
    }
}

/// Three windows share a title, two of them a class too; one stands alone.
fn matching_clients() -> Vec<Client> {
    vec![
        client("0xaaa", "Shared title", "shared.class", 101, "1", [10, 20]),
        client("0xbbb", "Shared title", "shared.class", 102, "2", [30, 40]),
        client("0xccc", "Shared title", "other.class", 103, "3", [50, 60]),
        client("0xddd", "Unique title", "unique.class", 104, "4", [70, 80]),
    ]
}

fn tracked_client(client: &Client) -> TrackedWindow {
    TrackedWindow {
        address: client.address.clone(),
        title_at_adoption: client.title.clone(),
        origin_workspace: client.workspace.name.clone(),
        origin_at: client.at,
        origin_size: client.size,
        origin_floating: client.floating,
        teardown: Disposition::Restore,
    }
}

fn json_len(candidates: &str) -> usize {
    let parsed: Vec<serde_json::Value> = serde_json::from_str(candidates).unwrap();
    parsed.len()
}

#[test]
fn resolve_returns_none_when_no_client_matches() {
    let clients = matching_clients();
    let criteria = Criteria {
        title: Some("Missing title"),
        ..no_criteria()
    };
    assert!(matches!(resolve(&clients, &criteria), Resolution::NoMatch));
}

#[test]
fn resolve_returns_unique_client_for_one_exact_match() {
    let clients = matching_clients();
    let criteria = Criteria {
        title: Some("Unique title"),
        ..no_criteria()
    };
    let Resolution::Unique(client) = resolve(&clients, &criteria) else {
        panic!("expected one matching client");
    };
    assert_eq!(client.address, "0xddd");
}

#[test]
fn resolve_returns_every_ambiguous_exact_match() {
    let clients = matching_clients();
    let criteria = Criteria {
        title: Some("Shared title"),
        ..no_criteria()
    };
    let Resolution::Ambiguous(candidates) = resolve(&clients, &criteria) else {
        panic!("expected ambiguous clients");
    };
    assert_eq!(
        candidates
            .iter()
            .map(|client| client.address.as_str())
            .collect::<Vec<_>>(),
        vec!["0xaaa", "0xbbb", "0xccc"]
    );
}

#[test]
fn resolve_combines_title_class_and_pid_with_and() {
    let clients = matching_clients();
    let criteria = Criteria {
        address: Some("0xbbb"),
        title: Some("Shared title"),
        class: Some("shared.class"),
        pid: Some(102),
    };
    let Resolution::Unique(client) = resolve(&clients, &criteria) else {
        panic!("combined criteria did not resolve uniquely");
    };
    assert_eq!(client.address, "0xbbb");
}

#[test]
fn target_resolution_matrix_covers_tracking_count_wait_and_untracked() {
    let all_clients = matching_clients();
    let criteria = Criteria {
        title: Some("Shared title"),
        ..no_criteria()
    };

    for is_tracked in [false, true] {
        for count in [0, 1, 3] {
            for wait in [false, true] {
                for untracked in [false, true] {
                    let clients = &all_clients[..count];
                    let mut session = sample_shared();
                    if is_tracked {
                        session.windows.extend(clients.iter().map(tracked_client));
                    }
                    let effective_count = if is_tracked && untracked { 0 } else { count };
                    let result = target_lookup(clients, &session, &criteria, untracked, wait);
                    let label = format!(
                        "tracked={is_tracked}, count={count}, wait={wait}, untracked={untracked}"
                    );

                    match effective_count {
                        0 if wait => {
                            assert!(matches!(result, Ok(TargetLookup::Retry)), "{label}");
                        }
                        0 => {
                            assert!(matches!(result, Err(Error::WindowNotFound(_))), "{label}");
                        }
                        1 => {
                            let Ok(TargetLookup::Ready { mode, .. }) = result else {
                                panic!("{label}: expected one target");
                            };
                            assert_eq!(
                                mode,
                                if is_tracked {
                                    TargetMode::Switch
                                } else {
                                    TargetMode::Adopt
                                },
                                "{label}"
                            );
                        }
                        _ => {
                            let Err(Error::WindowAmbiguous { candidates, .. }) = result else {
                                panic!("{label}: expected ambiguity");
                            };
                            assert_eq!(json_len(&candidates), effective_count, "{label}");
                        }
                    }
                }
            }
        }
    }
    let Err(Error::WindowAmbiguous {
        criteria,
        candidates,
    }) = target_lookup(&all_clients, &sample_shared(), &no_criteria(), true, false)
    else {
        panic!("--untracked alone did not select all untracked clients");
    };
    assert_eq!(criteria, "untracked windows");
    assert_eq!(json_len(&candidates), 4);
}

#[test]
fn target_rejects_disposition_for_switch_and_defaults_adoption_to_restore() -> Result<(), Error> {
    assert_eq!(
        target_disposition("0xabc", TargetMode::Switch, None)?,
        Disposition::Restore
    );
    let error = match target_disposition("0xabc", TargetMode::Switch, Some(Disposition::Close)) {
        Err(error) => error.message(),
        Ok(d) => panic!("tracked target accepted --on-teardown: {d:?}"),
    };
    assert!(error.contains("already tracked"));
    assert!(error.contains("omit --on-teardown"));
    assert_eq!(
        target_disposition("0xdef", TargetMode::Adopt, None)?,
        Disposition::Restore
    );
    assert_eq!(
        target_disposition("0xdef", TargetMode::Adopt, Some(Disposition::Close))?,
        Disposition::Close
    );
    Ok(())
}

#[test]
fn ambiguous_error_ends_with_machine_readable_candidates() {
    let clients = matching_clients();
    let criteria = Criteria {
        address: None,
        title: Some("Shared title"),
        class: Some("shared.class"),
        pid: None,
    };
    let Resolution::Ambiguous(candidates) = resolve(&clients, &criteria) else {
        panic!("expected ambiguous clients");
    };
    let message = ambiguous_error(&criteria, candidates).message();
    let last_line = message.lines().last().unwrap();
    let candidates: Vec<serde_json::Value> = serde_json::from_str(last_line).unwrap();

    assert_eq!(
        candidates
            .iter()
            .map(|candidate| candidate["address"].as_str())
            .collect::<Vec<_>>(),
        vec![Some("0xaaa"), Some("0xbbb")]
    );
    assert!(message.starts_with("multiple windows match title `Shared title` and class `shared.class`; refine the match criteria\n"), "{message}");
}

#[test]
fn size_parses_and_rejects() {
    assert_eq!(parse_size("1600x1000").ok(), Some((1600, 1000)));
    assert_eq!(parse_size(" 800 x 600 ").ok(), Some((800, 600)));
    assert!(parse_size("1600").is_err());
    assert!(parse_size("0x100").is_err());
    assert!(parse_size("axb").is_err());
}

#[test]
fn resize_rejects_stale_pre_keyword_dimensions() {
    assert!(!resize_has_applied([300, 200], [1200, 800], [300, 200]));
    assert!(resize_has_applied([300, 200], [1200, 800], [1200, 800]));
    assert!(resize_has_applied([300, 200], [300, 200], [300, 200]));
}

#[test]
fn placement_clamps_all_axes_and_handles_oversized_windows() {
    let rect = |x, y, w, h| Rect { x, y, w, h };
    let output = rect(0, 0, 100, 80);
    let cases = [
        ("contained", rect(10, 20, 30, 20), output, Placement::Keep),
        ("overflow x", rect(90, 20, 30, 20), output, Placement::MoveTo(70, 20)),
        ("overflow y", rect(10, -5, 30, 20), output, Placement::MoveTo(10, 0)),
        ("overflow both", rect(-10, 70, 30, 20), output, Placement::MoveTo(0, 60)),
        ("oversized x", rect(10, 20, 101, 20), output, Placement::Oversized(0, 0)),
        ("oversized y", rect(10, 20, 30, 81), output, Placement::Oversized(0, 0)),
        ("oversized both", rect(10, 20, 101, 81), output, Placement::Oversized(0, 0)),
        (
            "negative output and window",
            rect(-130, -40, 40, 30),
            rect(-100, -80, 100, 80),
            Placement::MoveTo(-100, -40),
        ),
    ];

    for (label, window, output, expected) in cases {
        assert_eq!(place(window, output), expected, "{label}");
    }
}

#[test]
fn workspace_selector_prefixes_named_workspaces() {
    assert_eq!(workspace_selector("proto"), "name:proto");
    assert_eq!(workspace_selector("agent-alpha"), "name:agent-alpha");
    assert_eq!(workspace_selector("5"), "5");
    assert_eq!(
        workspace_selector("special:hyprpilot-parked"),
        "special:hyprpilot-parked"
    );
}

#[test]
fn teardown_flag_matrix_matches_session_ownership() {
    let spawned = sample_shared();
    assert_eq!(
        teardown_plan(&spawned, false, false)
            .ok()
            .and_then(|plan| plan.first().map(|step| step.1)),
        Some(WindowAction::Close)
    );
    assert_eq!(
        teardown_plan(&spawned, true, false)
            .ok()
            .and_then(|plan| plan.first().map(|step| step.1)),
        Some(WindowAction::Kill(42))
    );
    let spawned_close = match teardown_plan(&spawned, false, true) {
        Err(error) => error.message(),
        Ok(_) => panic!("--close accepted a spawned session"),
    };
    assert!(spawned_close.contains("attached primary"));

    let mut attached = sample_shared();
    attached.spawned_pid = None;
    attached.windows[0].teardown = Disposition::Restore;
    assert_eq!(
        teardown_plan(&attached, false, false)
            .ok()
            .and_then(|plan| plan.first().map(|step| step.1)),
        Some(WindowAction::Restore)
    );
    assert_eq!(
        teardown_plan(&attached, false, true)
            .ok()
            .and_then(|plan| plan.first().map(|step| step.1)),
        Some(WindowAction::Close)
    );
    let attached_kill = match teardown_plan(&attached, true, false) {
        Err(error) => error.message(),
        Ok(_) => panic!("--kill accepted an attached session"),
    };
    assert!(attached_kill.contains("spawned_pid"));

    assert!(teardown_plan(&spawned, true, true).is_err());
}

#[test]
fn escalation_orders_the_polite_request_then_sigterm_then_sigkill() {
    let ladder = Escalation {
        polite: 100,
        term: 50,
        kill: 25,
        poll: 5,
    };

    assert_eq!(ladder.step(0), Step::Wait);
    assert_eq!(ladder.step(99), Step::Wait);
    assert_eq!(ladder.step(100), Step::Signal("TERM"));
    assert_eq!(ladder.step(149), Step::Signal("TERM"));
    assert_eq!(ladder.step(150), Step::Signal("KILL"));
    assert_eq!(ladder.step(174), Step::Signal("KILL"));
    assert_eq!(ladder.step(175), Step::GiveUp);
}

#[test]
fn the_cursor_check_of_teardown_keeps_the_warp_tolerance() {
    assert_eq!(guard::WARP_TOLERANCE, 1);
    assert!(guard::cursor_near((4652, 1066), (4652, 1066)));
    assert!(guard::cursor_near((4653, 1067), (4652, 1066)));
    assert!(!guard::cursor_near((4654, 1066), (4652, 1066)));
    assert!(!guard::cursor_near((4652, 1064), (4652, 1066)));
}

#[test]
fn isolated_teardown_refuses_the_shared_window_flags() -> Result<(), Error> {
    refuse_teardown_flags(false, false)?;

    for (kill, close, flag) in [(true, false, "--kill"), (false, true, "--close")] {
        let error = match refuse_teardown_flags(kill, close) {
            Err(error) => error.message(),
            Ok(()) => panic!("{flag} was accepted for an agent desktop"),
        };
        assert!(error.contains(flag), "{error}");
        assert!(error.contains("no window dispositions"), "{error}");
    }
    Ok(())
}

#[test]
fn a_teardown_that_could_not_restore_reports_both() -> Result<(), Error> {
    let summary =
        "teardown done — removed output hyprpilot-alpha, session state cleared".to_owned();
    assert_eq!(report_teardown(summary.clone(), Vec::new())?, summary);

    let error = match report_teardown(
        summary,
        vec![RestoreFailure {
            what: "cursor".to_owned(),
            expected: "(4652, 1066)".to_owned(),
            actual: "(960, 540)".to_owned(),
        }],
    ) {
        Err(error) => error,
        Ok(message) => panic!("an unrestored cursor was reported as a clean teardown: {message}"),
    };

    assert!(matches!(&error, Error::TeardownIncomplete { .. }));
    let message = error.message();
    assert!(message.contains("teardown done"), "{message}");
    assert!(message.contains("session state cleared"), "{message}");
    assert!(message.contains("not fully restored"), "{message}");
    assert!(
        message.contains("cursor: expected (4652, 1066), actual (960, 540)"),
        "{message}"
    );
    Ok(())
}

#[test]
fn teardown_plan_processes_windows_in_reverse_order() -> Result<(), Error> {
    let mut session = sample_shared();
    session.windows.push(TrackedWindow {
        address: "0xaux".to_owned(),
        title_at_adoption: "Auxiliary".to_owned(),
        origin_workspace: "special:notes".to_owned(),
        origin_at: [300, 200],
        origin_size: [600, 400],
        origin_floating: true,
        teardown: Disposition::Restore,
    });

    let plan = teardown_plan(&session, false, false)?;
    assert_eq!(plan[0].0.address, "0xaux");
    assert_eq!(plan[0].1, WindowAction::Restore);
    assert_eq!(plan[1].0.address, "0xabc");
    assert_eq!(plan[1].1, WindowAction::Close);
    Ok(())
}

#[test]
fn session_name_is_validated_against_the_path_safe_alphabet() {
    for name in ["a", "default", "agent-1", "a".repeat(32).as_str()] {
        assert!(
            resolve_name_from(Some(name), None).is_ok(),
            "rejected valid name {name}"
        );
    }
    for name in [
        "",
        "Agent",
        "agent_1",
        "agent.1",
        "../etc",
        "a/b",
        "a".repeat(33).as_str(),
    ] {
        let error = resolve_name_from(Some(name), None)
            .err()
            .map(|error| error.message())
            .unwrap_or_default();
        assert!(error.contains("session name"), "accepted {name:?}");
        assert!(error.contains("--session"), "{error}");
    }
}

#[test]
fn session_name_resolution_prefers_flag_then_env_then_default() -> Result<(), Error> {
    assert_eq!(resolve_name_from(Some("alpha"), Some("beta"))?, "alpha");
    assert_eq!(resolve_name_from(None, Some("beta"))?, "beta");
    assert_eq!(resolve_name_from(None, None)?, DEFAULT_SESSION_NAME);
    let error = match resolve_name_from(None, Some("")) {
        Err(error) => error.message(),
        Ok(name) => panic!("an empty HYPRPILOT_SESSION was accepted: {name}"),
    };
    assert!(error.contains("HYPRPILOT_SESSION"), "{error}");
    Ok(())
}

#[test]
fn an_isolated_session_never_falls_through_the_shared_accessor() -> Result<(), Error> {
    let session = sample_isolated("alpha", live_instance());
    for command in ["key", "type", "click", "scroll", "target"] {
        let error = match session.shared(command) {
            Err(error) => error,
            Ok(_) => panic!("`{command}` fell through to the shared path"),
        };
        assert!(matches!(error, Error::ModeRouting { .. }), "{error:?}");
        let message = error.message();
        assert!(message.contains(command), "{message}");
        assert!(
            message.contains("no compositor state was touched"),
            "{message}"
        );
    }
    assert_eq!(sample_session().shared("status")?.output, "hyprpilot");
    assert_eq!(session.mode(), Mode::Isolated);
    assert_eq!(sample_session().mode(), Mode::Shared);
    Ok(())
}

#[test]
fn only_an_agent_desktop_can_be_shown_or_hidden() -> Result<(), Error> {
    for command in ["session show", "session hide"] {
        let error = match sample_session().agent(command) {
            Err(error) => error,
            Ok(_) => panic!("`{command}` was accepted on a shared session"),
        };
        assert!(
            matches!(error, Error::SharedUnsupported { .. }),
            "{error:?}"
        );
        let message = error.message();
        assert!(message.contains(command), "{message}");
        assert!(
            message.contains("not supported for shared sessions"),
            "{message}"
        );
        assert!(message.contains("already on their desktop"), "{message}");
    }
    assert_eq!(
        sample_isolated("alpha", live_instance())
            .agent("session show")?
            .workspace,
        "agent-alpha"
    );
    Ok(())
}

#[test]
fn isolated_resize_is_refused_as_out_of_cycle() {
    let session = sample_isolated("alpha", live_instance());
    assert!(session.shared("session resize").is_err());
    let error = resize_unsupported().message();
    assert!(error.contains("session resize"), "{error}");
    assert!(error.contains("not supported"), "{error}");
    assert!(error.contains("--isolated --size"), "{error}");
}

fn monitor(id: i64, name: &str, x: i64, width: i64, height: i64, active: &str) -> Monitor {
    Monitor {
        id,
        name: name.to_owned(),
        width,
        height,
        x,
        y: 0,
        logical_width: width,
        logical_height: height,
        unit_scale: true,
        active_workspace: ActiveWorkspace { id: 1, name: active.to_owned() },
        special_workspace: String::new(),
    }
}

fn sweep_monitors() -> Vec<Monitor> {
    vec![monitor(0, "DP-3", 0, 5120, 1440, "1"), monitor(1, "hyprpilot", 5120, 1600, 1000, "hyprpilot")]
}

fn on_monitor(address: &str, monitor: i64) -> Client {
    let mut c = client(address, "App", "app", 7, "1", [0, 0]);
    c.monitor = monitor;
    c
}

#[test]
fn sweep_refuses_occupied_output_fixture() {
    let monitors = sweep_monitors();
    let clients = vec![on_monitor("0xaaa", 0), on_monitor("0xbbb", 1)];
    let error = match ensure_output_empty_for_sweep(&monitors[1], &monitors, &clients) {
        Err(error) => error.message(),
        Ok(()) => panic!("occupied output unexpectedly accepted for sweep"),
    };
    assert!(error.contains("still reports monitor 1"), "{error}");
    assert_eq!(
        error,
        "refusing to remove orphan output hyprpilot: client 0xbbb (`App`) still reports monitor 1; no output was removed"
    );
}

#[test]
fn sweep_accepts_empty_output_fixture() {
    let monitors = sweep_monitors();
    let clients = vec![on_monitor("0xaaa", 0), on_monitor("0xbbb", 0)];
    ensure_output_empty_for_sweep(&monitors[1], &monitors, &clients).unwrap();
}

#[test]
fn sweep_refuses_monitor_minus_one_fixture() {
    let monitors = sweep_monitors();
    let clients = vec![on_monitor("0xaaa", 0), on_monitor("0xbbb", -1)];
    let error = match ensure_output_empty_for_sweep(&monitors[1], &monitors, &clients) {
        Err(error) => error.message(),
        Ok(()) => panic!("monitor -1 unexpectedly accepted for sweep"),
    };
    assert!(error.contains("unexpected monitor -1"), "{error}");
    let unlisted = vec![on_monitor("0xccc", 4)];
    assert!(ensure_output_empty_for_sweep(&monitors[1], &monitors, &unlisted).is_err());
}

#[test]
fn effective_output_size_uses_compositor_dimensions() {
    assert_eq!(effective_output_size(&monitor(1, "headless-ci", 5120, 1600, 1000, "proto")).unwrap(), [1600, 1000]);
    let zero = effective_output_size(&monitor(1, "headless-ci", 0, 0, 1000, "proto")).unwrap_err();
    assert_eq!(zero.message(), "`hyprctl monitors` failed: output headless-ci reports zero width");
    let negative = effective_output_size(&monitor(1, "headless-ci", 0, 1600, -4, "proto")).unwrap_err();
    assert_eq!(negative.message(), "`hyprctl monitors` failed: output headless-ci reports invalid height -4");
}

#[test]
fn a_parked_floating_window_has_to_fit_its_output() {
    let output = monitor(1, "hyprpilot", 5120, 1600, 1000, "hyprpilot");
    assert_eq!(output_rect(&output).unwrap(), Rect { x: 5120, y: 0, w: 1600, h: 1000 });
    let mut window = client("0xabc", "App", "app", 7, "hyprpilot", [5130, 10]);
    assert!(placement_is_verified(&window, &output, "hyprpilot", Placement::Keep).unwrap(), "tiled is enough");
    window.floating = true;
    assert!(placement_is_verified(&window, &output, "hyprpilot", Placement::Keep).unwrap());
    window.at = [6000, 10];
    assert!(!placement_is_verified(&window, &output, "hyprpilot", Placement::MoveTo(5120, 10)).unwrap());
    window.at = [5120, 0];
    window.size = [2000, 900];
    assert!(placement_is_verified(&window, &output, "hyprpilot", Placement::Oversized(5120, 0)).unwrap());
    assert!(!placement_is_verified(&window, &output, "other", Placement::Keep).unwrap());
    let far = monitor(1, "hyprpilot", 1 << 40, 1600, 1000, "hyprpilot");
    assert!(placement_is_verified(&window, &far, "hyprpilot", Placement::Keep).is_err());
}

#[test]
fn target_layout_requires_only_the_active_window_visible() {
    let mut clients = matching_clients();
    clients.truncate(2);
    clients[0].workspace.name = "proto".to_owned();
    clients[0].monitor = 1;
    clients[1].workspace.name = "special:hyprpilot-parked".to_owned();
    clients[1].monitor = 1;
    let mut monitors = vec![monitor(0, "DP-3", 0, 5120, 1440, "1"), monitor(1, "headless-ci", 5120, 1600, 1000, "proto")];
    let mut session = sample_shared();
    session.output = "headless-ci".to_owned();
    session.active_workspace = "proto".to_owned();
    session.active_address.clone_from(&clients[0].address);
    session.primary_address.clone_from(&clients[0].address);
    session.windows = clients.iter().map(tracked_client).collect();

    assert!(target_layout_is_verified(&session, &clients, &monitors).unwrap());

    clients[1].workspace.name = "proto".to_owned();
    assert!(!target_layout_is_verified(&session, &clients, &monitors).unwrap());

    clients[1].workspace.name = "special:hyprpilot-parked".to_owned();
    monitors[0].special_workspace = "special:hyprpilot-parked".to_owned();
    assert!(!target_layout_is_verified(&session, &clients, &monitors).unwrap());

    monitors[0].special_workspace.clear();
    clients.pop();
    assert!(target_layout_is_verified(&session, &clients, &monitors).unwrap());

    clients.clear();
    assert!(matches!(target_layout_is_verified(&session, &clients, &monitors), Err(Error::WindowGone(_))));
}

#[test]
fn a_stray_workspace_is_moved_off_a_new_output() {
    let mut monitors = sweep_monitors();
    assert_eq!(stray_move(&monitors, "hyprpilot", "hyprpilot").unwrap(), None);
    monitors[1].active_workspace.name = "4".to_owned();
    assert_eq!(
        stray_move(&monitors, "hyprpilot", "hyprpilot").unwrap(),
        Some(("4".to_owned(), "DP-3".to_owned()))
    );
    let alone = vec![monitors[1].clone()];
    assert!(stray_move(&alone, "hyprpilot", "hyprpilot").is_err());
    assert!(stray_move(&monitors, "missing", "hyprpilot").is_err());

    let asked = std::cell::RefCell::new(Vec::new());
    let run = |argv: Vec<String>| -> Result<ProcessOutput, String> {
        asked.borrow_mut().push(argv);
        Ok(ProcessOutput { success: true, stdout: "ok".to_owned(), stderr: String::new() })
    };
    let reported = monitors.clone();
    let parse = move |_: String| -> Result<Vec<Monitor>, String> { Ok(reported.clone()) };
    let mut runners = vec![&run; 2];
    evacuate_stray_workspace(&mut runners, &parse, "hyprpilot", "hyprpilot").unwrap();
    assert!(runners.is_empty());
    assert_eq!(
        *asked.borrow(),
        vec![vec!["monitors", "-j"], vec!["dispatch", "moveworkspacetomonitor", "4", "DP-3"]]
    );
}

#[test]
fn a_shared_state_tracks_its_primary_window_exactly_once() {
    let mut shared = sample_shared();
    check_primary(&shared, "/s/session.json").unwrap();
    shared.primary_address = "0xnone".to_owned();
    let error = check_primary(&shared, "/s/session.json").unwrap_err().message();
    assert!(error.contains("primary_address must identify exactly one tracked window"), "{error}");
    let mut twice = sample_shared();
    let again = twice.windows[0].address.clone();
    twice.windows.push(TrackedWindow {
        address: again,
        title_at_adoption: "App".to_owned(),
        origin_workspace: "3".to_owned(),
        origin_at: [0, 0],
        origin_size: [1, 1],
        origin_floating: false,
        teardown: Disposition::Restore,
    });
    assert!(check_primary(&twice, "/s/session.json").is_err());
}

#[test]
fn shared_session_singleton_is_refused_under_any_other_name() {
    let header = |mode: Option<Mode>| Ok(Some((format!("/s/x/session.json"), SessionHeader { schema_version: Some(SCHEMA_VERSION), mode })));
    let names = vec!["alpha".to_owned(), "beta".to_owned(), "stale".to_owned(), "gamma".to_owned()];
    let read = |name: String| -> Result<Option<(String, SessionHeader)>, Error> {
        match name.as_str() {
            "alpha" => header(Some(Mode::Shared)),
            "beta" => header(Some(Mode::Isolated)),
            "stale" => Ok(None),
            _ => header(Some(Mode::Isolated)),
        }
    };
    assert_eq!(find_shared_session(&names, "beta", &read).unwrap(), Some("alpha".to_owned()));
    assert_eq!(find_shared_session(&names, "alpha", &read).unwrap(), None, "a session never refuses itself");
    let error = (Error::SharedSessionExists { name: "alpha".to_owned() }).message();
    assert!(error.contains("--session alpha teardown"), "{error}");
    assert!(error.contains("--isolated"), "{error}");

    let unversioned = |_: String| -> Result<Option<(String, SessionHeader)>, Error> {
        Ok(Some(("/s/old/session.json".to_owned(), SessionHeader { schema_version: Some(2), mode: Some(Mode::Shared) })))
    };
    let error = find_shared_session(&names, "beta", &unversioned).unwrap_err();
    assert!(matches!(error, Error::UnsupportedSessionVersion { found: Some(2), .. }), "{error:?}");
    let modeless = |_: String| -> Result<Option<(String, SessionHeader)>, Error> {
        Ok(Some(("/s/odd/session.json".to_owned(), SessionHeader { schema_version: Some(SCHEMA_VERSION), mode: None })))
    };
    let error = find_shared_session(&names, "beta", &modeless).unwrap_err().message();
    assert!(error.contains("missing mode"), "{error}");
}

#[test]
fn v2_state_reports_found_version_expected_version_and_exit_command() {
    let message = unsupported_version("/run/user/1000/hyprpilot/session.json", Some(2)).message();
    assert!(message.contains("schema version 2"), "{message}");
    assert!(message.contains("expects 3"), "{message}");
    assert!(message.contains("hyprpilot teardown"), "{message}");
    assert!(message.contains("no output was removed"), "{message}");
    assert!(message.contains("hyprpilot windows"), "{message}");
    let unversioned = unsupported_version("/x/session.json", None).message();
    assert!(unversioned.contains("unversioned"), "{unversioned}");
}

#[test]
fn only_the_current_schema_version_is_read() {
    assert!(hyprpilot::session::require_current_version("/run/s.json", Some(3)).is_ok());
    for found in [None, Some(2), Some(4)] {
        match hyprpilot::session::require_current_version("/run/s.json", found) {
            Err(hyprpilot::error::Error::UnsupportedSessionVersion { path, found: f }) => {
                assert_eq!(path, "/run/s.json");
                assert_eq!(f, found);
            }
            other => panic!("{other:?}"),
        }
    }
}
