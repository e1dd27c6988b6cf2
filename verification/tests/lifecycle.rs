use std::cell::RefCell;

use hyprpilot::error::Error;
use hyprpilot::hypr::{Client, ProcessOutput, WorkspaceRef};
use hyprpilot::session::{
    Criteria, Disposition, LegacyAction, LegacySession, ModeState, SCHEMA_VERSION, Shared, TargetMode,
    TrackedWindow, WindowAction, adopt, gone_note, kept_output_note, legacy_action, missing_window,
    require_match_criteria, require_target_selector, restore_window, retarget, shared_session,
    started_message, stray_windows, target_message, target_retry, teardown_done, teardown_note,
};

fn window(address: &str, title: &str, workspace: &str, floating: bool) -> Client {
    Client {
        address: address.to_owned(),
        at: [120, 80],
        size: [900, 600],
        workspace: WorkspaceRef { name: workspace.to_owned() },
        floating,
        monitor: 0,
        class: "org.app".to_owned(),
        initial_class: "org.app".to_owned(),
        title: title.to_owned(),
        initial_title: title.to_owned(),
        pid: 7,
    }
}

fn kept(address: &str, workspace: &str, floating: bool) -> TrackedWindow {
    TrackedWindow {
        address: address.to_owned(),
        title_at_adoption: "App".to_owned(),
        origin_workspace: workspace.to_owned(),
        origin_at: [120, -80],
        origin_size: [900, 600],
        origin_floating: floating,
        teardown: Disposition::Restore,
    }
}

fn shared_with(windows: Vec<TrackedWindow>, active: &str) -> Shared {
    Shared {
        output: "hyprpilot".to_owned(),
        output_created: true,
        active_workspace: "hyprpilot".to_owned(),
        parking_workspace: "special:hyprpilot-parked".to_owned(),
        size: [1600, 1000],
        spawned_pid: None,
        initial_user_focus: None,
        primary_address: "0xabc".to_owned(),
        active_address: active.to_owned(),
        windows,
    }
}

fn criteria_title(title: &'static str) -> Criteria<'static> {
    Criteria { address: None, title: Some(title), class: None, pid: None }
}

#[test]
fn a_shared_start_needs_a_title_or_a_class() {
    let error = require_match_criteria(None, None).unwrap_err();
    match error {
        Error::Invalid { what, value, hint } => {
            assert_eq!(what, "match criteria");
            assert_eq!(value, "(none)");
            assert_eq!(hint, "pass --match-title and/or --match-class");
        }
        other => panic!("unexpected {other:?}"),
    }
    assert!(require_match_criteria(Some("Editor"), None).is_ok());
    assert!(require_match_criteria(None, Some("org.app")).is_ok());
}

#[test]
fn a_launched_window_is_closed_on_teardown_and_a_found_one_restored() {
    let found = window("0xabc", "Editor", "3", true);
    let session = shared_session("default", &found, None, true, (1600, 1000), Some("0xdef".to_owned()));
    assert_eq!(session.schema_version, SCHEMA_VERSION);
    assert_eq!(session.name, "default");
    let ModeState::Shared(state) = &session.state else { panic!("a shared start made another mode") };
    assert_eq!(state.output, "hyprpilot");
    assert_eq!(state.active_workspace, "hyprpilot");
    assert_eq!(state.parking_workspace, "special:hyprpilot-parked");
    assert_eq!(state.size, [1600, 1000]);
    assert_eq!(state.primary_address, "0xabc");
    assert_eq!(state.active_address, "0xabc");
    assert_eq!(state.initial_user_focus.as_deref(), Some("0xdef"));
    assert_eq!(state.windows.len(), 1);
    assert_eq!(state.windows[0].teardown, Disposition::Restore);
    assert_eq!(state.windows[0].origin_workspace, "3");
    assert_eq!(state.windows[0].origin_at, [120, 80]);
    assert!(state.windows[0].origin_floating);

    let launched = shared_session("work", &found, Some(99), false, (800, 600), None);
    let ModeState::Shared(state) = &launched.state else { panic!("a shared start made another mode") };
    assert_eq!(state.windows[0].teardown, Disposition::Close);
    assert_eq!(state.spawned_pid, Some(99));
    assert!(!state.output_created);
}

#[test]
fn a_shared_start_reports_the_parked_window() {
    let found = window("0xabc", "Editor", "3", false);
    assert_eq!(
        started_message("default", &found, 1600, 1000),
        "session `default` ready — window 0xabc (`Editor`) parked on output hyprpilot (1600x1000), workspace hyprpilot"
    );
}

#[test]
fn a_missing_window_says_what_to_do_next() {
    let criteria = criteria_title("Editor");
    match missing_window(&criteria, None) {
        Error::WindowNotFound(text) => {
            assert!(text.ends_with(" — pass --app to launch it"), "{text}");
            assert!(text.contains("Editor"), "{text}");
        }
        other => panic!("unexpected {other:?}"),
    }
    match missing_window(&criteria, Some("editor --new")) {
        Error::WindowNotFound(text) => {
            assert!(text.ends_with(" after launching `editor --new` (15s timeout) — process killed"), "{text}")
        }
        other => panic!("unexpected {other:?}"),
    }
}

#[test]
fn target_needs_a_selector_and_waits_only_when_asked() {
    let none = Criteria { address: None, title: None, class: None, pid: None };
    let error = require_target_selector(&none, false).unwrap_err();
    assert!(matches!(error, Error::Invalid { ref what, .. } if what == "target selector"), "{error:?}");
    assert!(require_target_selector(&none, true).is_ok());
    assert!(require_target_selector(&criteria_title("x"), false).is_ok());

    let criteria = criteria_title("Editor");
    assert!(matches!(target_retry(&criteria, false, None, 0), Err(Error::WindowNotFound(_))));
    assert_eq!(target_retry(&criteria, false, Some(1000), 100).unwrap(), 200);
    assert_eq!(target_retry(&criteria, false, Some(1000), 900).unwrap(), 100);
    match target_retry(&criteria, false, Some(1000), 1000) {
        Err(Error::Timeout { what, after_ms }) => {
            assert!(what.starts_with("a window matching "), "{what}");
            assert_eq!(after_ms, 1000);
        }
        other => panic!("unexpected {other:?}"),
    }
}

#[test]
fn adoption_records_the_window_and_switching_keeps_the_list() {
    let mut state = shared_with(vec![kept("0xabc", "3", false)], "0xabc");
    let new = window("0xnew", "Other", "5", true);
    retarget(&mut state, &new, TargetMode::Adopt, Disposition::Close);
    assert_eq!(state.windows.len(), 2);
    assert_eq!(state.windows[1].address, "0xnew");
    assert_eq!(state.windows[1].teardown, Disposition::Close);
    assert_eq!(state.active_address, "0xnew");
    let back = window("0xabc", "App", "hyprpilot", false);
    retarget(&mut state, &back, TargetMode::Switch, Disposition::Restore);
    assert_eq!(state.windows.len(), 2);
    assert_eq!(state.active_address, "0xabc");
    assert_eq!(target_message(TargetMode::Adopt, &new), "target active — adopted window 0xnew (`Other`)");
    assert_eq!(target_message(TargetMode::Switch, &back), "target active — switched to window 0xabc (`App`)");
}

#[test]
fn only_visible_tracked_windows_other_than_the_target_are_parked() {
    let state = shared_with(
        vec![kept("0xa", "1", false), kept("0xb", "2", false), kept("0xc", "3", false), kept("0xd", "4", false)],
        "0xa",
    );
    let clients = vec![
        window("0xa", "A", "hyprpilot", false),
        window("0xb", "B", "special:hyprpilot-parked", false),
        window("0xc", "C", "hyprpilot", false),
    ];
    assert_eq!(stray_windows(&state, &clients), vec!["0xc".to_owned()]);
}

#[test]
fn restoring_a_floating_window_moves_it_then_puts_back_its_geometry() {
    let asked = RefCell::new(Vec::new());
    let run = |argv: Vec<String>| -> Result<ProcessOutput, String> {
        asked.borrow_mut().push(argv);
        Ok(ProcessOutput { success: true, stdout: "ok".to_owned(), stderr: String::new() })
    };
    restore_window(&mut vec![&run; 3], &kept("0xabc", "3", true)).unwrap();
    assert_eq!(
        *asked.borrow(),
        vec![
            vec!["dispatch", "movetoworkspacesilent", "3,address:0xabc"],
            vec!["dispatch", "movewindowpixel", "exact 120 -80,address:0xabc"],
            vec!["dispatch", "resizewindowpixel", "exact 900 600,address:0xabc"],
        ]
    );
    asked.borrow_mut().clear();
    let mut runners = vec![&run; 3];
    restore_window(&mut runners, &kept("0xdef", "web", false)).unwrap();
    assert_eq!(runners.len(), 2, "a tiled window is only moved");
    assert_eq!(*asked.borrow(), vec![vec!["dispatch", "movetoworkspacesilent", "name:web,address:0xdef"]]);

    let refused = |argv: Vec<String>| -> Result<ProcessOutput, String> {
        asked.borrow_mut().push(argv);
        Ok(ProcessOutput { success: true, stdout: "no such window".to_owned(), stderr: String::new() })
    };
    asked.borrow_mut().clear();
    assert!(restore_window(&mut vec![&refused; 3], &kept("0xabc", "3", true)).is_err());
    assert_eq!(asked.borrow().len(), 1, "geometry is only imposed after the move succeeded");
}

#[test]
fn teardown_notes_name_each_window_and_the_kept_output() {
    let w = kept("0xabc", "3", false);
    assert_eq!(teardown_note(&w, WindowAction::Restore), "restored window 0xabc to workspace 3");
    assert_eq!(teardown_note(&w, WindowAction::Close), "closed window 0xabc");
    assert_eq!(teardown_note(&w, WindowAction::Kill(42)), "killed spawned process group 42");
    assert_eq!(gone_note("0xabc"), "window 0xabc already gone");
    assert_eq!(kept_output_note("HDMI-A-1"), "output HDMI-A-1 pre-existed — left in place");
    let notes = vec!["closed window 0xabc".to_owned(), "session state cleared".to_owned()];
    assert_eq!(teardown_done(&notes), "teardown done — closed window 0xabc, session state cleared");
}

#[test]
fn a_legacy_window_is_killed_closed_or_moved_back() {
    let legacy = |spawned_pid: Option<u32>, origin: Option<&str>| LegacySession {
        window_address: "0xabc".to_owned(),
        output: "hyprpilot".to_owned(),
        output_created: true,
        origin_workspace: origin.map(str::to_owned),
        spawned_pid,
    };
    assert_eq!(legacy_action(&legacy(Some(9), None), true, false).unwrap(), LegacyAction::Kill(9));
    assert_eq!(legacy_action(&legacy(Some(9), None), false, false).unwrap(), LegacyAction::Close);
    assert_eq!(legacy_action(&legacy(None, None), false, true).unwrap(), LegacyAction::Close);
    assert_eq!(legacy_action(&legacy(None, Some("4")), false, false).unwrap(), LegacyAction::Move("4".to_owned()));
    assert_eq!(legacy_action(&legacy(None, None), false, false).unwrap(), LegacyAction::Move("1".to_owned()));
    assert!(legacy_action(&legacy(None, None), true, false).is_err());
    assert!(legacy_action(&legacy(Some(9), None), false, true).is_err());
}

#[test]
fn adopting_keeps_where_the_window_came_from() {
    let w = adopt(&window("0xabc", "Editor", "7", true), Disposition::Close);
    assert_eq!(w.address, "0xabc");
    assert_eq!(w.title_at_adoption, "Editor");
    assert_eq!(w.origin_workspace, "7");
    assert_eq!(w.origin_size, [900, 600]);
    assert!(w.origin_floating);
    assert_eq!(w.teardown, Disposition::Close);
}
