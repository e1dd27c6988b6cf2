use hyprpilot::cli::{AgentEnvironment, DoctorProbe, agent_status, doctor, first_line, shared_status};
use hyprpilot::error::Error;
use hyprpilot::hypr::{ActiveWorkspace, Client, Devices, Keyboard, Monitor, WorkspaceRef};
use hyprpilot::isolated::LiveInstance;
use hyprpilot::session::{Disposition, Instance, Isolated, Mode, ModeState, SCHEMA_VERSION, Session, Shared, TrackedWindow};

fn client(address: &str, workspace: &str) -> Client {
    Client {
        address: address.to_owned(),
        at: [10, 20],
        size: [800, 600],
        workspace: WorkspaceRef { name: workspace.to_owned() },
        floating: false,
        monitor: 1,
        class: "org.app".to_owned(),
        initial_class: "org.app".to_owned(),
        title: format!("title of {address}"),
        initial_title: format!("title of {address}"),
        pid: 77,
    }
}

fn output(name: &str, width: i64, height: i64) -> Monitor {
    Monitor {
        id: 1,
        name: name.to_owned(),
        width,
        height,
        x: 0,
        y: 0,
        logical_width: width,
        logical_height: height,
        unit_scale: true,
        active_workspace: ActiveWorkspace { id: 5, name: "hyprpilot".to_owned() },
        special_workspace: String::new(),
    }
}

fn kept(address: &str) -> TrackedWindow {
    TrackedWindow {
        address: address.to_owned(),
        title_at_adoption: "App".to_owned(),
        origin_workspace: "3".to_owned(),
        origin_at: [0, 0],
        origin_size: [800, 600],
        origin_floating: false,
        teardown: Disposition::Restore,
    }
}

fn shared_session() -> Session {
    Session {
        schema_version: SCHEMA_VERSION,
        name: "default".to_owned(),
        state: ModeState::Shared(Shared {
            output: "hyprpilot".to_owned(),
            output_created: true,
            active_workspace: "hyprpilot".to_owned(),
            parking_workspace: "special:hyprpilot-parked".to_owned(),
            size: [1600, 1000],
            spawned_pid: Some(42),
            initial_user_focus: Some("0xdef".to_owned()),
            primary_address: "0xabc".to_owned(),
            active_address: "0xabc".to_owned(),
            windows: vec![kept("0xabc"), kept("0xbbb")],
        }),
    }
}

#[test]
fn shared_status_reports_the_active_window_parked_ones_and_the_size_drift() {
    let session = shared_session();
    let ModeState::Shared(state) = &session.state else { unreachable!() };
    let clients = vec![client("0xbbb", "special:hyprpilot-parked"), client("0xabc", "hyprpilot")];
    let out = output("hyprpilot", 1600, 900);
    let focused = client("0xuser", "1");
    let status = shared_status(&session, state, &clients, Some(&out), Some(&focused)).unwrap();
    assert_eq!(status.schema_version, SCHEMA_VERSION);
    assert_eq!(status.session, "default");
    assert_eq!(status.mode, Mode::Shared);
    assert_eq!(status.windows.len(), 2);
    assert_eq!(status.parked_windows, vec!["0xbbb".to_owned()]);
    assert_eq!(status.window.address, "0xabc");
    assert_eq!(status.effective_size, Some([1600, 900]));
    assert_eq!(status.size_mismatch, Some(true));
    assert_eq!(status.user_active_window.map(|c| c.address.as_str()), Some("0xuser"));
    assert_eq!(status.initial_user_focus, Some("0xdef"));
    assert!(!status.attached);
    assert_eq!(status.spawned_pid, Some(42));

    let without_output = shared_status(&session, state, &clients, None, None).unwrap();
    assert_eq!(without_output.effective_size, None);
    assert_eq!(without_output.size_mismatch, None);

    let gone = shared_status(&session, state, &clients[..1], None, None).unwrap_err();
    assert!(matches!(gone, Error::WindowGone(ref a) if a == "0xabc"), "{gone:?}");
}

#[test]
fn agent_status_reads_the_geometry_inside_the_instance() {
    let session = Session {
        schema_version: SCHEMA_VERSION,
        name: "work".to_owned(),
        state: ModeState::Isolated(Isolated {
            output: "hyprpilot-work".to_owned(),
            workspace: "agent-work".to_owned(),
            size: [1920, 1080],
            instance_nonce: "n".to_owned(),
            shown: true,
            active_address: Some("0xin".to_owned()),
            instance: Instance::Pending,
            host: Vec::new(),
        }),
    };
    let ModeState::Isolated(isolated) = &session.state else { unreachable!() };
    let live = LiveInstance { signature: "sig_1", wayland_display: "wayland-2", pid: 4242, console: "0xc0ff33" };
    let outputs = vec![output("HEADLESS-1", 1920, 1080)];
    let clients = vec![client("0xother", "1"), client("0xin", "1")];
    let host = output("hyprpilot-work", 1920, 1080);
    let status = agent_status(&session, isolated, live, &outputs, &clients, Some(&host));
    assert_eq!(status.mode, Mode::Isolated);
    assert_eq!(status.workspace, "agent-work");
    assert!(status.shown);
    assert_eq!(status.instance.pid, 4242);
    assert_eq!(status.active_address, Some("0xin"));
    assert_eq!(status.effective_size, Some([1920, 1080]));
    assert_eq!(status.size_mismatch, Some(false));
    assert_eq!(status.window.map(|c| c.address.as_str()), Some("0xin"));
    assert_eq!(status.agent_output.map(|m| m.name.as_str()), Some("HEADLESS-1"));
    assert_eq!(status.output.map(|m| m.name.as_str()), Some("hyprpilot-work"));

    let empty = agent_status(&session, isolated, live, &[], &[], None);
    assert!(empty.window.is_none());
    assert!(empty.agent_output.is_none());
    assert_eq!(empty.size_mismatch, None);
}

fn keyboard(layout: &str, main: bool) -> Keyboard {
    Keyboard {
        rules: String::new(),
        model: String::new(),
        layout: layout.to_owned(),
        variant: String::new(),
        options: String::new(),
        active_keymap: format!("{layout} keymap"),
        main,
    }
}

fn healthy() -> DoctorProbe {
    DoctorProbe {
        version: Ok("Hyprland 0.56.0 built from branch main\nTag: v0.56.0\n".to_owned()),
        signature_set: true,
        grim: true,
        runtime_dir: Ok(("/run/user/1000/hyprpilot".to_owned(), true)),
        agent: Ok(AgentEnvironment {
            binary: true,
            sessions_dir: "/run/user/1000/hyprpilot/sessions".to_owned(),
            sessions_writable: true,
            instances_dir: "/run/user/1000/hypr".to_owned(),
            instances_listable: true,
            host_socket: Some(true),
        }),
        host_leaks: Vec::new(),
        virtual_pointer: Ok(true),
        devices: Ok(Devices { keyboards: vec![keyboard("us", false), keyboard("fr", true)] }),
    }
}

#[test]
fn a_healthy_machine_passes_doctor_line_by_line() {
    let report = doctor(healthy()).unwrap();
    let lines: Vec<&str> = report.lines().collect();
    assert_eq!(lines[0], "ok    Hyprland 0.56.0 built from branch main");
    assert_eq!(lines[1], "ok    HYPRLAND_INSTANCE_SIGNATURE is set");
    assert_eq!(lines[2], "ok    grim found on PATH");
    assert_eq!(lines[3], "ok    /run/user/1000/hyprpilot is writable");
    assert!(lines[5].starts_with("ok    Hyprland 0.56.0 is the version"), "{report}");
    assert_eq!(lines.len(), 12, "{report}");
    assert_eq!(lines[9], "ok    zwlr_virtual_pointer_manager_v1 is available");
    assert!(lines[10].starts_with("info  the virtual pointer probe above"), "{report}");
    assert!(lines[11].starts_with("info  main keyboard layout `fr` (active keymap `fr keymap`)"), "{report}");
}

#[test]
fn every_failed_check_is_counted_and_warnings_never_fail() {
    let mut probe = healthy();
    probe.version = Err("hyprctl not found".to_owned());
    probe.grim = false;
    probe.virtual_pointer = Ok(false);
    probe.devices = Err("no reply".to_owned());
    probe.host_leaks = vec!["monitor hyprpilot-a".to_owned(), "workspace agent-a".to_owned()];
    match doctor(probe) {
        Err(Error::DoctorFailed { report, failures }) => {
            assert_eq!(failures, 4, "{report}");
            assert!(report.starts_with("FAIL  hyprctl: hyprctl not found\n"), "{report}");
            assert!(report.contains("FAIL  grim not found on PATH — install grim for captures"), "{report}");
            assert!(report.contains("warn  no version number in `hyprctl version`"), "{report}");
            assert!(report.contains("info  2 host rule(s) posed by hyprpilot sessions"), "{report}");
            assert!(report.contains(": monitor hyprpilot-a, workspace agent-a"), "{report}");
            assert!(report.ends_with("FAIL  hyprctl devices: no reply"), "{report}");
        }
        other => panic!("unexpected {other:?}"),
    }
    let mut old = healthy();
    old.version = Ok("Hyprland 0.49.1".to_owned());
    let report = doctor(old).unwrap();
    assert!(report.contains("warn  Hyprland 0.49.1: agent desktops were validated on 0.56"), "{report}");
}

#[test]
fn the_first_line_of_a_reply_is_what_str_lines_yields() {
    assert_eq!(first_line("Hyprland 0.56.0\nTag"), "Hyprland 0.56.0");
    assert_eq!(first_line("crlf\r\nnext"), "crlf");
    assert_eq!(first_line("single"), "single");
    assert_eq!(first_line(""), "unknown");
    assert_eq!(first_line("\nsecond"), "");
}
