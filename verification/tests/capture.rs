use hyprpilot::capture::{
    Blocked, Bounded, Frame, Image, Ran, Stability, WaitMode, capture_escalation, crop_geometry, grim_label,
    wait_observe, wait_timeout,
    ensure_capture_visible, grim_verdict, next_shot_name, output_dir, parse_shot_name, read_png,
    scratch_paths, shot_file_name, shot_target_name, bounded_step,
};
use hyprpilot::error::Error;
use hyprpilot::hypr::{ActiveWorkspace, Client, Monitor, ProcessOutput};
use hyprpilot::isolated::{AgentCapture, frozen_reason};
use hyprpilot::session::{Escalation, Instance, Isolated};

fn monitor(x: i64, y: i64, width: i64, height: i64) -> Monitor {
    Monitor {
        id: 1,
        name: "headless-ci".to_owned(),
        width,
        height,
        x,
        y,
        logical_width: width,
        logical_height: height,
        unit_scale: true,
        active_workspace: ActiveWorkspace { id: -1, name: "proto".to_owned() },
        special_workspace: String::new(),
    }
}

fn png_bytes(width: u32, height: u32, data: &[u8]) -> Vec<u8> {
    let mut out = Vec::new();
    {
        let mut encoder = png::Encoder::new(&mut out, width, height);
        encoder.set_color(png::ColorType::Rgb);
        encoder.set_depth(png::BitDepth::Eight);
        let mut writer = encoder.write_header().unwrap();
        writer.write_image_data(data).unwrap();
    }
    out
}

fn decoded(bytes: Vec<u8>) -> Result<Image, Error> {
    read_png("/tmp/frame.png", move |_: String| -> Result<Vec<u8>, String> { Ok(bytes) })
}

fn no_run(_: Vec<String>) -> Result<ProcessOutput, String> {
    Err("no compositor may be asked".to_owned())
}

fn no_monitors(_: String) -> Result<Vec<Monitor>, String> {
    Err("unused".to_owned())
}

fn no_clients(_: String) -> Result<Vec<Client>, String> {
    Err("unused".to_owned())
}

#[test]
fn crop_geometry_matches_window_inside_output() -> Result<(), Error> {
    let monitor = monitor(5120, 0, 1600, 1000);
    let geometry = crop_geometry([5122, 28], [1596, 970], &monitor)?;
    assert_eq!(geometry, "5122,28 1596x970");
    Ok(())
}

#[test]
fn crop_geometry_clamps_overflow_to_output() -> Result<(), Error> {
    let monitor = monitor(5120, 0, 1600, 1000);
    let geometry = crop_geometry([5000, -50], [2000, 3000], &monitor)?;
    assert_eq!(geometry, "5120,0 1600x1000");
    Ok(())
}

#[test]
fn crop_geometry_rejects_disjoint_window() {
    let monitor = monitor(5120, 0, 1600, 1000);
    let message = match crop_geometry([0, 0], [100, 100], &monitor) {
        Err(error) => error.message(),
        Ok(geometry) => panic!("a disjoint window was cropped to {geometry}"),
    };
    assert_eq!(
        message,
        "invalid capture geometry `window at [0, 0] size [100, 100]` — window does not intersect output headless-ci"
    );
}

#[test]
fn png_round_trip_and_diff() -> Result<(), Error> {
    let mut pixels = vec![0u8; 4 * 4 * 3];
    let a = decoded(png_bytes(4, 4, &pixels))?;
    let b = decoded(png_bytes(4, 4, &pixels))?;
    pixels[0] = 255;
    let c = decoded(png_bytes(4, 4, &pixels))?;
    assert_eq!(a.width, 4);
    assert_eq!(a.height, 4);
    assert_eq!(a.data.len(), 48);
    assert_eq!(c.data[0], 255);
    assert!(a.identical(&b), "same pixels must compare identical");
    assert!(!a.identical(&c), "one changed pixel must be detected");
    Ok(())
}

#[test]
fn an_unreadable_or_undecodable_png_names_the_file() {
    let error = match read_png("/tmp/gone.png", |path: String| -> Result<Vec<u8>, String> {
        assert_eq!(path, "/tmp/gone.png");
        Err("No such file or directory (os error 2)".to_owned())
    }) {
        Err(error) => error.message(),
        Ok(image) => panic!("{image:?}"),
    };
    assert_eq!(error, "reading PNG /tmp/gone.png: No such file or directory (os error 2)");
    assert!(matches!(decoded(b"not a png".to_vec()), Err(Error::Png { .. })));
}

#[test]
fn images_with_different_dimensions_differ() {
    let a = Image {
        width: 2,
        height: 2,
        data: vec![0; 12],
    };
    let b = Image {
        width: 4,
        height: 1,
        data: vec![0; 12],
    };
    assert!(!a.identical(&b));
}

#[test]
fn captures_and_scratch_files_are_per_session() {
    let alpha = "/run/user/1000/hyprpilot/sessions/alpha";
    let beta = "/run/user/1000/hyprpilot/sessions/beta";

    assert_eq!(output_dir(alpha, None), format!("{alpha}/shots"));
    let out = "/tmp/hyprpilot-shots";
    assert_eq!(output_dir(alpha, Some(out)), out);

    assert_eq!(
        scratch_paths(alpha),
        [format!("{alpha}/wait-a.png"), format!("{alpha}/wait-b.png")]
    );
    assert_ne!(scratch_paths(alpha), scratch_paths(beta));
    assert_ne!(output_dir(alpha, None), output_dir(beta, None));
}

#[test]
fn stability_only_compares_captures_framed_the_same_way() {
    let image = |byte: u8| Image {
        width: 2,
        height: 1,
        data: vec![byte, byte, byte, 255, byte, byte, byte, 255],
    };
    let crop = |geometry: &str| Some(geometry.to_owned());
    let mut stability = Stability::new();

    assert!(!stability.observe(crop("0,0 800x600"), image(1)));
    assert!(stability.observe(crop("0,0 800x600"), image(1)));

    let mut settling = Stability::new();
    assert!(!settling.observe(crop("0,0 800x600"), image(1)));
    assert!(!settling.observe(crop("10,10 800x600"), image(1)));
    assert!(!settling.observe(crop("10,10 820x600"), image(1)));
    assert!(settling.observe(crop("10,10 820x600"), image(1)));

    let mut animating = Stability::new();
    assert!(!animating.observe(crop("0,0 800x600"), image(1)));
    assert!(!animating.observe(crop("0,0 800x600"), image(2)));
    assert!(animating.observe(crop("0,0 800x600"), image(2)));
}

#[test]
fn a_capture_timeout_names_the_kill_and_the_broken_invariant() {
    let error = Error::CaptureTimeout {
        command: "grim -g 0,0 1280x720 /run/user/1000/hyprpilot/sessions/alpha/shots/a.png"
            .to_owned(),
        after_ms: 7000,
        signal: "KILL".to_owned(),
        diagnosis: frozen_reason(
            "alpha",
            "hyprpilot-alpha",
            "agent-alpha",
            "workspace 3 is active on hyprpilot-alpha, not agent-alpha",
        ),
    }
    .message();

    assert!(error.contains("produced no frame within 7000ms"), "{error}");
    assert!(error.contains("SIGKILL"), "{error}");
    assert!(error.contains("frame callbacks"), "{error}");
    assert!(error.contains("grim -o hyprpilot-alpha"), "{error}");
}

#[test]
fn a_blocked_shared_capture_points_at_its_own_output() {
    let diagnosis = Blocked::Host {
        output: "hyprpilot".to_owned(),
    }
    .diagnose(&mut vec![&no_run; 2], &no_monitors, &no_clients);

    assert!(diagnosis.contains("output hyprpilot"), "{diagnosis}");
    assert!(diagnosis.contains("screencopy"), "{diagnosis}");
}

#[test]
fn a_blocked_hidden_agent_capture_reads_the_host_monitors_and_nothing_else() {
    let issued = std::cell::RefCell::new(Vec::new());
    let runner = |argv: Vec<String>| -> Result<ProcessOutput, String> {
        issued.borrow_mut().push(argv);
        Ok(ProcessOutput { success: true, stdout: "[]".to_owned(), stderr: String::new() })
    };
    let mut pool = vec![&runner; 2];
    let diagnosis = Blocked::Agent {
        session: "alpha".to_owned(),
        host_output: "hyprpilot-alpha".to_owned(),
        workspace: "agent-alpha".to_owned(),
        shown_console: None,
    }
    .diagnose(&mut pool, &|_: String| -> Result<Vec<Monitor>, String> { Ok(Vec::new()) }, &no_clients);
    assert_eq!(pool.len(), 1, "one read, the clients untouched");
    assert_eq!(*issued.borrow(), vec![vec!["monitors".to_owned(), "-j".to_owned()]]);
    assert!(diagnosis.contains("agent-alpha"), "{diagnosis}");
}

#[test]
fn capture_refuses_visible_special_workspace() {
    let mut monitor = monitor(5120, 0, 1600, 1000);
    monitor.active_workspace.name = "proto".to_owned();
    monitor.special_workspace = "special:hyprpilot-parked".to_owned();

    let error = match ensure_capture_visible("proto", &monitor) {
        Err(error) => error.message(),
        Ok(()) => panic!("visible special workspace unexpectedly accepted"),
    };
    assert!(error.contains("special workspace"));
    assert!(error.contains("captures would hide"));

    monitor.special_workspace.clear();
    assert!(ensure_capture_visible("proto", &monitor).is_ok());
    let error = match ensure_capture_visible("other", &monitor) {
        Err(error) => error.message(),
        Ok(()) => panic!("an inactive workspace was accepted"),
    };
    assert!(error.contains("is not active on output headless-ci (active: proto)"), "{error}");
}

#[test]
fn a_capture_that_returns_is_left_alone() {
    let ladder = Escalation { polite: 60, term: 60, kill: 60, poll: 5 };
    assert_eq!(bounded_step(ladder, None, Some(true), 10), Bounded::Exited);
    assert_eq!(bounded_step(ladder, None, Some(false), 10), Bounded::Exited);
    assert!(grim_verdict("grim".to_owned(), Ran::Exited { success: true, stderr: String::new() }, String::new()).is_ok());
    let error = match grim_verdict(
        "grim".to_owned(),
        Ran::Exited { success: false, stderr: "no wl_output\n".to_owned() },
        String::new(),
    ) {
        Err(error) => error.message(),
        Ok(()) => panic!("a failing process was reported as a frame"),
    };
    assert_eq!(error, "`grim` failed: no wl_output");
}

#[test]
fn a_blocked_capture_is_terminated_at_its_deadline() {
    let ladder = Escalation { polite: 60, term: 60, kill: 60, poll: 5 };
    assert_eq!(bounded_step(ladder, None, None, 59), Bounded::Wait);
    assert_eq!(bounded_step(ladder, None, None, 60), Bounded::Signal("TERM"));
    assert_eq!(bounded_step(ladder, Some("TERM"), None, 70), Bounded::Wait);
    assert_eq!(bounded_step(ladder, Some("TERM"), Some(false), 75), Bounded::Killed("TERM"));
    assert_eq!(bounded_step(ladder, Some("TERM"), Some(true), 75), Bounded::Exited);
}

#[test]
fn a_capture_that_ignores_sigterm_is_killed() {
    let ladder = Escalation { polite: 60, term: 60, kill: 60, poll: 5 };
    assert_eq!(bounded_step(ladder, Some("TERM"), None, 120), Bounded::Signal("KILL"));
    assert_eq!(bounded_step(ladder, Some("KILL"), None, 150), Bounded::Wait);
    assert_eq!(bounded_step(ladder, Some("KILL"), None, 180), Bounded::Killed("KILL"));
    let error = match grim_verdict(
        "grim -o hyprpilot".to_owned(),
        Ran::Killed { signal: "KILL", after_ms: 7000 },
        "the host stopped compositing".to_owned(),
    ) {
        Err(error) => error,
        Ok(()) => panic!("a killed capture was reported as a frame"),
    };
    assert!(matches!(&error, Error::CaptureTimeout { signal, after_ms: 7000, .. } if signal == "KILL"));
    assert_eq!(
        error.message(),
        "`grim -o hyprpilot` produced no frame within 7000ms and was stopped with SIGKILL: the host stopped compositing"
    );
}

#[test]
fn the_capture_deadline_ladder() {
    let ladder = capture_escalation();
    assert_eq!(ladder.polite, 5000);
    assert!(ladder.term > 0 && ladder.kill > 0);
}

#[test]
fn shots_are_numbered_after_the_highest_existing_one() {
    assert_eq!(parse_shot_name("shot-0007.png"), Some(7));
    assert_eq!(parse_shot_name("shot-.png"), None);
    assert_eq!(parse_shot_name("other.png"), None);
    let names = vec![
        "shot-0002.png".to_owned(),
        "notes.txt".to_owned(),
        "shot-0010.png".to_owned(),
        "shot-0003.png".to_owned(),
    ];
    assert_eq!(next_shot_name(&names), 11);
    assert_eq!(next_shot_name(&Vec::new()), 1);
    assert_eq!(shot_file_name(11), "shot-0011.png");
    assert_eq!(shot_file_name(123456), "shot-123456.png");
    assert_eq!(shot_target_name(None, 11), "shot-0011.png");
    assert_eq!(shot_target_name(Some("login"), 11), "login.png");
    assert_eq!(shot_target_name(Some("login.PNG"), 11), "login.PNG");
    assert_eq!(shot_target_name(Some("login.jpg"), 11), "login.jpg.png");
}

fn agent_state(shown: bool) -> Isolated {
    Isolated {
        output: "hyprpilot-work".to_owned(),
        workspace: "agent-work".to_owned(),
        size: [1600, 1000],
        instance_nonce: "n".to_owned(),
        shown,
        active_address: Some("0xin".to_owned()),
        instance: Instance::Pending,
        host: Vec::new(),
    }
}

fn agent_target() -> AgentCapture {
    AgentCapture {
        wayland_display: "wayland-2".to_owned(),
        window: Client {
            address: "0xin".to_owned(),
            at: [10, 20],
            size: [300, 200],
            workspace: hyprpilot::hypr::WorkspaceRef { name: "1".to_owned() },
            floating: false,
            monitor: 0,
            class: "app".to_owned(),
            initial_class: "app".to_owned(),
            title: "App".to_owned(),
            initial_title: "App".to_owned(),
            pid: 3,
        },
        monitor: monitor(0, 0, 1600, 1000),
        console: "0xc0ff33".to_owned(),
    }
}

#[test]
fn an_agent_frame_captures_through_the_nested_socket() -> Result<(), Error> {
    let frame = Frame::agent("work", &agent_state(false), false, agent_target())?;
    assert_eq!(frame.display.as_deref(), Some("wayland-2"));
    assert_eq!(frame.geometry.as_deref(), Some("10,20 300x200"));
    assert_eq!(frame.grim_args("/tmp/shot.png"), vec!["-g", "10,20 300x200", "/tmp/shot.png"]);
    match &frame.blocked {
        Blocked::Agent { session, host_output, workspace, shown_console } => {
            assert_eq!(session, "work");
            assert_eq!(host_output, "hyprpilot-work");
            assert_eq!(workspace, "agent-work");
            assert!(shown_console.is_none());
        }
        other => panic!("unexpected {other:?}"),
    }
    let full = Frame::agent("work", &agent_state(true), true, agent_target())?;
    assert!(full.geometry.is_none());
    let args = full.grim_args("/tmp/full.png");
    assert_eq!(args, vec!["-o", "headless-ci", "/tmp/full.png"]);
    assert_eq!(grim_label(&args), "grim -o headless-ci /tmp/full.png");
    assert!(matches!(&full.blocked, Blocked::Agent { shown_console: Some(c), .. } if c == "0xc0ff33"));
    Ok(())
}

#[test]
fn a_wait_that_runs_out_names_what_it_waited_for() {
    match wait_timeout(&WaitMode::Stable, 5000) {
        Error::Timeout { what, after_ms } => {
            assert_eq!(what, "a stable frame");
            assert_eq!(after_ms, 5000);
        }
        other => panic!("unexpected {other:?}"),
    }
    match wait_timeout(&WaitMode::ChangedFrom("/tmp/ref.png".to_owned()), 10) {
        Error::Timeout { what, .. } => assert_eq!(what, "a change from /tmp/ref.png"),
        other => panic!("unexpected {other:?}"),
    }
}

fn image(byte: u8) -> Image {
    Image { width: 1, height: 1, data: vec![byte, byte, byte, 255] }
}

#[test]
fn a_wait_ends_on_the_second_identical_frame_or_the_first_change() {
    let mut stability = Stability::new();
    assert_eq!(wait_observe(None, &mut stability, Some("g".to_owned()), image(1), 1, 0), None);
    assert_eq!(
        wait_observe(None, &mut stability, Some("g".to_owned()), image(1), 2, 300),
        Some("stable after 300ms (2 capture(s))".to_owned())
    );
    let mut stability = Stability::new();
    let reference = image(1);
    assert_eq!(wait_observe(Some(&reference), &mut stability, None, image(1), 1, 0), None);
    assert_eq!(
        wait_observe(Some(&reference), &mut stability, None, image(2), 2, 150),
        Some("changed after 150ms (2 capture(s))".to_owned())
    );
}
