use std::cell::{Cell, RefCell};

use hyprpilot::error::Error;
use hyprpilot::hypr::{
    ActiveWorkspace, Client, Devices, FocusedWorkspace, InstanceInfo, Keyboard, Monitor,
    ProcessOutput, WorkspaceRef,
};
use hyprpilot::isolated::{
    AGENT_SESSION_ENV, Compositor, Console, ConsoleWant, ExitAction, FrameSite, HostSnapshot,
    Keymap, Marker, Registered, SweepAction, SweepState, TeardownPlan, Visibility,
    active_workspaces, capturable, capture_target, console_reaped, console_settled, deviation,
    ensure_output_absent, exit_step, frame_site, frames_reason, frozen_reason, instance_dir,
    instance_match, instance_signature, keymap_of, live_instance, marked_instance, nested_config,
    output_is_configured, output_vacated, plain_signature, recorded_window, refuse_disposition,
    refuse_untracked, refuse_when_nested, rename_allowed, renameable, select_console, shell_path,
    shown_where_the_user_looks, signal_note, spawn_command, sweep_step, teardown_plan,
    user_workspace, visibility, workspace_occupants, environ_carries_marker, marked_pids,
    LiveInstance, initial_payload, launched_window, ready_message, require_app, rolled_back,
    unreaped_console, already_shown_message, console_size_warning, focus_observation, headless_origin_in,
    hidden_message, hide_steps, exit_escalation, agent_target_message, host_console_in, last_observed, record_visibility, show_steps, shown_message,
};
use hyprpilot::session::{Criteria, Disposition, Escalation, Instance, Isolated};
use hyprpilot::isolated::{TeardownAction, TeardownEvent, teardown_begin, teardown_step};

const NONCE: &str = "4242-1700000000000000000";

fn monitor(id: i64, name: &str, x: i64, width: i64, height: i64, active: &str) -> Monitor {
    Monitor {
        id,
        name: name.to_owned(),
        width,
        height,
        x,
        y: 0,
        logical_width: width,
        logical_height: height,
        unit_scale: true,
        active_workspace: ActiveWorkspace { id: 1, name: active.to_owned() },
        special_workspace: String::new(),
    }
}

/// The host: the user's monitor and a headless output showing `proto`.
fn monitors() -> Vec<Monitor> {
    vec![
        monitor(0, "DP-3", 0, 5120, 1440, "1"),
        monitor(1, "headless-ci", 5120, 1600, 1000, "proto"),
    ]
}

/// What a nested compositor reports: exactly one output.
fn nested_monitors() -> Vec<Monitor> {
    vec![monitor(0, "WAYLAND-1", 0, 1920, 1080, "1")]
}

fn client(address: &str, title: &str, class: &str, pid: i32, workspace: &str, monitor: i64) -> Client {
    Client {
        address: address.to_owned(),
        at: [0, 0],
        size: [800, 600],
        workspace: WorkspaceRef { name: workspace.to_owned() },
        floating: false,
        monitor,
        class: class.to_owned(),
        initial_class: class.to_owned(),
        title: title.to_owned(),
        initial_title: title.to_owned(),
        pid,
    }
}

/// The windows of an agent desktop's instance.
fn instance_clients() -> Vec<Client> {
    vec![
        client("0xaaa", "Shared title", "shared.class", 101, "1", 0),
        client("0xbbb", "Shared title", "shared.class", 102, "2", 0),
        client("0xccc", "Shared title", "other.class", 103, "3", 0),
        client("0xddd", "Unique title", "unique.class", 104, "4", 0),
    ]
}

/// Host windows around a start: the console of pid 4242 on the headless
/// output, an `aquamarine` window of another pid, and a window of our pid of
/// another class.
fn nested_clients() -> Vec<Client> {
    let mut console = client("0xc0ff33", "aquamarine - WAYLAND-1", "aquamarine", 4242, "agent-alpha", 1);
    console.at = [5120, 0];
    vec![
        console,
        client("0xdecoy", "aquamarine - WAYLAND-9", "aquamarine", 777, "1", 0),
        client("0xstale", "notes", "kitty", 4242, "1", 0),
    ]
}

fn sample_keymap() -> Keymap {
    Keymap {
        rules: String::new(),
        model: "pc105".to_owned(),
        layout: "fr".to_owned(),
        variant: "azerty".to_owned(),
        options: "compose:caps".to_owned(),
    }
}

fn snapshot_with(outputs: &[(&str, &str)], also: &[&str], focus: Option<&str>) -> HostSnapshot {
    HostSnapshot {
        workspaces: outputs
            .iter()
            .map(|(output, workspace)| ((*output).to_owned(), (*workspace).to_owned()))
            .collect(),
        workspace_names: outputs
            .iter()
            .map(|(_, workspace)| (*workspace).to_owned())
            .chain(also.iter().map(|name| (*name).to_owned()))
            .collect(),
        active_window: focus.map(str::to_owned),
        cursor: (100, 200),
    }
}

fn snapshot(outputs: &[(&str, &str)], focus: Option<&str>) -> HostSnapshot {
    snapshot_with(outputs, &[], focus)
}

fn marker() -> Marker<'static> {
    Marker {
        session: "alpha",
        instance: NONCE,
    }
}

fn live() -> Instance {
    Instance::Live {
        signature: "beef_1700000000".to_owned(),
        wayland_display: "wayland-3".to_owned(),
        pid: 4242,
        console_address: "0xc0ff33".to_owned(),
    }
}

fn agent_state(instance: Instance, active: Option<&str>) -> Isolated {
    Isolated {
        output: "hyprpilot-alpha".to_owned(),
        workspace: "agent-alpha".to_owned(),
        instance_nonce: NONCE.to_owned(),
        size: [1920, 1080],
        shown: false,
        active_address: active.map(str::to_owned),
        instance,
        host: Vec::new(),
    }
}

fn no_run(_: Vec<String>) -> Result<ProcessOutput, String> {
    Err("no compositor may be asked".to_owned())
}

fn no_monitors(_: String) -> Result<Vec<Monitor>, String> {
    Err("unused".to_owned())
}

fn no_clients(_: String) -> Result<Vec<Client>, String> {
    Err("unused".to_owned())
}

#[test]
fn nested_config_pins_the_layout_and_inherits_the_host_keymap() {
    let config = nested_config("alpha", [1600, 1000], &sample_keymap());
    let lines = config.lines().collect::<Vec<_>>();

    for expected in [
        "monitor = , 1600x1000@60, 0x0, 1",
        "general {",
        "    gaps_in = 0",
        "    gaps_out = 0",
        "    border_size = 0",
        "    rounding = 0",
        "animations {",
        "    force_default_wallpaper = 0",
        "    background_color = rgb(1e1e2e)",
        "    disable_watchdog_warning = true",
        "input {",
        "    kb_rules = ",
        "    kb_model = pc105",
        "    kb_layout = fr",
        "    kb_variant = azerty",
        "    kb_options = compose:caps",
        "    disable_logs = false",
    ] {
        assert!(lines.contains(&expected), "missing line `{expected}`");
    }
    assert_eq!(lines.iter().filter(|line| *line == &"    enabled = false").count(), 1);
    assert_eq!(lines.iter().filter(|line| *line == &"        enabled = false").count(), 2);
    assert!(config.contains("agent desktop `alpha`"), "{config}");
    assert!(config.contains("hyprpilot-alpha"), "{config}");
    assert!(!config.contains("exec-once"), "{config}");
    assert!(!config.to_lowercase().contains("portal"), "{config}");
}

#[test]
fn keymap_comes_from_the_host_or_the_start_fails() {
    let keyboard = |main: bool, layout: &str| Keyboard {
        rules: String::new(),
        model: String::new(),
        layout: layout.to_owned(),
        variant: String::new(),
        options: "compose:caps".to_owned(),
        active_keymap: "English (US)".to_owned(),
        main,
    };
    let devices = Devices { keyboards: vec![keyboard(false, "de"), keyboard(true, "us")] };
    let keymap = keymap_of(&devices).unwrap();
    assert_eq!(keymap.rules, "");
    assert_eq!(keymap.model, "");
    assert_eq!(keymap.layout, "us");
    assert_eq!(keymap.variant, "");
    assert_eq!(keymap.options, "compose:caps");

    let orphan = Devices { keyboards: vec![keyboard(false, "de")] };
    let error = match keymap_of(&orphan) {
        Err(error) => error.message(),
        Ok(keymap) => panic!("a keyboardless host was accepted: {keymap:?}"),
    };
    assert!(error.contains("no main keyboard"), "{error}");
    assert!(error.contains("hyprctl devices"), "{error}");
}

fn instance_info(instance: &str, pid: i32, socket: &str) -> InstanceInfo {
    InstanceInfo {
        instance: instance.to_owned(),
        pid,
        wl_socket: socket.to_owned(),
    }
}

#[test]
fn an_instance_is_attributed_by_its_markers_not_by_what_appeared() -> Result<(), Error> {
    let instances = vec![
        instance_info("cafe_1700000000", 10, "wayland-1"),
        instance_info("beef_1700000001", 20, "wayland-2"),
        instance_info("dead_1700000002", 30, "wayland-3"),
    ];

    let found = marked_instance(&instances, &|pid: i32| Ok(pid == 20))?
        .expect("the marked instance was not found");
    assert_eq!(found.instance, "beef_1700000001");
    assert_eq!(found.wl_socket, "wayland-2");

    assert!(marked_instance(&instances, &|_: i32| Ok(false))?.is_none());

    let Err(error) = marked_instance(&instances, &|pid: i32| Ok(pid != 10)) else {
        panic!("two marked instances must never be guessed between");
    };
    assert!(error.message().contains("two live instances"), "{error:?}");
    Ok(())
}

#[test]
fn console_is_selected_by_class_and_marker_never_by_title() -> Result<(), Error> {
    let clients = nested_clients();
    let ours = |pid: i32| Ok(pid == 4242);
    let nothing: Vec<String> = Vec::new();

    let console = select_console(&clients, &nothing, &ours)?.expect("console not selected");
    assert_eq!(console.address, "0xc0ff33");
    assert_eq!(console.pid, 4242);

    let known: Vec<String> = clients.iter().map(|client| client.address.clone()).collect();
    let recycled = select_console(&clients, &known, &ours)?
        .expect("a console at a recycled address was discarded");
    assert_eq!(recycled.address, "0xc0ff33");

    let anything = |_: i32| Ok(true);
    let error = match select_console(&clients, &nothing, &anything) {
        Err(error) => error.message(),
        Ok(found) => panic!("two marked consoles were accepted: {found:?}"),
    };
    assert!(error.contains("two console windows"), "{error}");
    assert!(error.contains("0xc0ff33"), "{error}");
    assert!(error.contains("0xdecoy"), "{error}");
    let annotated = match select_console(&clients, &known, &anything) {
        Err(error) => error.message(),
        Ok(found) => panic!("two marked consoles were accepted: {found:?}"),
    };
    assert!(annotated.contains("predates this start"), "{annotated}");

    let unreadable = |_: i32| {
        Err(Error::Tool {
            command: "read /proc".to_owned(),
            message: "denied".to_owned(),
        })
    };
    assert!(
        select_console(&clients, &nothing, &unreadable).is_err(),
        "a failed marker read must abort, not skip the window"
    );
    Ok(())
}

#[test]
fn the_nested_marker_refuses_every_command_not_only_a_start() -> Result<(), Error> {
    refuse_when_nested(None)?;

    for marker in ["alpha", ""] {
        let error = match refuse_when_nested(Some(marker)) {
            Err(error) => error,
            Ok(()) => panic!("a command inside an agent desktop was accepted"),
        };
        assert!(matches!(&error, Error::NestedRefused { .. }));
        let message = error.message();
        assert!(message.contains(AGENT_SESSION_ENV), "{message}");
        assert!(message.contains("0x0"), "{message}");
        assert!(message.contains("shell this command was typed in"), "{message}");
    }
    Ok(())
}

#[test]
fn existing_agent_output_is_a_leftover_not_a_resource() -> Result<(), Error> {
    let monitors = monitors();
    ensure_output_absent(&monitors, "hyprpilot-alpha", "alpha")?;

    let error = match ensure_output_absent(&monitors, "headless-ci", "alpha") {
        Err(error) => error,
        Ok(()) => panic!("a pre-existing output was reused"),
    };
    assert!(matches!(&error, Error::AgentOutputExists { .. }));
    let message = error.message();
    assert!(message.contains("hyprpilot --session alpha teardown"), "{message}");
    assert!(message.contains("hyprctl output remove headless-ci"), "{message}");
    Ok(())
}

#[test]
fn output_check_requires_the_requested_mode_and_scale_one() {
    let mut monitor = monitors().swap_remove(1);
    assert!(output_is_configured(&monitor, [1600, 1000]));
    assert!(!output_is_configured(&monitor, [1920, 1080]));
    monitor.unit_scale = false;
    assert!(!output_is_configured(&monitor, [1600, 1000]));
}

#[test]
fn host_snapshot_tolerates_the_new_output_and_nothing_else() {
    assert_eq!(
        active_workspaces(&monitors()),
        vec![
            ("DP-3".to_owned(), "1".to_owned()),
            ("headless-ci".to_owned(), "proto".to_owned())
        ]
    );

    let before = snapshot(&[("DP-3", "1")], Some("0xabc"));
    assert!(deviation(&before, &snapshot(&[("DP-3", "1")], Some("0xabc"))).is_none());
    assert!(
        deviation(
            &before,
            &snapshot(&[("DP-3", "1"), ("hyprpilot-alpha", "agent-alpha")], Some("0xabc"))
        )
        .is_none(),
        "the output this start created is not a deviation"
    );

    let workspace = deviation(&before, &snapshot(&[("DP-3", "2")], Some("0xabc")))
        .expect("a workspace switch went unnoticed")
        .message();
    assert!(workspace.contains("active workspace"), "{workspace}");
    assert!(workspace.contains("expected 1 on DP-3"), "{workspace}");
    assert!(workspace.contains("observed 2 on DP-3"), "{workspace}");
    assert!(workspace.contains("rolled back"), "{workspace}");

    let focus = deviation(&before, &snapshot(&[("DP-3", "1")], Some("0xdef")))
        .expect("a focus change went unnoticed")
        .message();
    assert!(focus.contains("address:0xabc"), "{focus}");
    assert!(focus.contains("address:0xdef"), "{focus}");
    assert!(
        deviation(&before, &snapshot(&[("DP-3", "1")], None))
            .is_some_and(|error| error.message().contains("no focused window")),
        "losing focus is a deviation too"
    );
    assert!(
        deviation(&before, &snapshot(&[], Some("0xabc"))).is_some(),
        "a host output that vanished is a deviation"
    );
}

#[test]
fn capturable_accepts_an_agent_workspace_active_with_a_mapped_window() {
    let monitors = monitors();
    let outputs = nested_monitors();
    let clients = instance_clients();

    capturable(&monitors, &outputs, &clients, "headless-ci", "proto", "0xaaa").unwrap();

    let frozen = capturable(&monitors, &outputs, &clients, "headless-ci", "agent-alpha", "0xaaa")
        .expect_err("an inactive agent workspace was accepted");
    assert!(frozen.contains("stop receiving frames"), "{frozen}");

    let absent = capturable(&monitors, &outputs, &clients, "hyprpilot-alpha", "agent-alpha", "0xaaa")
        .expect_err("a missing host output was accepted");
    assert!(absent.contains("hyprpilot-alpha is absent"), "{absent}");

    let mut occluded = monitors;
    occluded[1].special_workspace = "special:magic".to_owned();
    let occluded = capturable(&occluded, &outputs, &clients, "headless-ci", "proto", "0xaaa")
        .expect_err("an occluded headless output was accepted");
    assert!(occluded.contains("special:magic"), "{occluded}");
}

#[test]
fn capturable_refuses_a_window_that_is_gone_unmapped_or_hidden() {
    let monitors = monitors();
    let outputs = nested_monitors();
    let mut clients = instance_clients();

    let gone = capturable(&monitors, &outputs, &clients, "headless-ci", "proto", "0xzzz")
        .expect_err("an absent window was accepted");
    assert!(gone.contains("0xzzz is gone"), "{gone}");

    let hidden = capturable(&monitors, &outputs, &clients, "headless-ci", "proto", "0xbbb")
        .expect_err("a window on a hidden workspace was accepted");
    assert!(hidden.contains("while the agent desktop shows"), "{hidden}");

    clients[0].size = [0, 0];
    let unmapped = capturable(&monitors, &outputs, &clients, "headless-ci", "proto", "0xaaa")
        .expect_err("an unmapped window was accepted");
    assert!(unmapped.contains("not mapped"), "{unmapped}");

    clients[0].size = [800, 600];
    clients[0].monitor = 7;
    let stray = capturable(&monitors, &outputs, &clients, "headless-ci", "proto", "0xaaa")
        .expect_err("a window on an unknown monitor was accepted");
    assert!(stray.contains("monitor 7"), "{stray}");
    assert_eq!(outputs.len(), 1);
}

#[test]
fn spawn_command_carries_the_one_shot_rules_marker_and_log() -> Result<(), Error> {
    let command = spawn_command(
        &marker(),
        "agent-alpha",
        "/run/user/1000/hyprpilot/sessions/alpha/hyprland.conf",
        "/run/user/1000/hyprpilot/sessions/alpha/hyprland.log",
    )?;

    assert_eq!(
        command,
        "[workspace name:agent-alpha silent; noinitialfocus; fullscreen] env \
         HYPRPILOT_AGENT_SESSION=alpha \
         HYPRPILOT_AGENT_INSTANCE=4242-1700000000000000000 Hyprland -c \
         '/run/user/1000/hyprpilot/sessions/alpha/hyprland.conf' > \
         '/run/user/1000/hyprpilot/sessions/alpha/hyprland.log' 2>&1"
    );

    assert!(shell_path("/run/user/1000/ok").is_ok());
    assert!(shell_path("/run/user/1000/it's").is_err());
    assert!(
        spawn_command(
            &marker(),
            "agent-alpha",
            "/run/user/1000/it's/hyprland.conf",
            "/run/user/1000/hyprland.log",
        )
        .is_err()
    );
    Ok(())
}

#[test]
fn teardown_plan_follows_the_instance_stage() {
    let pending = agent_state(Instance::Pending, Some("0xapp"));
    assert_eq!(
        teardown_plan(&pending),
        TeardownPlan {
            close: None,
            instance: None
        },
        "an output-only session has nothing to exit and nothing to close"
    );

    let spawned = agent_state(
        Instance::Spawned {
            signature: "beef_1700000000".to_owned(),
        },
        None,
    );
    assert_eq!(
        teardown_plan(&spawned),
        TeardownPlan {
            close: None,
            instance: Some(Compositor::Spawned {
                signature: "beef_1700000000"
            }),
        }
    );
    assert_eq!(teardown_plan(&spawned).instance.and_then(Compositor::console), None);

    let live_state = agent_state(live(), Some("0xapp"));
    assert_eq!(
        teardown_plan(&live_state),
        TeardownPlan {
            close: Some("0xapp"),
            instance: Some(Compositor::Live(Registered {
                signature: "beef_1700000000",
                pid: 4242,
                console: "0xc0ff33",
                display: "wayland-3",
            })),
        }
    );

    let launched_nothing = agent_state(live(), None);
    let plan = teardown_plan(&launched_nothing);
    assert_eq!(plan.close, None, "no window recorded, nothing to close");
    assert!(plan.instance.is_some());
}

#[test]
fn a_start_that_fails_before_its_console_still_names_its_runtime_directory() -> Result<(), Error> {
    let pending = agent_state(Instance::Pending, None);
    assert_eq!(instance_signature(&pending.instance), None);

    let spawned = agent_state(
        Instance::Spawned {
            signature: "beef_1700000000".to_owned(),
        },
        None,
    );
    let signature = instance_signature(&spawned.instance).expect("a spawned compositor has a signature");
    assert_eq!(
        instance_dir("/run/user/1000/hypr", signature)?,
        "/run/user/1000/hypr/beef_1700000000"
    );
    Ok(())
}

#[test]
fn the_console_is_waited_for_by_address_and_pid() -> Result<(), String> {
    let clients = nested_clients();
    let console = Console {
        address: "0xc0ff33",
        pid: 4242,
    };

    let waiting = console_reaped(&clients, console)
        .expect_err("a console still on the host was reported as reaped");
    assert!(waiting.contains("agent-alpha"), "{waiting}");

    let gone = console_reaped(&[], console)?;
    assert!(gone.contains("0xc0ff33 is gone"), "{gone}");

    let recycled = console_reaped(
        &clients,
        Console {
            address: "0xc0ff33",
            pid: 999,
        },
    )?;
    assert!(recycled.contains("now belongs to pid 4242"), "{recycled}");
    Ok(())
}

#[test]
fn a_console_that_was_never_recorded_is_waited_for_by_output() -> Result<(), String> {
    let monitors = monitors();
    let clients = nested_clients();

    let occupied = output_vacated(&monitors, &clients, "headless-ci")
        .expect_err("an output still holding a window was reported as empty");
    assert!(occupied.contains("0xc0ff33"), "{occupied}");

    let empty = output_vacated(&monitors, &clients, "DP-3")
        .expect_err("DP-3 holds the two windows of monitor 0");
    assert!(empty.contains("0xdecoy"), "{empty}");

    assert!(output_vacated(&monitors, &[], "headless-ci")?.contains("no window is left"));
    assert!(output_vacated(&monitors, &clients, "hyprpilot-alpha")?.contains("already gone"));
    Ok(())
}

#[test]
fn the_frame_site_follows_the_console_not_the_flag() {
    let hidden = agent_state(live(), Some("0xapp"));
    assert!(matches!(
        frame_site(&hidden, "0xc0ff33"),
        FrameSite::Headless {
            output: "hyprpilot-alpha",
            workspace: "agent-alpha"
        }
    ));

    let mut shown = agent_state(live(), Some("0xapp"));
    shown.shown = true;
    assert!(matches!(
        frame_site(&shown, "0xc0ff33"),
        FrameSite::Shown {
            console: "0xc0ff33"
        }
    ));

    let reason = frames_reason(
        "alpha",
        &frame_site(&shown, "0xc0ff33"),
        "window 0xc0ff33 sits on workspace 2 while the agent desktop shows 5",
    );
    assert!(reason.contains("frame callbacks"), "{reason}");
    assert!(reason.contains("0xc0ff33"), "{reason}");
    assert!(reason.contains("session hide"), "{reason}");
}

/// A compositor that answers the exit ladder as told, driven the way a
/// teardown drives it: one `exit_step` per poll.
struct Fake {
    refuses: bool,
    deaf: bool,
    ignores: &'static [&'static str],
    kill_fails: bool,
    alive: Cell<bool>,
    requests: Cell<u32>,
    signals: RefCell<Vec<&'static str>>,
}

impl Default for Fake {
    fn default() -> Self {
        Self {
            refuses: false,
            deaf: false,
            ignores: &[],
            kill_fails: false,
            alive: Cell::new(true),
            requests: Cell::new(0),
            signals: RefCell::new(Vec::new()),
        }
    }
}

impl Fake {
    fn request(&self) -> Result<(), Error> {
        self.requests.set(self.requests.get() + 1);
        if self.refuses {
            return Err(Error::Tool {
                command: "hyprctl -i beef_1700000000 dispatch exit".to_owned(),
                message: "no such instance".to_owned(),
            });
        }
        if !self.deaf {
            self.alive.set(false);
        }
        Ok(())
    }

    fn signal(&self, signal: &'static str) -> Result<(), Error> {
        self.signals.borrow_mut().push(signal);
        if self.kill_fails {
            return Err(Error::Tool {
                command: format!("kill -s {signal} 4242"),
                message: "no such process".to_owned(),
            });
        }
        if !self.ignores.contains(&signal) {
            self.alive.set(false);
        }
        Ok(())
    }

    fn stopped(&self) -> Result<Vec<String>, Error> {
        let label = "nested compositor beef_1700000000 (pid 4242)";
        let ladder = Escalation { polite: 60, term: 60, kill: 60, poll: 5 };
        let mut notes = Vec::new();
        if !self.alive.get() {
            notes.push(format!("{label} was already dead"));
            return Ok(notes);
        }
        if let Err(error) = self.request() {
            notes.push(hyprpilot::isolated::refused_exit_note(label, &error));
        }
        let mut sent: Option<&'static str> = None;
        let mut elapsed = 0;
        loop {
            match exit_step(label, "alpha", ladder, sent, self.alive.get(), elapsed) {
                ExitAction::Exited(note) => {
                    notes.push(note);
                    return Ok(notes);
                }
                ExitAction::Signal(signal) => {
                    let result = self.signal(signal);
                    notes.push(signal_note(label, signal, &result));
                    sent = Some(signal);
                }
                ExitAction::Wait => {}
                ExitAction::GiveUp(error) => return Err(error),
            }
            elapsed += ladder.poll;
        }
    }
}

#[test]
fn a_pid_already_dead_is_an_idempotent_success() -> Result<(), Error> {
    let fake = Fake {
        alive: Cell::new(false),
        ..Fake::default()
    };
    let notes = fake.stopped()?;
    assert_eq!(notes.len(), 1, "{notes:?}");
    assert!(notes[0].contains("was already dead"), "{notes:?}");
    assert_eq!(fake.requests.get(), 0);
    assert!(fake.signals.borrow().is_empty());
    Ok(())
}

#[test]
fn instance_exit_escalates_from_dispatch_exit_to_sigterm_then_sigkill() -> Result<(), Error> {
    let polite = Fake::default();
    let notes = polite.stopped()?;
    assert!(notes.iter().any(|note| note.contains("exited on `dispatch exit`")), "{notes:?}");
    assert!(polite.signals.borrow().is_empty(), "no signal was needed");

    let deaf = Fake {
        deaf: true,
        ..Fake::default()
    };
    let notes = deaf.stopped()?;
    assert_eq!(*deaf.signals.borrow(), vec!["TERM"]);
    assert!(notes.iter().any(|note| note.contains("SIGTERM sent")), "{notes:?}");
    assert!(notes.iter().any(|note| note.contains("died after SIGTERM")), "{notes:?}");

    let stubborn = Fake {
        deaf: true,
        ignores: &["TERM"],
        ..Fake::default()
    };
    let notes = stubborn.stopped()?;
    assert_eq!(*stubborn.signals.borrow(), vec!["TERM", "KILL"]);
    assert!(notes.iter().any(|note| note.contains("died after SIGKILL")), "{notes:?}");

    let socketless = Fake {
        refuses: true,
        ..Fake::default()
    };
    let notes = socketless.stopped()?;
    assert!(notes.iter().any(|note| note.contains("refused `dispatch exit`")), "{notes:?}");
    assert_eq!(*socketless.signals.borrow(), vec!["TERM"]);
    Ok(())
}

#[test]
fn an_instance_surviving_sigkill_keeps_its_output() {
    let immortal = Fake {
        deaf: true,
        ignores: &["TERM", "KILL"],
        kill_fails: true,
        ..Fake::default()
    };
    let error = immortal.stopped().expect_err("an immortal instance was reported as gone");
    assert!(matches!(&error, Error::AgentDesktopAlive { .. }));
    let message = error.message();
    assert!(message.contains("survived"), "{message}");
    assert!(message.contains("pid 4242"), "{message}");
    assert!(message.contains("would land on the user's desktop"), "{message}");
    assert!(message.contains("--session alpha teardown"), "{message}");
}

#[test]
fn a_marked_desktop_is_signalled_once_per_rung_and_refused_past_the_ladder() {
    let ladder = Escalation { polite: 60, term: 60, kill: 60, poll: 5 };
    let label = marker().label();
    let mut state = SweepState { rung: None, signalled: Vec::new() };
    assert!(matches!(sweep_step(&mut state, ladder, 0, &vec![], &label), SweepAction::Done));
    assert!(matches!(sweep_step(&mut state, ladder, 10, &vec![21, 22], &label), SweepAction::Wait));
    let SweepAction::Signal { signal, pids, note } = sweep_step(&mut state, ladder, 60, &vec![21, 22], &label) else {
        panic!("the polite wait is over");
    };
    assert_eq!((signal, pids), ("TERM", vec![21, 22]));
    assert_eq!(note.as_deref(), Some("SIGTERM sent to pids [21, 22] of the agent desktop"));
    let SweepAction::Signal { pids, note, .. } = sweep_step(&mut state, ladder, 70, &vec![22, 23], &label) else {
        panic!("still on the TERM rung");
    };
    assert_eq!(pids, vec![23], "a pid already signalled on this rung is not signalled again");
    assert!(note.is_some());
    let SweepAction::Signal { signal, pids, .. } = sweep_step(&mut state, ladder, 125, &vec![22], &label) else {
        panic!("the KILL rung");
    };
    assert_eq!((signal, pids), ("KILL", vec![22]));
    let SweepAction::GiveUp(failure) = sweep_step(&mut state, ladder, 180, &vec![31], &label) else {
        panic!("past the ladder");
    };
    assert_eq!(failure.what, "agent desktop");
    assert!(failure.actual.contains("[31]"), "{}", failure.actual);
    assert!(failure.expected.contains("HYPRPILOT_AGENT_SESSION=alpha"), "{}", failure.expected);
    assert!(failure.expected.contains(&format!("HYPRPILOT_AGENT_INSTANCE={NONCE}")), "{}", failure.expected);
}

#[test]
fn instance_signature_must_be_a_plain_directory_name() -> Result<(), Error> {
    assert_eq!(plain_signature("beef_1700000000")?, "beef_1700000000");

    for signature in ["", ".", "..", "../..", "a/b", "hypr/beef"] {
        let error = match plain_signature(signature) {
            Err(error) => error.message(),
            Ok(plain) => panic!("signature {signature:?} was accepted as {plain:?}"),
        };
        assert!(error.contains("instance signature"), "{error}");
        assert!(error.contains("single directory name"), "{error}");
    }
    Ok(())
}

#[test]
fn a_capture_needs_a_live_instance_and_a_recorded_window() {
    let pending = agent_state(Instance::Pending, None);
    let error = match capture_target(&mut vec![&no_run; 4], &no_monitors, &no_clients, &|_: u32| true, "alpha", &pending) {
        Err(error) => error.message(),
        Ok(capture) => panic!("a capture of a pending instance was accepted: {capture:?}"),
    };
    assert!(error.contains("agent desktop `alpha`"), "{error}");
    assert!(error.contains("never spawned"), "{error}");
    assert!(error.contains("--session alpha teardown"), "{error}");

    let launched_nothing = agent_state(live(), None);
    let error = match recorded_window("alpha", &launched_nothing) {
        Err(error) => error.message(),
        Ok(address) => panic!("a capture without a recorded window was accepted: {address}"),
    };
    assert!(error.contains("no window is recorded"), "{error}");
    assert!(error.contains("--session alpha teardown"), "{error}");
    let error = match capture_target(&mut vec![&no_run; 4], &no_monitors, &no_clients, &|_: u32| true, "alpha", &launched_nothing) {
        Err(error) => error.message(),
        Ok(capture) => panic!("{capture:?}"),
    };
    assert!(error.contains("no window is recorded"), "{error}");
}

#[test]
fn a_target_is_resolved_among_the_clients_of_the_instance() -> Result<(), Error> {
    let clients = instance_clients();
    let by_title = |title| Criteria {
        address: None,
        title: Some(title),
        class: None,
        pid: None,
    };

    assert!(instance_match(&clients, &by_title("Missing title"))?.is_none());
    let unique = instance_match(&clients, &by_title("Unique title"))?.expect("one exact match");
    assert_eq!(unique.address, "0xddd");

    let error = match instance_match(&clients, &by_title("Shared title")) {
        Err(error) => error,
        Ok(found) => panic!("three matching windows were accepted: {found:?}"),
    };
    assert!(matches!(error, Error::WindowAmbiguous { .. }), "{error:?}");
    let message = error.message();
    let last_line = message.lines().next_back().unwrap();
    let candidates: Vec<serde_json::Value> = serde_json::from_str(last_line).unwrap();
    assert_eq!(
        candidates
            .iter()
            .map(|candidate| candidate["address"].as_str())
            .collect::<Vec<_>>(),
        vec![Some("0xaaa"), Some("0xbbb"), Some("0xccc")]
    );
    Ok(())
}

#[test]
fn parking_options_of_shared_mode_are_refused_in_an_agent_desktop() -> Result<(), Error> {
    refuse_disposition(None)?;
    for disposition in [Disposition::Restore, Disposition::Close] {
        let error = match refuse_disposition(Some(disposition)) {
            Err(error) => error.message(),
            Ok(()) => panic!("--on-teardown was accepted in an agent desktop"),
        };
        assert!(error.contains(disposition.label()), "{error}");
        assert!(error.contains("whole agent desktop down"), "{error}");
    }

    refuse_untracked(false)?;
    let error = match refuse_untracked(true) {
        Err(error) => error.message(),
        Ok(()) => panic!("--untracked was accepted in an agent desktop"),
    };
    assert!(error.contains("--untracked"), "{error}");
    assert!(error.contains("one window at a time"), "{error}");
    Ok(())
}

#[test]
fn an_instance_whose_pid_lost_the_marker_is_dead() {
    let live_state = agent_state(live(), Some("0xapp"));
    let asked = RefCell::new(Vec::new());
    let carries = |pid: u32| {
        asked.borrow_mut().push(pid);
        true
    };
    let instance = live_instance("alpha", &live_state, &carries).unwrap();
    assert_eq!(instance.signature, "beef_1700000000");
    assert_eq!(instance.wayland_display, "wayland-3");
    assert_eq!(instance.pid, 4242);
    assert_eq!(instance.console, "0xc0ff33");
    assert_eq!(*asked.borrow(), vec![4242]);

    let error = match live_instance("alpha", &live_state, &|_: u32| false) {
        Err(error) => error,
        Ok(found) => panic!("a recycled pid was taken for the agent desktop: {found:?}"),
    };
    assert!(matches!(error, Error::AgentDesktopDead { .. }), "{error:?}");
    let message = error.message();
    assert!(message.contains("is dead"), "{message}");
    assert!(message.contains("beef_1700000000"), "{message}");
    assert!(message.contains("pid 4242"), "{message}");
    assert!(message.contains("--session alpha teardown"), "{message}");

    let pending = agent_state(Instance::Pending, None);
    let error = match live_instance("alpha", &pending, &|_: u32| true) {
        Err(error) => error.message(),
        Ok(found) => panic!("a pending instance was taken for a live one: {found:?}"),
    };
    assert!(error.contains("never spawned"), "{error}");
}

#[test]
fn show_and_hide_read_the_visibility_off_the_consoles_workspace() {
    assert_eq!(visibility("agent-alpha", "agent-alpha"), Visibility::Hidden);
    assert_eq!(visibility("2", "agent-alpha"), Visibility::Shown);
    assert_eq!(visibility("agent-alpha2", "agent-alpha"), Visibility::Shown);
}

#[test]
fn a_show_is_idempotent_only_where_the_user_is_actually_looking() {
    let focused = |name: &str, monitor: &str| FocusedWorkspace {
        name: name.to_owned(),
        monitor: monitor.to_owned(),
    };

    assert!(shown_where_the_user_looks("2", &focused("2", "DP-3"), "hyprpilot-alpha"));
    assert!(!shown_where_the_user_looks("2", &focused("5", "DP-3"), "hyprpilot-alpha"));
    assert!(!shown_where_the_user_looks(
        "agent-alpha",
        &focused("agent-alpha", "hyprpilot-alpha"),
        "hyprpilot-alpha"
    ));
}

#[test]
fn a_focus_on_the_agent_output_is_not_a_destination() -> Result<(), Error> {
    let state = agent_state(live(), Some("0xapp"));
    let monitors = monitors();
    let focused = |name: &str, monitor: &str| FocusedWorkspace {
        name: name.to_owned(),
        monitor: monitor.to_owned(),
    };
    assert_eq!(user_workspace(&focused("1", "DP-3"), &monitors, "alpha", &state)?, "1");

    for (name, monitor) in [("agent-alpha", "hyprpilot-alpha"), ("3", "hyprpilot-alpha")] {
        let error = match user_workspace(&focused(name, monitor), &monitors, "alpha", &state) {
            Err(error) => error.message(),
            Ok(workspace) => panic!("the agent desktop's own output was accepted: {workspace}"),
        };
        assert!(error.contains("hyprpilot-alpha"), "{error}");
        assert!(error.contains("waybar"), "{error}");
        assert!(error.contains("session show"), "{error}");
    }

    let mut covered = monitors.clone();
    covered[0].special_workspace = "special:magic".to_owned();
    let error = match user_workspace(&focused("1", "DP-3"), &covered, "alpha", &state) {
        Err(error) => error.message(),
        Ok(workspace) => panic!("a workspace under a special workspace was accepted: {workspace}"),
    };
    assert!(error.contains("special:magic"), "{error}");
    assert!(error.contains("stop receiving frames"), "{error}");

    let error = match user_workspace(&focused("1", "DP-9"), &monitors, "alpha", &state) {
        Err(error) => error.message(),
        Ok(workspace) => panic!("an unknown monitor was accepted: {workspace}"),
    };
    assert!(error.contains("does not list"), "{error}");
    Ok(())
}

#[test]
fn a_console_move_is_verified_against_what_the_compositor_reports() -> Result<(), String> {
    let clients = nested_clients();
    let console = &clients[0];

    console_settled(
        console,
        &ConsoleWant {
            workspace: "agent-alpha",
            floating: Some(false),
            at: Some([5120, 0]),
        },
    )?;
    console_settled(
        console,
        &ConsoleWant {
            workspace: "agent-alpha",
            floating: None,
            at: None,
        },
    )?;

    for (want, expected) in [
        (
            ConsoleWant {
                workspace: "2",
                floating: None,
                at: None,
            },
            "on workspace agent-alpha",
        ),
        (
            ConsoleWant {
                workspace: "agent-alpha",
                floating: Some(true),
                at: None,
            },
            "floating is false",
        ),
        (
            ConsoleWant {
                workspace: "agent-alpha",
                floating: None,
                at: Some([0, 0]),
            },
            "at [5120, 0]",
        ),
    ] {
        let observed = console_settled(console, &want).expect_err("a console that had not moved was accepted");
        assert_eq!(observed, expected);
    }
    Ok(())
}

#[test]
fn a_frozen_agent_desktop_names_the_invariant_and_the_host_fallback() {
    let reason = frozen_reason(
        "alpha",
        "hyprpilot-alpha",
        "agent-alpha",
        "workspace 3 is active on hyprpilot-alpha, not agent-alpha",
    );

    assert!(reason.contains("frame callbacks"), "{reason}");
    assert!(reason.contains("agent-alpha"), "{reason}");
    assert!(reason.contains("workspace 3 is active"), "{reason}");
    assert!(reason.contains("grim -o hyprpilot-alpha"), "{reason}");
    assert!(reason.contains("--session alpha teardown"), "{reason}");
}

#[test]
fn a_workspace_the_user_owns_is_never_renamed() {
    let clients = instance_clients();
    assert_eq!(workspace_occupants(&clients, "1"), vec!["0xaaa (`Shared title`)".to_owned()]);
    assert!(workspace_occupants(&clients, "9").is_empty());

    let host = snapshot_with(&[("DP-3", "1"), ("HDMI-A-1", "8")], &["7"], Some("0xabc"));
    renameable(&host, &clients, "9").unwrap();

    let occupied = renameable(&host, &clients, "2").expect_err("a workspace holding a window was accepted");
    assert!(occupied.contains("0xbbb"), "{occupied}");

    let visible = renameable(&host, &clients, "8").expect_err("a workspace the user was looking at was accepted");
    assert!(visible.contains("visible on HDMI-A-1"), "{visible}");

    let scratch = renameable(&host, &clients, "7").expect_err("an empty workspace the user already had was accepted");
    assert!(scratch.contains("already existed"), "{scratch}");
}

#[test]
fn a_refused_rename_names_the_workspace_the_output_and_the_reason() {
    let clients = instance_clients();
    let host = snapshot_with(&[("DP-3", "1"), ("HDMI-A-1", "8")], &["7"], Some("0xabc"));
    assert!(rename_allowed(&host, &clients, "9", "hyprpilot-alpha").is_ok());
    let Err(Error::Tool { command, message }) = rename_allowed(&host, &clients, "8", "hyprpilot-alpha") else {
        panic!("a workspace the user was looking at was accepted");
    };
    assert_eq!(command, "hyprctl dispatch renameworkspace");
    let reason = renameable(&host, &clients, "8").unwrap_err();
    assert_eq!(
        message,
        format!("workspace 8 is active on output hyprpilot-alpha but {reason} — refusing to rename a workspace the user owns")
    );
}

fn environ(variables: &[&str]) -> Vec<u8> {
    let mut blob = Vec::new();
    for variable in variables {
        blob.extend_from_slice(variable.as_bytes());
        blob.push(0);
    }
    blob
}

#[test]
fn marked_pids_cover_every_process_of_the_agent_desktop() {
    let nonce = format!("HYPRPILOT_AGENT_INSTANCE={NONCE}");
    let entry = |pid: &str, variables: &[&str]| (pid.to_owned(), Some(environ(variables)));
    let entries = vec![
        entry("13", &["HYPRPILOT_AGENT_SESSION=alpha", &nonce, "WAYLAND_DISPLAY=wayland-2"]),
        entry("11", &["PATH=/usr/bin", "HYPRPILOT_AGENT_SESSION=alpha", &nonce]),
        entry("12", &["HYPRPILOT_AGENT_SESSION=beta", &nonce]),
        entry("14", &["HYPRPILOT_AGENT_SESSION=alpha2", &nonce]),
        entry("16", &["HYPRPILOT_AGENT_SESSION=alpha"]),
        entry("17", &["HYPRPILOT_AGENT_SESSION=alpha", "HYPRPILOT_AGENT_INSTANCE=99-1"]),
        entry("18", &[&nonce]),
        ("15".to_owned(), None),
        ("self".to_owned(), Some(environ(&["HYPRPILOT_AGENT_SESSION=alpha", &nonce]))),
    ];
    assert_eq!(marked_pids(&entries, 1, &marker()), vec![11, 13]);
    assert_eq!(marked_pids(&entries, 1, &Marker { session: "alpha2", instance: NONCE }), vec![14]);
    assert!(marked_pids(&entries, 1, &Marker { session: "gamma", instance: NONCE }).is_empty());
}

#[test]
fn a_sweep_never_selects_its_own_process() {
    let nonce = format!("HYPRPILOT_AGENT_INSTANCE={NONCE}");
    let entries = vec![("4321".to_owned(), Some(environ(&["HYPRPILOT_AGENT_SESSION=alpha", &nonce])))];
    assert!(marked_pids(&entries, 4321, &marker()).is_empty());
    assert_eq!(marked_pids(&entries, 1, &marker()), vec![4321]);
}

#[test]
fn one_marker_is_not_an_identity() {
    let nonce = format!("HYPRPILOT_AGENT_INSTANCE={NONCE}");
    assert!(environ_carries_marker(&environ(&["HYPRPILOT_AGENT_SESSION=alpha", &nonce]), &marker()));
    assert!(!environ_carries_marker(&environ(&["HYPRPILOT_AGENT_SESSION=alpha"]), &marker()));
    assert!(!environ_carries_marker(&environ(&[&nonce]), &marker()));
    assert!(!environ_carries_marker(b"", &marker()));
    let unterminated = format!("HYPRPILOT_AGENT_SESSION=alpha\0{nonce}");
    assert!(environ_carries_marker(unterminated.as_bytes(), &marker()));
    assert!(!environ_carries_marker(&environ(&["XHYPRPILOT_AGENT_SESSION=alpha", &nonce]), &marker()));
}

#[test]
fn an_agent_desktop_needs_an_app_to_launch() {
    assert_eq!(require_app(Some("foot")).unwrap(), "foot");
    match require_app(None) {
        Err(Error::Invalid { what, value, .. }) => {
            assert_eq!(what, "session start --isolated");
            assert_eq!(value, "(no --app)");
        }
        other => panic!("unexpected {other:?}"),
    }
}

#[test]
fn the_claim_names_every_resource_and_acquires_none() {
    let state = initial_payload("hyprpilot-work", "agent-work", "42-7", [1280, 720]);
    assert_eq!(state.output, "hyprpilot-work");
    assert_eq!(state.workspace, "agent-work");
    assert_eq!(state.instance_nonce, "42-7");
    assert_eq!(state.size, [1280, 720]);
    assert!(!state.shown);
    assert!(state.active_address.is_none());
    assert!(matches!(state.instance, Instance::Pending));
    assert!(state.host.is_empty());
}

fn app_window(address: &str, title: &str) -> Client {
    Client {
        address: address.to_owned(),
        at: [0, 0],
        size: [100, 100],
        workspace: WorkspaceRef { name: "1".to_owned() },
        floating: false,
        monitor: 0,
        class: "app".to_owned(),
        initial_class: "app".to_owned(),
        title: title.to_owned(),
        initial_title: title.to_owned(),
        pid: 1,
    }
}

#[test]
fn the_launched_app_is_found_counted_or_refused_as_ambiguous() {
    let criteria = Criteria { address: None, title: Some("Editor"), class: None, pid: None };
    let none = vec![app_window("0xa", "Shell")];
    assert_eq!(launched_window(&none, &criteria).unwrap().unwrap_err(), "1 windows in the agent desktop");
    let one = vec![app_window("0xa", "Shell"), app_window("0xb", "Editor")];
    assert_eq!(launched_window(&one, &criteria).unwrap().unwrap().address, "0xb");
    let two = vec![app_window("0xa", "Editor"), app_window("0xb", "Editor")];
    assert!(matches!(launched_window(&two, &criteria), Err(Error::WindowAmbiguous { .. })));
}

#[test]
fn a_finished_start_names_the_instance_and_the_output() {
    let live = LiveInstance { signature: "sig_9", wayland_display: "wayland-3", pid: 77, console: "0xc" };
    assert_eq!(
        ready_message("work", &app_window("0xb", "Editor"), live, "agent-work", "hyprpilot-work", [1600, 900]),
        "agent desktop `work` ready — window 0xb (`Editor`) in nested instance sig_9 (wayland-3, pid 77) on workspace agent-work of output hyprpilot-work (1600x900)"
    );
}

#[test]
fn a_rollback_reports_what_it_could_not_undo_beside_the_failure() {
    let plain = rolled_back(Error::NoSession, Vec::new());
    assert!(matches!(plain, Error::NoSession));
    let failure = unreaped_console("hyprpilot-work", "still mapped".to_owned());
    assert_eq!(failure.what, "agent console window");
    assert_eq!(failure.expected, "reaped by the host before output hyprpilot-work is removed");
    match rolled_back(Error::NoSession, vec![failure]) {
        Error::Guarded { action: Some(action), restore } => {
            assert!(matches!(*action, Error::NoSession));
            assert_eq!(restore.len(), 1);
        }
        other => panic!("unexpected {other:?}"),
    }
}

#[test]
fn show_floats_the_console_at_its_size_on_the_users_workspace() {
    assert_eq!(
        show_steps("0xc0", [1600, 900], "3"),
        vec![
            vec!["fullscreenstate".to_owned(), "0".to_owned(), "0".to_owned()],
            vec!["setfloating".to_owned(), "address:0xc0".to_owned()],
            vec!["resizewindowpixel".to_owned(), "exact 1600 900,address:0xc0".to_owned()],
            vec!["movetoworkspacesilent".to_owned(), "3,address:0xc0".to_owned()],
        ]
    );
    assert_eq!(
        hide_steps("0xc0", "agent-work", [1600, 900], [-1600, 0]),
        vec![
            vec!["movetoworkspacesilent".to_owned(), "name:agent-work,address:0xc0".to_owned()],
            vec!["resizewindowpixel".to_owned(), "exact 1600 900,address:0xc0".to_owned()],
            vec!["movewindowpixel".to_owned(), "exact -1600 0,address:0xc0".to_owned()],
        ]
    );
}

fn headless(name: &str, x: i64, y: i64) -> Monitor {
    Monitor {
        id: 3,
        name: name.to_owned(),
        width: 1600,
        height: 900,
        x,
        y,
        logical_width: 1600,
        logical_height: 900,
        unit_scale: true,
        active_workspace: ActiveWorkspace { id: 9, name: "agent-work".to_owned() },
        special_workspace: String::new(),
    }
}

#[test]
fn a_hidden_console_lands_at_the_origin_of_its_output() {
    let monitors = vec![headless("DP-1", 0, 0), headless("hyprpilot-work", 5000, -20)];
    assert_eq!(headless_origin_in(&monitors, "work", "hyprpilot-work").unwrap(), [5000, -20]);
    match headless_origin_in(&monitors, "work", "hyprpilot-gone") {
        Err(Error::AgentDesktopUnready { reason, .. }) => {
            assert_eq!(reason, "its headless output hyprpilot-gone is gone — run `hyprpilot --session work teardown`")
        }
        other => panic!("unexpected {other:?}"),
    }
    let far = vec![headless("hyprpilot-work", 1 << 40, 0)];
    match headless_origin_in(&far, "work", "hyprpilot-work") {
        Err(Error::Tool { message, .. }) => assert!(message.starts_with("output hyprpilot-work reports unusable x "), "{message}"),
        other => panic!("unexpected {other:?}"),
    }
}

#[test]
fn the_console_is_found_by_its_recorded_address_only() {
    let clients = vec![app_window("0xa", "aquamarine"), app_window("0xc0", "aquamarine")];
    assert_eq!(host_console_in(&clients, "0xc0", "work").unwrap().address, "0xc0");
    assert!(matches!(host_console_in(&clients, "0xzz", "work"), Err(Error::AgentDesktopUnready { .. })));
}

#[test]
fn a_console_that_changed_size_is_reported_not_fought() {
    let console = app_window("0xc0", "aquamarine");
    assert_eq!(console_size_warning("work", &console, [100, 100]), None);
    assert_eq!(
        console_size_warning("work", &console, [1600, 900]).unwrap(),
        "console window 0xc0 of agent desktop `work` is 100x100 instead of 1600x900 — the agent desktop now renders at that size; check `hyprpilot --session work status`"
    );
}

#[test]
fn visibility_is_saved_only_when_it_changed() {
    let mut state = initial_payload("hyprpilot-work", "agent-work", "n", [1600, 900]);
    assert!(record_visibility(&mut state, Visibility::Shown));
    assert!(state.shown);
    assert!(!record_visibility(&mut state, Visibility::Shown));
    assert!(record_visibility(&mut state, Visibility::Hidden));
    assert!(!state.shown);
}

#[test]
fn show_and_hide_say_where_the_console_is() {
    assert_eq!(
        already_shown_message("work", "0xc0", "3"),
        "agent desktop `work` is already shown — console window 0xc0 sits on workspace 3, the one in front of you"
    );
    assert_eq!(
        shown_message("work", &app_window("0xc0", "aquamarine"), "3", "agent-work"),
        "agent desktop `work` shown — console window 0xc0 is floating on workspace 3 (100x100); `hyprpilot --session work session hide` puts it back on agent-work"
    );
    assert_eq!(
        hidden_message("work", true, "0xc0", "agent-work", "hyprpilot-work"),
        "agent desktop `work` is already hidden — console window 0xc0 sits on workspace agent-work, active on output hyprpilot-work"
    );
    assert!(hidden_message("work", false, "0xc0", "agent-work", "hyprpilot-work").starts_with("agent desktop `work` hidden — "));
}

#[test]
fn focus_inside_an_instance_is_checked_by_address() {
    let w = app_window("0xb", "Editor");
    assert_eq!(focus_observation(Some(&w), "0xb"), Ok(()));
    assert_eq!(focus_observation(Some(&w), "0xa"), Err("0xb (`Editor`) is focused".to_owned()));
    assert_eq!(focus_observation(None, "0xa"), Err("no window is focused".to_owned()));
    assert_eq!(last_observed("window 0xa to appear", "absent"), "window 0xa to appear (last observed: absent)");
}

#[test]
fn exit_waits_two_seconds_politely_two_on_term_one_on_kill() {
    let e = exit_escalation();
    assert_eq!((e.polite, e.term, e.kill, e.poll), (2000, 2000, 1000, 200));
}

#[test]
fn the_agent_target_report_names_window_desktop_and_instance() {
    let window = app_window("0xabc", "Editor");
    assert_eq!(
        agent_target_message("demo", &window, "sig-1"),
        "target active — window 0xabc (`Editor`) focused in agent desktop `demo` (instance sig-1)"
    );
}

fn actions_of(plan: &TeardownPlan<'_>) -> Vec<String> {
    let mut state = teardown_begin(plan);
    let mut seen = Vec::new();
    loop {
        let (next, action) = teardown_step(state, TeardownEvent::Done);
        state = next;
        let done = matches!(action, TeardownAction::Finish);
        seen.push(format!("{action:?}"));
        if done || seen.len() > 20 {
            return seen;
        }
    }
}

#[test]
fn a_live_desktop_is_parked_closed_laddered_cleared_swept_and_reaped_in_order() {
    let plan = TeardownPlan {
        close: Some("0xapp"),
        instance: Some(Compositor::Live(Registered { signature: "sig", pid: 7, console: "0xc0", display: "wayland-3" })),
    };
    assert_eq!(
        actions_of(&plan),
        [
            "ParkConsole",
            "CloseApp",
            "RunExitLadder",
            "ClearSocket",
            "ClearRuntime",
            "SweepMarked",
            "WaitReaped",
            "Finish"
        ]
    );
}

#[test]
fn a_spawned_or_absent_desktop_skips_what_it_never_had() {
    let spawned = TeardownPlan { close: None, instance: Some(Compositor::Spawned { signature: "sig" }) };
    assert_eq!(actions_of(&spawned), ["AskToExit", "ClearRuntime", "SweepMarked", "WaitReaped", "Finish"]);
    let absent = TeardownPlan { close: Some("0xapp"), instance: None };
    assert_eq!(actions_of(&absent), ["SweepMarked", "WaitReaped", "Finish"]);
}

#[test]
fn marked_processes_left_alive_refuse_the_teardown() {
    let plan = TeardownPlan { close: None, instance: None };
    let (state, action) = teardown_step(teardown_begin(&plan), TeardownEvent::Done);
    assert!(matches!(action, TeardownAction::SweepMarked));
    let (_, refused) = teardown_step(state, TeardownEvent::StillAlive("pid 9 survived SIGKILL".to_owned()));
    assert!(matches!(refused, TeardownAction::RefuseAlive(detail) if detail == "pid 9 survived SIGKILL"));
    let (_, stopped) = teardown_step(state, TeardownEvent::Failed(Error::NoSession));
    assert!(matches!(stopped, TeardownAction::Stop(Error::NoSession)));
}

#[test]
fn a_desktop_that_survives_the_ladder_refuses_the_teardown() {
    let ladder = Escalation { polite: 60, term: 60, kill: 60, poll: 5 };
    let label = marker().label();
    let mut state = SweepState { rung: None, signalled: Vec::new() };
    let mut elapsed = 0;
    let failure = loop {
        match sweep_step(&mut state, ladder, elapsed, &vec![31], &label) {
            SweepAction::GiveUp(failure) => break failure,
            SweepAction::Done => panic!("an immortal process was reported as swept"),
            _ => elapsed += ladder.poll,
        }
    };
    assert_eq!(failure.what, "agent desktop");
    assert!(failure.actual.contains("[31]"), "{}", failure.actual);
    assert!(failure.expected.contains("HYPRPILOT_AGENT_SESSION=alpha"), "{}", failure.expected);
    assert!(failure.expected.contains(&format!("HYPRPILOT_AGENT_INSTANCE={NONCE}")), "{}", failure.expected);
    let (_, refused) = teardown_step(
        hyprpilot::isolated::TeardownState {
            compositor: hyprpilot::isolated::CompositorKind::Live,
            close_app: false,
            stage: hyprpilot::isolated::TeardownStage::Swept,
        },
        TeardownEvent::StillAlive(failure.actual.clone()),
    );
    assert!(matches!(refused, TeardownAction::RefuseAlive(detail) if detail == failure.actual));
}
