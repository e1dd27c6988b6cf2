use hyprpilot::error::Error;
use hyprpilot::hypr::{Client, Ctl, LayoutBox, ProcessOutput, WorkspaceRef};
use hyprpilot::pointer::{
    AgentTarget, Axis, MouseButton, Route, Seat, agent_seat_note, click_message, detent_plan,
    resolve_target, scroll_message, socket_path, verify_warp, warp_offset,
};
use hyprpilot::session::{Instance, Isolated};

const SIGNATURE: &str = "abcdef_1730000000";
const RUNTIME_DIR: &str = "/run/user/1000";

fn window() -> Client {
    Client {
        address: "0xabc".to_owned(),
        at: [100, 200],
        size: [800, 600],
        workspace: WorkspaceRef {
            name: "special:pilot".to_owned(),
        },
        floating: false,
        monitor: 0,
        class: String::new(),
        initial_class: String::new(),
        title: "App".to_owned(),
        initial_title: "App".to_owned(),
        pid: 1,
    }
}

fn live() -> Instance {
    Instance::Live {
        signature: SIGNATURE.to_owned(),
        wayland_display: "wayland-2".to_owned(),
        pid: 4242,
        console_address: "0xc0ff33".to_owned(),
    }
}

fn agent_state(instance: Instance, active_address: Option<&str>) -> Isolated {
    Isolated {
        output: "hyprpilot-alpha".to_owned(),
        workspace: "agent-alpha".to_owned(),
        size: [1600, 1000],
        instance_nonce: "4242-1700000000000000000".to_owned(),
        shown: false,
        active_address: active_address.map(str::to_owned),
        instance,
        host: Vec::new(),
    }
}

fn agent_route() -> Route {
    Route::Isolated {
        signature: SIGNATURE.to_owned(),
        socket: "/run/user/1000/wayland-2".to_owned(),
        window: window(),
    }
}

#[test]
fn the_agent_socket_sits_beside_the_users_own_in_the_runtime_dir() {
    assert_eq!(
        socket_path(RUNTIME_DIR, "wayland-2"),
        "/run/user/1000/wayland-2"
    );
}

#[test]
fn an_agent_target_carries_the_instance_signature_socket_and_window() -> Result<(), Error> {
    let state = agent_state(live(), Some("0xdead"));
    let target: AgentTarget = AgentTarget::resolve("alpha", &state, RUNTIME_DIR)?;
    assert_eq!(target.signature, SIGNATURE);
    assert_eq!(target.socket, "/run/user/1000/wayland-2");
    assert_eq!(target.address, "0xdead");
    Ok(())
}

#[test]
fn an_agent_desktop_pointer_is_created_on_its_own_socket_and_read_from_its_own_instance() {
    let route = agent_route();
    assert_eq!(route.seat(), Seat::Agent("/run/user/1000/wayland-2"));
    assert_eq!(route.ctl(), Ctl::Instance(SIGNATURE));

    let shared = Route::Shared { window: window() };
    assert_eq!(shared.seat(), Seat::User);
    assert_eq!(shared.ctl(), Ctl::Host);
}

#[test]
fn pointer_focus_is_a_no_op_on_an_agent_desktop_seat() {
    assert_eq!(agent_route().focus_address(true), None);
    assert_eq!(agent_route().focus_address(false), None);
    let shared = Route::Shared { window: window() };
    assert_eq!(shared.focus_address(true), Some("0xabc"));
    assert_eq!(shared.focus_address(false), None);
}

#[test]
fn pointer_a_pending_instance_is_refused_with_a_teardown_hint() {
    let state = agent_state(Instance::Pending, Some("0xdead"));
    let error = match AgentTarget::resolve("alpha", &state, RUNTIME_DIR) {
        Err(error) => error,
        Ok(target) => panic!("a pending instance has no seat to act on: {target:?}"),
    };
    assert!(
        matches!(&error, Error::Invalid { what, .. } if what == "agent desktop"),
        "{error:?}"
    );
    let message = error.message();
    assert!(message.contains("never spawned"), "{message}");
    assert!(message.contains("--session alpha teardown"), "{message}");
}

#[test]
fn a_live_instance_without_a_tracked_window_is_refused() {
    let state = agent_state(live(), None);
    let error = match AgentTarget::resolve("alpha", &state, RUNTIME_DIR) {
        Err(error) => error,
        Ok(target) => panic!("no window address means no target: {target:?}"),
    };
    let message = error.message();
    assert!(message.contains("no window is tracked"), "{message}");
    assert!(message.contains("--session alpha teardown"), "{message}");
}

#[test]
fn resolve_target_offsets_relative_coordinates_by_window_position() {
    assert_eq!(
        resolve_target(&window(), 10, 20, false).unwrap(),
        (110, 220)
    );
    assert_eq!(resolve_target(&window(), 0, 0, false).unwrap(), (100, 200));
    assert_eq!(
        resolve_target(&window(), 799, 599, false).unwrap(),
        (899, 799)
    );
}

#[test]
fn resolve_target_passes_absolute_coordinates_through_unchecked() {
    assert_eq!(
        resolve_target(&window(), 5000, -3, true).unwrap(),
        (5000, -3)
    );
}

#[test]
fn resolve_target_rejects_relative_coordinates_outside_the_window() {
    for (x, y) in [(-1, 0), (0, -1), (800, 0), (0, 600)] {
        assert!(matches!(
            resolve_target(&window(), x, y, false),
            Err(Error::Invalid { .. })
        ));
    }
}

#[test]
fn detent_plan_rejects_zero_detents() {
    assert!(matches!(detent_plan(0, 0), Err(Error::Invalid { .. })));
    let message = match detent_plan(0, 0) {
        Err(error) => error.message(),
        Ok(plan) => panic!("{plan:?}"),
    };
    assert_eq!(
        message,
        "invalid scroll amount `dy 0, dx 0` — at least one wheel detent is required (positive = down/right)"
    );
}

#[test]
fn detent_plan_emits_one_entry_per_detent_with_the_sign_carried() {
    let plan = detent_plan(0, 2).unwrap();
    assert_eq!(
        plan,
        vec![(Axis::VerticalScroll, 1), (Axis::VerticalScroll, 1)]
    );
    let plan = detent_plan(-1, 0).unwrap();
    assert_eq!(plan, vec![(Axis::HorizontalScroll, -1)]);
}

#[test]
fn detent_plan_orders_vertical_before_horizontal() {
    let plan = detent_plan(1, -2).unwrap();
    assert_eq!(
        plan,
        vec![
            (Axis::VerticalScroll, -1),
            (Axis::VerticalScroll, -1),
            (Axis::HorizontalScroll, 1),
        ]
    );
}

#[test]
fn a_scroll_has_as_many_entries_as_detents_asked_for() {
    let plan = detent_plan(-3, 4).unwrap();
    assert_eq!(plan.len(), 7);
    assert!(plan[..4].iter().all(|entry| *entry == (Axis::VerticalScroll, 1)));
    assert!(plan[4..].iter().all(|entry| *entry == (Axis::HorizontalScroll, -1)));
}

#[test]
fn a_warp_lands_relative_to_the_layout_origin() {
    let layout = LayoutBox { x: -1920, y: 0, width: 3840, height: 1080 };
    assert_eq!(warp_offset(&layout, 0, 10).unwrap(), (1920, 10));
    assert_eq!(warp_offset(&layout, 1920, 1080).unwrap(), (3840, 1080));
    let message = match warp_offset(&layout, -1921, 0) {
        Err(error) => error.message(),
        Ok(offset) => panic!("{offset:?}"),
    };
    assert_eq!(message, "invalid target `(-1921, 0)` — outside the monitor layout");
}

#[test]
fn a_warp_is_checked_against_the_cursor_the_compositor_reports() {
    let at = |reply: &'static str| {
        move |argv: Vec<String>| -> Result<ProcessOutput, String> {
            assert_eq!(argv, vec!["-i", SIGNATURE, "cursorpos"]);
            Ok(ProcessOutput { success: true, stdout: reply.to_owned(), stderr: String::new() })
        }
    };
    assert!(verify_warp(&at("110, 220\n"), Ctl::Instance(SIGNATURE), 110, 220).is_ok());
    let message = match verify_warp(&at("300, 220\n"), Ctl::Instance(SIGNATURE), 110, 220) {
        Err(error) => error.message(),
        Ok(()) => panic!("a warp that landed elsewhere was accepted"),
    };
    assert_eq!(
        message,
        "virtual pointer: warp landed at (300, 220) instead of (110, 220) — absolute motion mapping mismatch"
    );
}

#[test]
fn what_a_pointer_action_reports() {
    assert_eq!(
        click_message(false, MouseButton::Left, 110, 220, "cursor restored to (5, 6), focus unchanged"),
        "clicked left at (110, 220) — cursor restored to (5, 6), focus unchanged"
    );
    assert_eq!(
        click_message(true, MouseButton::Right, 1, 2, "n"),
        "double-clicked right at (1, 2) — n"
    );
    assert_eq!(
        scroll_message(-1, 3, 7, 8, "n"),
        "scrolled dy 3, dx -1 at (7, 8) — n"
    );
    assert_eq!(scroll_message(2, 0, 7, 8, "n"), "scrolled dx 2 at (7, 8) — n");
    assert_eq!(
        agent_seat_note(110, 220),
        "cursor left at (110, 220) on the agent desktop seat"
    );
    assert_eq!(MouseButton::Left.code(), 0x110);
    assert_eq!(MouseButton::Middle.label(), "middle");
}
