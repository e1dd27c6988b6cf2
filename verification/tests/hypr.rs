use std::cell::RefCell;

use hyprpilot::error::Error;
use hyprpilot::hypr::{
    ActiveWorkspace, Client, Ctl, Monitor, ProcessOutput, WorkspaceRef, clients_on, dispatch_all, dispatch_on,
    headless_monitor_rule, layout_box, parse_active_window, parse_cursor_pos,
};

fn monitor(name: &str, x: i64, y: i64, width: i64, height: i64) -> Monitor {
    Monitor {
        id: 0,
        name: name.to_owned(),
        width,
        height,
        x,
        y,
        logical_width: width,
        logical_height: height,
        unit_scale: true,
        active_workspace: ActiveWorkspace { id: 1, name: "1".to_owned() },
        special_workspace: String::new(),
    }
}

fn client(address: &str) -> Client {
    Client {
        address: address.to_owned(),
        at: [5122, 28],
        size: [1596, 970],
        workspace: WorkspaceRef { name: "proto".to_owned() },
        floating: false,
        monitor: 1,
        class: String::new(),
        initial_class: String::new(),
        title: "PageCairn — Prototype visuel".to_owned(),
        initial_title: "PageCairn — Prototype visuel".to_owned(),
        pid: 7,
    }
}

#[test]
fn headless_monitor_rule_forces_scale_one() {
    assert_eq!(
        headless_monitor_rule("hyprpilot-alpha", 1920, 1080),
        "hyprpilot-alpha,1920x1080@60,auto,1"
    );
    assert_eq!(
        headless_monitor_rule("hyprpilot", 1600, 1000),
        "hyprpilot,1600x1000@60,auto,1"
    );
}

#[test]
fn parses_cursorpos_output() {
    assert_eq!(parse_cursor_pos("4652, 1066"), Some((4652, 1066)));
    assert_eq!(parse_cursor_pos("-10,20"), Some((-10, 20)));
    assert_eq!(parse_cursor_pos("garbage"), None);
}

#[test]
fn layout_box_fails_without_monitors() {
    assert!(layout_box(&[]).is_err());
}

#[test]
fn layout_box_bounds_every_monitor() {
    let layout = layout_box(&[
        monitor("DP-1", 0, 0, 5120, 1440),
        monitor("headless-ci", 5120, 0, 1600, 1000),
    ])
    .unwrap();
    assert_eq!((layout.x, layout.y, layout.width, layout.height), (0, 0, 6720, 1440));
    let layout = layout_box(&[monitor("left", -1920, 200, 1920, 1080), monitor("right", 0, 0, 100, 100)]).unwrap();
    assert_eq!((layout.x, layout.y, layout.width, layout.height), (-1920, 0, 2020, 1280));
}

#[test]
fn active_window_distinguishes_absent_from_broken() -> Result<(), Error> {
    let parse = |raw: String| -> Result<Client, String> {
        if raw.contains("\"address\"") {
            Ok(client("0x55785d1fb940"))
        } else {
            Err(format!("missing field `address` in {raw}"))
        }
    };
    assert!(matches!(parse_active_window(&parse, "Invalid"), Ok(None)));
    assert!(matches!(parse_active_window(&parse, "{}"), Ok(None)));
    assert!(matches!(parse_active_window(&parse, ""), Ok(None)));
    let broken = match parse_active_window(&parse, "{\"unexpected\": true}") {
        Err(error) => error.message(),
        Ok(found) => panic!("{found:?}"),
    };
    assert_eq!(
        broken,
        "parsing `hyprctl activewindow -j` output: invalid JSON: missing field `address` in {\"unexpected\": true}"
    );
    let parsed = parse_active_window(&parse, "{\"address\": \"0x55785d1fb940\"}\n")?
        .expect("expected a client");
    assert_eq!(parsed.address, "0x55785d1fb940");
    Ok(())
}

#[test]
fn a_query_is_addressed_to_its_compositor_and_decoded() {
    let asked = RefCell::new(Vec::new());
    let run = |argv: Vec<String>| -> Result<ProcessOutput, String> {
        asked.borrow_mut().push(argv);
        Ok(ProcessOutput { success: true, stdout: "[{}]".to_owned(), stderr: String::new() })
    };
    let parse = |raw: String| -> Result<Vec<Client>, String> {
        assert_eq!(raw, "[{}]");
        Ok(vec![client("0xabc")])
    };
    let found = clients_on(&run, &parse, Ctl::Instance("sig_1")).unwrap();
    assert_eq!(found[0].address, "0xabc");
    assert_eq!(*asked.borrow(), vec![vec!["-i", "sig_1", "clients", "-j"]]);

    let failing = |_: Vec<String>| -> Result<ProcessOutput, String> {
        Ok(ProcessOutput { success: false, stdout: String::new(), stderr: "no socket\n".to_owned() })
    };
    assert!(matches!(clients_on(&failing, &parse, Ctl::Host), Err(Error::Tool { .. })));
}

#[test]
fn a_dispatch_that_is_not_answered_ok_is_refused() {
    let answering = |reply: &'static str| {
        move |argv: Vec<String>| -> Result<ProcessOutput, String> {
            assert_eq!(argv, vec!["dispatch", "focuswindow", "address:0xabc"]);
            Ok(ProcessOutput { success: true, stdout: reply.to_owned(), stderr: String::new() })
        }
    };
    assert!(dispatch_on(&answering("ok\n"), Ctl::Host, &["focuswindow", "address:0xabc"]).is_ok());
    let error = match dispatch_on(&answering("No such window"), Ctl::Host, &["focuswindow", "address:0xabc"]) {
        Err(error) => error.message(),
        Ok(()) => panic!("a refused dispatch was accepted"),
    };
    assert!(error.contains("No such window"), "{error}");
}

#[test]
fn a_run_of_dispatchers_stops_at_the_first_refusal() {
    let asked = RefCell::new(Vec::new());
    let run = |argv: Vec<String>| -> Result<ProcessOutput, String> {
        let refuse = argv.iter().any(|a| a == "refuse");
        asked.borrow_mut().push(argv);
        let stdout = if refuse { "refused".to_owned() } else { "ok".to_owned() };
        Ok(ProcessOutput { success: true, stdout, stderr: String::new() })
    };
    let steps = vec![
        vec!["first".to_owned()],
        vec!["refuse".to_owned()],
        vec!["never".to_owned()],
    ];
    let mut runners = vec![&run; 3];
    assert!(dispatch_all(&mut runners, Ctl::Instance("sig"), &steps).is_err());
    assert_eq!(runners.len(), 1, "the step after the refusal never got a runner");
    assert_eq!(
        *asked.borrow(),
        vec![vec!["-i", "sig", "dispatch", "first"], vec!["-i", "sig", "dispatch", "refuse"]]
    );
    asked.borrow_mut().clear();
    assert!(dispatch_all(&mut vec![&run; 1], Ctl::Host, &steps[..1].to_vec()).is_ok());
    assert_eq!(*asked.borrow(), vec![vec!["dispatch", "first"]]);
}
