use hyprpilot::error::Error;
use hyprpilot::hypr::{Client, Ctl, ProcessOutput, WorkspaceRef};
use hyprpilot::keys::{Chord, Modifier, Route, char_to_keysym, parse_chord, shortcut_arg};
use hyprpilot::session::{Instance, Isolated};

const SIGNATURE: &str = "beef_1700000000_123";

fn live() -> Instance {
    Instance::Live {
        signature: SIGNATURE.to_owned(),
        wayland_display: "wayland-3".to_owned(),
        pid: 4242,
        console_address: "0xc0ff33".to_owned(),
    }
}

fn agent_state(instance: Instance, active_address: Option<&str>) -> Isolated {
    Isolated {
        output: "hyprpilot-alpha".to_owned(),
        workspace: "agent-alpha".to_owned(),
        size: [1600, 1000],
        instance_nonce: "4242-1700000000000000000".to_owned(),
        shown: false,
        active_address: active_address.map(str::to_owned),
        instance,
        host: Vec::new(),
    }
}

fn agent_route() -> Route {
    Route::Isolated {
        signature: SIGNATURE.to_owned(),
        address: "0xdead".to_owned(),
    }
}

fn shared_route() -> Route {
    Route::Shared {
        address: "0xabc".to_owned(),
    }
}

fn unused_run(_: Vec<String>) -> Result<ProcessOutput, String> {
    Err("no compositor may be asked".to_owned())
}

fn unused_parse(_: String) -> Result<Vec<Client>, String> {
    Err("no reply may be parsed".to_owned())
}

fn client(address: &str) -> Client {
    Client {
        address: address.to_owned(),
        at: [0, 0],
        size: [800, 600],
        workspace: WorkspaceRef { name: "1".to_owned() },
        floating: false,
        monitor: 0,
        class: "app".to_owned(),
        initial_class: "app".to_owned(),
        title: "App".to_owned(),
        initial_title: "App".to_owned(),
        pid: 77,
    }
}

#[test]
fn an_agent_desktop_chord_is_addressed_to_its_instance_never_the_host() -> Result<(), Error> {
    let route = agent_route();
    assert_eq!(route.ctl(), Ctl::Instance(SIGNATURE));
    assert_eq!(
        shortcut_arg(&parse_chord("Ctrl+Shift+a")?, route.address()),
        "CTRL SHIFT,a,address:0xdead"
    );
    assert_eq!(
        shortcut_arg(&parse_chord("Return")?, route.address()),
        ",Return,address:0xdead"
    );
    assert_eq!(shared_route().ctl(), Ctl::Host);
    Ok(())
}

#[test]
fn keys_focus_is_a_no_op_on_an_agent_desktop_seat() {
    assert!(!agent_route().guarded(true));
    assert!(!agent_route().guarded(false));
    assert!(shared_route().guarded(true));
    assert!(!shared_route().guarded(false));
}

#[test]
fn output_names_the_instance_an_agent_desktop_window_lives_in() {
    assert_eq!(
        agent_route().target(),
        format!("0xdead in agent desktop instance {SIGNATURE}")
    );
    assert_eq!(shared_route().target(), "0xabc");
}

#[test]
fn keys_a_pending_instance_is_refused_with_a_teardown_hint() {
    let state = agent_state(Instance::Pending, Some("0xdead"));
    let error = match Route::agent(&unused_run, &unused_parse, &|_: u32| true, "alpha", &state) {
        Err(error) => error,
        Ok(route) => panic!("a pending instance has no compositor to send to: {route:?}"),
    };
    assert!(
        matches!(error, Error::AgentDesktopUnready { .. }),
        "{error:?}"
    );
    let message = error.message();
    assert!(message.contains("never spawned"), "{message}");
    assert!(message.contains("--session alpha teardown"), "{message}");
}

#[test]
fn a_dead_instance_is_refused_instead_of_reaching_the_host() {
    let state = agent_state(live(), Some("0xdead"));
    let error = match Route::agent(&unused_run, &unused_parse, &|_: u32| false, "alpha", &state) {
        Err(error) => error,
        Ok(route) => panic!("a dead instance has no compositor to send chords to: {route:?}"),
    };
    assert!(matches!(error, Error::AgentDesktopDead { .. }), "{error:?}");
    let message = error.message();
    assert!(message.contains("is dead"), "{message}");
    assert!(message.contains("--session alpha teardown"), "{message}");
}

#[test]
fn a_live_instance_routes_to_its_recorded_window_when_it_is_still_mapped() {
    let state = agent_state(live(), Some("0xdead"));
    let asked = std::cell::RefCell::new(Vec::new());
    let run = |argv: Vec<String>| -> Result<ProcessOutput, String> {
        asked.borrow_mut().push(argv);
        Ok(ProcessOutput { success: true, stdout: "[]".to_owned(), stderr: String::new() })
    };
    let parse = |_: String| -> Result<Vec<Client>, String> { Ok(vec![client("0xbeef"), client("0xdead")]) };
    let route = match Route::agent(&run, &parse, &|_: u32| true, "alpha", &state) {
        Ok(route) => route,
        Err(error) => panic!("a live instance with its window was refused: {error:?}"),
    };
    assert_eq!(route, agent_route());
    {
        let argv = asked.borrow();
        assert_eq!(argv.len(), 1);
        assert_eq!(argv[0], vec!["-i", SIGNATURE, "clients", "-j"]);
    }

    let gone = |_: String| -> Result<Vec<Client>, String> { Ok(vec![client("0xbeef")]) };
    let error = match Route::agent(&run, &gone, &|_: u32| true, "alpha", &state) {
        Err(error) => error,
        Ok(route) => panic!("a window no longer mapped was routed to: {route:?}"),
    };
    assert!(matches!(&error, Error::WindowGone(address) if address == "0xdead"), "{error:?}");
}

#[test]
fn every_printable_ascii_char_is_mapped() {
    for code in 0x20..=0x7Eu8 {
        let c = char::from(code);
        assert!(
            char_to_keysym(c).is_ok(),
            "printable ASCII {c:?} must be mapped"
        );
    }
}

#[test]
fn letters_map_with_shift_for_uppercase() -> Result<(), Error> {
    assert_eq!(char_to_keysym('a')?, (false, "a"));
    assert_eq!(char_to_keysym('z')?, (false, "z"));
    assert_eq!(char_to_keysym('A')?, (true, "a"));
    assert_eq!(char_to_keysym('Z')?, (true, "z"));
    Ok(())
}

#[test]
fn digits_and_us_shift_pairs() -> Result<(), Error> {
    assert_eq!(char_to_keysym('7')?, (false, "7"));
    assert_eq!(char_to_keysym('!')?, (true, "1"));
    assert_eq!(char_to_keysym('?')?, (true, "slash"));
    assert_eq!(char_to_keysym(':')?, (true, "semicolon"));
    assert_eq!(char_to_keysym('"')?, (true, "apostrophe"));
    assert_eq!(char_to_keysym('~')?, (true, "grave"));
    assert_eq!(char_to_keysym('.')?, (false, "period"));
    assert_eq!(char_to_keysym(' ')?, (false, "space"));
    Ok(())
}

#[test]
fn french_accents_map_to_their_keysym() -> Result<(), Error> {
    assert_eq!(char_to_keysym('é')?, (false, "eacute"));
    assert_eq!(char_to_keysym('ç')?, (false, "ccedilla"));
    assert_eq!(char_to_keysym('œ')?, (false, "oe"));
    Ok(())
}

#[test]
fn unmapped_characters_error_clearly() {
    assert!(matches!(char_to_keysym('€'), Err(Error::UnmappedChar('€'))));
    assert!(matches!(char_to_keysym('É'), Err(Error::UnmappedChar('É'))));
    let message = match char_to_keysym('€') {
        Err(error) => error.message(),
        Ok(pair) => panic!("{pair:?}"),
    };
    assert_eq!(
        message,
        "character '€' has no keysym mapping — send it as a raw keysym with `hyprpilot key <keysym>`"
    );
}

#[test]
fn parses_plain_and_modified_chords() -> Result<(), Error> {
    assert_eq!(
        parse_chord("a")?,
        Chord {
            mods: vec![],
            keysym: "a".to_owned()
        }
    );
    assert_eq!(
        parse_chord("Down")?,
        Chord {
            mods: vec![],
            keysym: "Down".to_owned()
        }
    );
    assert_eq!(
        parse_chord("Ctrl+c")?,
        Chord {
            mods: vec![Modifier::Ctrl],
            keysym: "c".to_owned()
        }
    );
    assert_eq!(
        parse_chord("ctrl+shift+Escape")?,
        Chord {
            mods: vec![Modifier::Ctrl, Modifier::Shift],
            keysym: "Escape".to_owned()
        }
    );
    Ok(())
}

#[test]
fn single_char_chords_go_through_the_table() -> Result<(), Error> {
    assert_eq!(
        parse_chord("Ctrl+A")?,
        Chord {
            mods: vec![Modifier::Ctrl, Modifier::Shift],
            keysym: "a".to_owned()
        }
    );
    assert_eq!(
        parse_chord("!")?,
        Chord {
            mods: vec![Modifier::Shift],
            keysym: "1".to_owned()
        }
    );
    Ok(())
}

#[test]
fn rejects_malformed_chords() {
    assert!(parse_chord("").is_err());
    assert!(parse_chord("Bogus+a").is_err());
    assert!(parse_chord("Ctrl+").is_err());
    assert!(parse_chord("Ctrl++").is_err());
}

#[test]
fn an_unmapped_character_is_quoted_with_std_escapes() {
    let control = Error::UnmappedChar('\u{1}').message();
    assert!(control.contains("'\\u{1}'"), "{control}");
    let quote = Error::UnmappedChar('\'').message();
    assert!(quote.contains("'\\''"), "{quote}");
    let euro = Error::UnmappedChar('€').message();
    assert!(euro.contains("'€'"), "{euro}");
}

#[test]
fn a_key_plan_holds_one_shortcut_per_chord_and_nothing_when_a_chord_is_bad() {
    let route = Route::Shared { address: "0xabc".to_owned() };
    let plan = hyprpilot::keys::send_keys(&route, &vec!["Ctrl+c".to_owned(), "Return".to_owned()]).unwrap();
    assert_eq!(plan.shortcuts, ["CTRL,c,address:0xabc", ",Return,address:0xabc"]);
    assert_eq!(plan.message, "sent 2 key(s) to 0xabc");
    match hyprpilot::keys::send_keys(&route, &vec!["a".to_owned(), "Bogus+a".to_owned(), "€".to_owned()]) {
        Err(Error::InvalidChord(raw)) => assert_eq!(raw, "Bogus+a"),
        other => panic!("{other:?}"),
    }
}

#[test]
fn a_typing_plan_shifts_where_the_table_says_and_stops_at_the_first_unmapped_character() {
    let route = Route::Shared { address: "0xabc".to_owned() };
    let plan = hyprpilot::keys::type_text(&route, "aB").unwrap();
    assert_eq!(plan.shortcuts, [",a,address:0xabc", "SHIFT,b,address:0xabc"]);
    assert_eq!(plan.message, "typed 2 character(s) into 0xabc");
    assert!(matches!(hyprpilot::keys::type_text(&route, "a€É"), Err(Error::UnmappedChar('€'))));
}
