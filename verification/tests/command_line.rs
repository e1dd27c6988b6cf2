use hyprpilot::command_line::{Cli, Command, SessionCommand};
use hyprpilot::pointer::MouseButton;
use hyprpilot::session;
use hyprpilot::session::Disposition;

fn started_size(flags: &[&str]) -> (u32, u32) {
    let argv: Vec<&str> = ["hyprpilot", "session", "start"].into_iter().chain(flags.iter().copied()).collect();
    let Ok(Cli { command: Command::Session(SessionCommand::Start { size, .. }), .. }) = Cli::try_parse_from(&argv)
    else {
        panic!("session start did not parse");
    };
    session::parse_size(&size).unwrap()
}

#[test]
fn teardown_kill_and_close_conflict() {
    assert!(Cli::try_parse_from(&["hyprpilot", "teardown", "--kill", "--close"]).is_err());
}

#[test]
fn target_requires_at_least_one_selector() {
    assert!(Cli::try_parse_from(&["hyprpilot", "target"]).is_err());
    assert!(matches!(
        Cli::try_parse_from(&["hyprpilot", "target", "--untracked"]),
        Ok(Cli { command: Command::Target(_), .. })
    ));
}

#[test]
fn session_resize_parses_size_with_existing_parser() {
    let Ok(Cli { command: Command::Session(SessionCommand::Resize { size }), .. }) =
        Cli::try_parse_from(&["hyprpilot", "session", "resize", "1200x800"])
    else {
        panic!("session resize did not parse");
    };
    assert_eq!(session::parse_size(&size).unwrap(), (1200, 800));
}

#[test]
fn session_flag_parses_before_and_after_the_subcommand() {
    for args in [["hyprpilot", "--session", "alpha", "shot"], ["hyprpilot", "shot", "--session", "alpha"]] {
        let cli = Cli::try_parse_from(&args).unwrap();
        assert_eq!(cli.session.as_deref(), Some("alpha"), "{args:?}");
    }
    assert_eq!(Cli::try_parse_from(&["hyprpilot", "shot"]).unwrap().session, None);
}

#[test]
fn session_start_parses_isolated_flag() {
    let Ok(Cli { command: Command::Session(SessionCommand::Start { isolated, size, .. }), session }) =
        Cli::try_parse_from(&[
            "hyprpilot",
            "--session",
            "agent-1",
            "session",
            "start",
            "--isolated",
            "--app",
            "my-app",
            "--match-title",
            "My App",
        ])
    else {
        panic!("session start --isolated did not parse");
    };

    assert!(isolated);
    assert_eq!(session.as_deref(), Some("agent-1"));
    // An agent desktop defaults to 1920x1080, the shared output to
    // 1600x1000, and an explicit `--size` wins over both.
    assert_eq!(session::parse_size(&size).unwrap(), (1920, 1080));
    assert_eq!(started_size(&["--match-title", "T"]), (1600, 1000));
    assert_eq!(started_size(&["--isolated", "--match-title", "T", "--size", "800x600"]), (800, 600));
    assert!(
        !matches!(
            Cli::try_parse_from(&["hyprpilot", "session", "start", "--match-title", "T"]),
            Ok(Cli { command: Command::Session(SessionCommand::Start { isolated: true, .. }), .. })
        ),
        "shared start must not be isolated by default"
    );
}

#[test]
fn target_accepts_combined_selectors_wait_and_disposition() {
    assert!(matches!(
        Cli::try_parse_from(&[
            "hyprpilot",
            "target",
            "--address",
            "0xabc",
            "--match-title",
            "App",
            "--match-class",
            "app",
            "--pid",
            "42",
            "--untracked",
            "--wait",
            "5s",
            "--on-teardown",
            "close",
        ]),
        Ok(Cli { command: Command::Target(_), .. })
    ));
}

#[test]
fn action_commands_parse_focus_flag() {
    assert!(matches!(
        Cli::try_parse_from(&["hyprpilot", "key", "--focus", "Return"]),
        Ok(Cli { command: Command::Key { focus: true, .. }, .. })
    ));
    assert!(matches!(
        Cli::try_parse_from(&["hyprpilot", "type", "--focus", "text"]),
        Ok(Cli { command: Command::Type { focus: true, .. }, .. })
    ));
    assert!(matches!(
        Cli::try_parse_from(&["hyprpilot", "click", "--focus", "20", "20"]),
        Ok(Cli { command: Command::Click { focus: true, .. }, .. })
    ));
    assert!(matches!(
        Cli::try_parse_from(&["hyprpilot", "scroll", "--focus", "20", "20", "--dy", "1"]),
        Ok(Cli { command: Command::Scroll { focus: true, .. }, .. })
    ));
}

#[test]
fn session_show_and_hide_parse_with_the_session_flag_on_either_side() {
    for args in [["hyprpilot", "--session", "alpha", "session", "show"], ["hyprpilot", "session", "show", "--session", "alpha"]] {
        let cli = Cli::try_parse_from(&args).unwrap();
        assert_eq!(cli.session.as_deref(), Some("alpha"), "{args:?}");
        assert!(matches!(cli.command, Command::Session(SessionCommand::Show)), "{args:?}");
    }
    for args in [["hyprpilot", "--session", "beta", "session", "hide"], ["hyprpilot", "session", "hide", "--session", "beta"]] {
        let cli = Cli::try_parse_from(&args).unwrap();
        assert_eq!(cli.session.as_deref(), Some("beta"), "{args:?}");
        assert!(matches!(cli.command, Command::Session(SessionCommand::Hide)), "{args:?}");
    }
    // Neither takes an argument: a stray one is a parse error, not a session
    // name.
    assert!(Cli::try_parse_from(&["hyprpilot", "session", "show", "alpha"]).is_err());
    assert!(Cli::try_parse_from(&["hyprpilot", "session", "hide", "alpha"]).is_err());
}

#[test]
fn defaults_numbers_and_names_are_read_as_documented() {
    let Ok(Cli { command: Command::Key { keys, delay_ms, focus }, .. }) =
        Cli::try_parse_from(&["hyprpilot", "key", "Ctrl+c", "Down"])
    else {
        panic!("key did not parse");
    };
    assert_eq!(keys, ["Ctrl+c", "Down"]);
    assert_eq!((delay_ms, focus), (50, false));
    assert!(matches!(
        Cli::try_parse_from(&["hyprpilot", "type", "--delay-ms=7", "hi"]),
        Ok(Cli { command: Command::Type { delay_ms: 7, .. }, .. })
    ));
    assert!(matches!(
        Cli::try_parse_from(&["hyprpilot", "click", "-5", "12", "--button", "right", "--double"]),
        Ok(Cli { command: Command::Click { x: -5, y: 12, button: MouseButton::Right, double: true, .. }, .. })
    ));
    assert!(matches!(
        Cli::try_parse_from(&["hyprpilot", "scroll", "1", "2", "--dy", "-3"]),
        Ok(Cli { command: Command::Scroll { dy: -3, dx: 0, .. }, .. })
    ));
    assert!(matches!(
        Cli::try_parse_from(&["hyprpilot", "target", "--untracked", "--on-teardown", "restore"]),
        Ok(Cli { command: Command::Target(hyprpilot::command_line::TargetArgs { on_teardown: Some(Disposition::Restore), untracked: true, .. }), .. })
    ));
    let Ok(Cli { command: Command::Wait { stable, changed_from, timeout }, .. }) =
        Cli::try_parse_from(&["hyprpilot", "wait"])
    else {
        panic!("wait did not parse");
    };
    assert_eq!((stable, changed_from, timeout.as_str()), (false, None, "5s"));
    let Ok(Cli { command: Command::Type { text, .. }, .. }) = Cli::try_parse_from(&["hyprpilot", "type", "--", "--x"])
    else {
        panic!("type -- did not parse");
    };
    assert_eq!(text, "--x");
    assert!(matches!(Cli::try_parse_from(&["hyprpilot", "-h"]), Ok(Cli { command: Command::Help, .. })));
    assert!(matches!(Cli::try_parse_from(&["hyprpilot", "--version"]), Ok(Cli { command: Command::Version, .. })));
}

#[test]
fn malformed_command_lines_are_refused() {
    for args in [
        &["hyprpilot"][..],
        &["hyprpilot", "launch"],
        &["hyprpilot", "status", "extra"],
        &["hyprpilot", "status", "--focus"],
        &["hyprpilot", "key"],
        &["hyprpilot", "key", "a", "--delay-ms", "soon"],
        &["hyprpilot", "click", "1"],
        &["hyprpilot", "click", "1", "2", "--button", "side"],
        &["hyprpilot", "wait", "--stable", "--changed-from", "a.png"],
        &["hyprpilot", "target", "--pid", "x", "--untracked"],
        &["hyprpilot", "target", "--untracked", "--on-teardown", "keep"],
        &["hyprpilot", "--session", "a", "--session", "b", "shot"],
        &["hyprpilot", "shot", "--nope"],
        &["hyprpilot", "shot", "-x"],
        &["hyprpilot", "shot", "--out"],
        &["hyprpilot", "session", "resize"],
        &["hyprpilot", "session", "pause"],
    ] {
        assert!(Cli::try_parse_from(args).is_err(), "{args:?}");
    }
}

#[test]
fn the_help_command_asks_for_help_alone_or_about_a_command() {
    assert!(matches!(Cli::try_parse_from(&["hyprpilot", "help"]), Ok(Cli { command: Command::Help, .. })));
    assert!(matches!(Cli::try_parse_from(&["hyprpilot", "help", "key"]), Ok(Cli { command: Command::Help, .. })));
    assert!(matches!(
        Cli::try_parse_from(&["hyprpilot", "help", "session", "start"]),
        Ok(Cli { command: Command::Help, .. })
    ));
    assert!(Cli::try_parse_from(&["hyprpilot", "help", "bogus"]).is_err());
    assert!(Cli::try_parse_from(&["hyprpilot", "help", "--focus"]).is_err());
}

#[test]
fn negative_numbers_stand_as_words_only_for_click_and_scroll() {
    assert!(Cli::try_parse_from(&["hyprpilot", "key", "-5"]).is_err());
    assert!(Cli::try_parse_from(&["hyprpilot", "type", "-5"]).is_err());
    assert!(matches!(Cli::try_parse_from(&["hyprpilot", "type", "--", "-5"]), Ok(Cli { command: Command::Type { .. }, .. })));
    assert!(matches!(Cli::try_parse_from(&["hyprpilot", "click", "-5", "10"]), Ok(Cli { command: Command::Click { .. }, .. })));
    assert!(matches!(
        Cli::try_parse_from(&["hyprpilot", "scroll", "10", "-5", "--dy", "-3"]),
        Ok(Cli { command: Command::Scroll { .. }, .. })
    ));
}
