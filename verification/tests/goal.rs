use hyprpilot::goal::{
    owned_by_user, owned_by_user_or_root, real_directory, still_resolves, config_from, payload_unchanged, MAX_STDIN_BYTES, OwnerExpectation, SudoIdentity, parse_env_id, parse_flags, read_payload,
    success_output, sudo_identity, target_path, validate_slug, verify_target,
};

/// What reading at most `limit` bytes of `data` hands back, as `take` does.
fn reading(data: Vec<u8>) -> impl FnOnce(usize) -> Result<Vec<u8>, String> {
    move |limit: usize| Ok(data.into_iter().take(limit).collect())
}

fn args(list: &[&str]) -> Vec<Option<String>> {
    list.iter().map(|a| Some((*a).to_owned())).collect()
}

#[test]
fn accepts_valid_slug() {
    assert!(validate_slug("improve-goalify_1.2").is_ok());
}

#[test]
fn rejects_invalid_slugs() {
    for slug in [
        "",
        ".hidden",
        "bad slug",
        "bad/slug",
        "bad..slug",
        "bad.md",
        "Échec",
    ] {
        assert!(validate_slug(slug).is_err(), "{slug}");
    }
}

#[test]
fn rejects_relative_root() {
    let result = parse_flags(&args(&["--root", "relative", "--slug", "x"]));
    assert_eq!(result, Err("--root must be an absolute path".to_owned()));
}

#[test]
fn flags_are_read_in_any_order_and_unknown_ones_refused() {
    assert_eq!(
        parse_flags(&args(&["--slug", "audit", "--root", "/tmp/work"])),
        Ok((Some("/tmp/work".to_owned()), Some("audit".to_owned())))
    );
    assert_eq!(parse_flags(&args(&[])), Ok((None, None)));
    assert_eq!(
        parse_flags(&args(&["--bogus"])),
        Err("unknown argument: --bogus".to_owned())
    );
    assert_eq!(
        parse_flags(&args(&["--slug"])),
        Err("--slug requires a value".to_owned())
    );
    assert_eq!(
        parse_flags(&vec![None]),
        Err("arguments must be valid UTF-8".to_owned())
    );
    assert_eq!(
        parse_flags(&args(&["-h"])),
        Err("usage: codex-goal [--root /absolute/root] --slug <slug>".to_owned())
    );
}

#[test]
fn reads_non_empty_payload() {
    assert_eq!(
        read_payload(reading(b"Objective:\nDo it.\n".to_vec())),
        Ok("Objective:\nDo it.\n".to_owned())
    );
}

#[test]
fn rejects_empty_payload() {
    assert!(read_payload(reading(b" \n\t".to_vec())).is_err());
}

#[test]
fn rejects_oversized_payload() {
    let data = vec![b'a'; MAX_STDIN_BYTES + 1];
    assert_eq!(
        read_payload(reading(data)),
        Err("stdin payload exceeds 256 KiB".to_owned())
    );
    let exactly = vec![b'a'; MAX_STDIN_BYTES];
    assert!(read_payload(reading(exactly)).is_ok());
}

#[test]
fn rejects_a_payload_that_is_not_utf8() {
    assert_eq!(
        read_payload(reading(vec![0x66, 0xff, 0x6f])),
        Err("stdin must be UTF-8".to_owned())
    );
    assert_eq!(
        read_payload(|_: usize| -> Result<Vec<u8>, String> { Err("broken pipe".to_owned()) }),
        Err("failed to read stdin: broken pipe".to_owned())
    );
}

#[test]
fn builds_target_path() {
    assert_eq!(
        target_path("/tmp/work", "audit"),
        "/tmp/work/.codex/goals/audit.md"
    );
}

#[test]
fn a_written_goal_must_be_a_read_only_regular_file_of_its_owner() {
    let user = OwnerExpectation::User(SudoIdentity { uid: 1000, gid: 1000 });
    assert!(verify_target(0o100444, 1000, 1000, "/t", user).is_ok());
    assert_eq!(
        verify_target(0o040444, 1000, 1000, "/t", user),
        Err("target is not a regular file: /t".to_owned())
    );
    assert_eq!(
        verify_target(0o100444, 0, 0, "/t", user),
        Err("target owner mismatch: /t".to_owned())
    );
    assert_eq!(
        verify_target(0o100644, 1000, 1000, "/t", user),
        Err("target mode is not 0444: /t".to_owned())
    );
    assert!(verify_target(0o100444, 0, 0, "/t", OwnerExpectation::Root).is_ok());
}

#[test]
fn the_sudo_identity_comes_from_the_environment() {
    assert_eq!(parse_env_id("SUDO_UID", Some("1000")), Ok(1000));
    assert_eq!(
        parse_env_id("SUDO_UID", None),
        Err("SUDO_UID is required".to_owned())
    );
    assert_eq!(
        parse_env_id("SUDO_UID", Some("")),
        Err("SUDO_UID must not be empty".to_owned())
    );
    assert_eq!(
        parse_env_id("SUDO_GID", Some("x1")),
        Err("SUDO_GID must be a decimal uid/gid".to_owned())
    );
    assert_eq!(
        sudo_identity(0, Ok(1000), Ok(100)),
        Ok(SudoIdentity { uid: 1000, gid: 100 })
    );
    assert_eq!(
        sudo_identity(1000, Ok(1000), Ok(100)),
        Err("must be run as root via sudo".to_owned())
    );
    assert_eq!(
        sudo_identity(0, Ok(0), Ok(100)),
        Err("SUDO_UID and SUDO_GID must identify a non-root user".to_owned())
    );
}

#[test]
fn the_success_message_names_the_goal_relative_to_the_root() {
    assert_eq!(
        success_output("/tmp/work", "/tmp/work/.codex/goals/audit.md"),
        Ok("Wrote: .codex/goals/audit.md\nProtected: immutable\n\nUsage:\n/goal .codex/goals/audit.md\n".to_owned())
    );
    assert_eq!(
        success_output("/tmp/other", "/tmp/work/.codex/goals/audit.md"),
        Err("failed to make relative output path: prefix not found".to_owned())
    );
}

#[test]
fn the_root_has_to_be_the_working_directory_and_a_slug_is_required() {
    let config = config_from("/work".to_owned(), "/work", Some("audit".to_owned())).unwrap();
    assert_eq!(config.root, "/work");
    assert_eq!(config.slug, "audit");
    assert_eq!(
        config_from("/work".to_owned(), "/elsewhere", Some("audit".to_owned())).err(),
        Some("--root must match the current working directory".to_owned())
    );
    assert_eq!(config_from("/work".to_owned(), "/work", None).err(), Some("--slug is required".to_owned()));
}

#[test]
fn a_goal_read_back_has_to_be_exactly_the_payload() {
    assert!(payload_unchanged(b"goal", false, b"goal", "/w/.codex/goals/a.md").is_ok());
    assert_eq!(
        payload_unchanged(b"goal", true, b"goal", "/w/.codex/goals/a.md").err(),
        Some("payload changed before immutable protection: /w/.codex/goals/a.md".to_owned())
    );
    assert!(payload_unchanged(b"gaol", false, b"goal", "t").is_err());
    assert!(payload_unchanged(b"goa", false, b"goal", "t").is_err());
}

#[test]
fn flags_keep_their_last_value_and_stop_at_the_first_refusal() {
    assert_eq!(
        parse_flags(&args(&["--slug", "a", "--slug", "b"])),
        Ok((None, Some("b".to_owned())))
    );
    assert_eq!(
        parse_flags(&args(&["--slug", "Bad", "--bogus"])),
        Err("slug must start with a lowercase ASCII letter or digit".to_owned())
    );
    assert_eq!(parse_flags(&args(&["--root"])), Err("--root requires an absolute path".to_owned()));
    assert_eq!(
        parse_flags(&vec![Some("--slug".to_owned()), None]),
        Err("--slug must be valid UTF-8".to_owned())
    );
}

#[test]
fn ownership_checks_name_the_directory_they_refuse() {
    let me = SudoIdentity { uid: 1000, gid: 1000 };
    assert!(owned_by_user(1000, 1000, me, "goals directory").is_ok());
    assert_eq!(
        owned_by_user(1000, 0, me, "goals directory").unwrap_err(),
        "goals directory must be owned by the invoking user"
    );
    assert!(owned_by_user_or_root(0, 0, me, "home").is_ok());
    assert!(owned_by_user_or_root(1000, 1000, me, "home").is_ok());
    assert_eq!(
        owned_by_user_or_root(0, 1000, me, "home").unwrap_err(),
        "home must be owned by root or the invoking user"
    );
}

#[test]
fn only_a_real_directory_passes() {
    assert!(real_directory(false, true, "goals directory", "/w/.codex/goals").is_ok());
    assert_eq!(
        real_directory(true, true, "goals directory", "/w/.codex/goals").unwrap_err(),
        "goals directory must not be a symlink: /w/.codex/goals"
    );
    assert_eq!(
        real_directory(false, false, "goals directory", "/w/.codex/goals").unwrap_err(),
        "goals directory must be a directory: /w/.codex/goals"
    );
}

#[test]
fn a_directory_that_moved_is_refused() {
    assert!(still_resolves((1, 2), (1, 2), "workspace").is_ok());
    assert_eq!(
        still_resolves((1, 2), (1, 3), "workspace").unwrap_err(),
        "workspace changed while codex-goal was running"
    );
}
