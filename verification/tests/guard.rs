use std::cell::RefCell;

use hyprpilot::error::{Error, RestoreFailure};
use hyprpilot::guard::{RestoreReadings, RestoreStep, Snapshot, restore, restore_plan, run_with};

fn failure(what: &str, expected: &str, actual: &str) -> RestoreFailure {
    RestoreFailure { what: what.to_owned(), expected: expected.to_owned(), actual: actual.to_owned() }
}

#[test]
fn guarded_display_reports_action_failure_alone() {
    let error = Error::Guarded { action: Some(Box::new(Error::Pointer("click failed".to_owned()))), restore: Vec::new() };
    assert_eq!(error.message(), "action failed: virtual pointer: click failed");
}

#[test]
fn guarded_display_reports_restoration_failure_alone() {
    let error = Error::Guarded { action: None, restore: vec![failure("cursor", "(10, 20)", "(12, 20)")] };
    assert_eq!(
        error.message(),
        "action executed but desktop invariant violated\n\
         restoration failed:\n\
         - cursor: expected (10, 20), actual (12, 20)"
    );
}

#[test]
fn guarded_display_reports_action_and_restoration_failures_together() {
    let error = Error::Guarded {
        action: Some(Box::new(Error::Pointer("scroll failed".to_owned()))),
        restore: vec![
            failure("focus", "address:0xabc", "address:0xdef"),
            failure("cursor", "(10, 20)", "(14, 25)"),
        ],
    };
    assert_eq!(
        error.message(),
        "action failed: virtual pointer: scroll failed\n\
         restoration failed:\n\
         - focus: expected address:0xabc, actual address:0xdef\n\
         - cursor: expected (10, 20), actual (14, 25)"
    );
}

#[test]
fn guarded_display_reports_unrestorable_prior_no_focus_state() {
    let error = Error::Guarded {
        action: None,
        restore: vec![failure("focus", "no focused window", "address:0xabc; cannot restore prior no-focus state")],
    };
    assert_eq!(
        error.message(),
        "action executed but desktop invariant violated\n\
         restoration failed:\n\
         - focus: expected no focused window, actual address:0xabc; \
         cannot restore prior no-focus state"
    );
}

#[test]
fn guard_composes_snapshot_focus_action_and_restore_in_order() {
    let calls = RefCell::new(Vec::new());

    let result = run_with(
        || {
            calls.borrow_mut().push("snapshot");
            Ok::<_, ()>("desktop")
        },
        || {
            calls.borrow_mut().push("prepare");
            Ok::<_, ()>("target")
        },
        || {
            calls.borrow_mut().push("focus");
            Ok(())
        },
        |target| {
            assert_eq!(*target, "target");
            calls.borrow_mut().push("action");
            Ok(())
        },
        |desktop, target, action| {
            assert_eq!(desktop, "desktop");
            assert_eq!(*target, "target");
            assert_eq!(action, Ok(()));
            calls.borrow_mut().push("restore");
            Ok(("restored".to_owned(), String::new()))
        },
    );

    assert_eq!(result, Ok(("restored".to_owned(), String::new())));
    assert_eq!(calls.into_inner(), ["snapshot", "prepare", "focus", "action", "restore"]);
}

#[test]
fn a_failed_focus_skips_the_action_but_still_restores() {
    let calls = RefCell::new(Vec::new());
    let result = run_with(
        || Ok::<_, &str>("desktop"),
        || Ok::<_, &str>("target"),
        || Err("focus refused"),
        |_| {
            calls.borrow_mut().push("action");
            Ok(())
        },
        |_, _, action| {
            calls.borrow_mut().push("restore");
            assert_eq!(action, Err("focus refused"));
            Ok((String::new(), String::new()))
        },
    );
    assert!(result.is_ok());
    assert_eq!(calls.into_inner(), ["restore"]);
}

#[test]
fn restoring_a_desktop_without_prior_focus_reads_focus_and_cursor_and_nothing_else() {
    let handed = RefCell::new(Vec::new());
    let perform = |plan: Vec<RestoreStep>| -> RestoreReadings {
        handed.borrow_mut().extend(plan);
        RestoreReadings { focus_restore: Ok(()), cursor_restore: Ok(()), focus: Ok(None), cursor: Ok((10, 20)) }
    };
    let r = restore(perform, Snapshot { cursor: (10, 20), focus: None }, Ok(()));
    assert_eq!(r.unwrap(), ("cursor restored to (10, 20)".to_owned(), "no previous focus to restore".to_owned()));
    let handed = handed.into_inner();
    assert_eq!(handed.len(), 3);
    assert!(matches!(handed[0], RestoreStep::Cursor((10, 20))));
    assert!(matches!(handed[1], RestoreStep::ReadFocus));
    assert!(matches!(handed[2], RestoreStep::ReadCursor));
}

#[test]
fn the_prior_focus_goes_back_before_the_cursor_and_the_reads_come_last() {
    let plan = restore_plan(&Snapshot { cursor: (3, 4), focus: Some("0xabc".to_owned()) });
    assert_eq!(plan.len(), 4);
    assert!(matches!(&plan[0], RestoreStep::Focus(address) if address == "0xabc"));
    assert!(matches!(plan[1], RestoreStep::Cursor((3, 4))));
    assert!(matches!(plan[2], RestoreStep::ReadFocus));
    assert!(matches!(plan[3], RestoreStep::ReadCursor));
}

#[test]
fn a_cursor_that_lands_off_target_is_reported_though_the_action_worked() {
    let perform = |_: Vec<RestoreStep>| RestoreReadings {
        focus_restore: Ok(()),
        cursor_restore: Ok(()),
        focus: Ok(None),
        cursor: Ok((12, 20)),
    };
    let r = restore(perform, Snapshot { cursor: (10, 20), focus: None }, Ok(()));
    let message = r.unwrap_err().message();
    assert_eq!(
        message,
        "action executed but desktop invariant violated\n\
         restoration failed:\n\
         - cursor: expected (10, 20), actual (12, 20)"
    );
}
