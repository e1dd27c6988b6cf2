use std::cell::RefCell;

use hyprpilot::error::Error;
use hyprpilot::host::ledger::{
    HostMutation, RELOAD, Undo, UndoEffects, UndoPhase, before_the_output, unwind,
};
use hyprpilot::host::{
    holds_rule, move_workspace_to_monitor, output_create_headless, rename_workspace,
    workspace_rule, workspace_rule_is_posted,
};
use hyprpilot::hypr::{ProcessOutput, WorkspaceRule};
use hyprpilot::session::OutputRemoval;

fn every_mutation() -> Vec<HostMutation> {
    vec![
        HostMutation::OutputCreated {
            output: "hyprpilot-alpha".to_owned(),
        },
        HostMutation::MonitorRuleSet {
            rule: "hyprpilot-alpha,1600x1000@60,auto,1".to_owned(),
        },
        HostMutation::WorkspaceRuleSet {
            rule: "agent-alpha, monitor:hyprpilot-alpha".to_owned(),
        },
        HostMutation::WorkspaceRenamed {
            id: 3,
            from: "3".to_owned(),
            to: "agent-alpha".to_owned(),
        },
        HostMutation::WorkspaceMovedToMonitor {
            workspace: "4".to_owned(),
            from: "hyprpilot".to_owned(),
        },
    ]
}

fn kind(mutation: &HostMutation) -> &'static str {
    match mutation {
        HostMutation::OutputCreated { .. } => "output_created",
        HostMutation::MonitorRuleSet { .. } => "monitor_rule_set",
        HostMutation::WorkspaceRuleSet { .. } => "workspace_rule_set",
        HostMutation::WorkspaceRenamed { .. } => "workspace_renamed",
        HostMutation::WorkspaceMovedToMonitor { .. } => "workspace_moved_to_monitor",
    }
}

/// Records what an undo asked the compositor to do, and answers `ok`.
#[derive(Default)]
struct Recorder {
    dispatched: RefCell<Vec<Vec<String>>>,
    removed: RefCell<Vec<String>>,
}

impl Recorder {
    fn acted(&self) -> bool {
        !self.dispatched.borrow().is_empty() || !self.removed.borrow().is_empty()
    }

    fn only_dispatch(&self) -> Vec<Vec<String>> {
        assert!(
            self.removed.borrow().is_empty(),
            "this undo has no output to remove"
        );
        self.dispatched.borrow().clone()
    }
}

/// How many effects of each kind the recorder hands out.
const POOL: usize = 5;

fn with_recorder<T>(
    body: impl FnOnce(
        &mut UndoEffects<
            &dyn Fn(String, Option<(i32, i32)>) -> Result<OutputRemoval, Error>,
            &dyn Fn(Vec<String>) -> Result<(), Error>,
        >,
        &Recorder,
    ) -> T,
) -> T {
    let recorder = Recorder::default();
    let remove_output = |output: String, _cursor: Option<(i32, i32)>| {
        recorder.removed.borrow_mut().push(output.clone());
        Ok(OutputRemoval {
            notes: vec![format!("removed output {output}")],
            failure: None,
        })
    };
    let dispatch = |args: Vec<String>| {
        recorder.dispatched.borrow_mut().push(args);
        Ok(())
    };
    let remove_output = &remove_output as &dyn Fn(String, Option<(i32, i32)>) -> Result<OutputRemoval, Error>;
    let dispatch = &dispatch as &dyn Fn(Vec<String>) -> Result<(), Error>;
    body(
        &mut UndoEffects { removers: vec![remove_output; POOL], dispatchers: vec![dispatch; POOL] },
        &recorder,
    )
}

#[test]
fn every_host_mutation_names_its_undo_or_its_remedy() -> Result<(), Error> {
    let mutations = every_mutation();
    for mutation in &mutations {
        with_recorder(|effects, recorder| -> Result<(), Error> {
            match mutation.undo(effects, None)? {
                Undo::Done { notes, failure } => {
                    assert!(
                        recorder.acted(),
                        "{} reports itself undone without asking the compositor for anything",
                        kind(mutation)
                    );
                    assert!(
                        !notes.is_empty(),
                        "{} is undone silently, so a teardown cannot report it",
                        kind(mutation)
                    );
                    assert!(failure.is_none(), "the recorder answered every request");
                }
                Undo::Impossible { what, remedy } => {
                    assert!(
                        !recorder.acted(),
                        "{} calls itself impossible after mutating the host",
                        kind(mutation)
                    );
                    assert!(!what.is_empty(), "{} leaks something it does not name", kind(mutation));
                    assert_eq!(remedy, RELOAD, "{} names a remedy the user cannot run", kind(mutation));
                }
            }
            Ok(())
        })?;
    }
    Ok(())
}

#[test]
fn a_renamed_workspace_is_given_its_name_back() -> Result<(), Error> {
    with_recorder(|effects, recorder| {
        let undone = HostMutation::WorkspaceRenamed {
            id: 3,
            from: "3".to_owned(),
            to: "agent-alpha".to_owned(),
        }
        .undo(effects, None)?;
        assert_eq!(
            recorder.only_dispatch(),
            [vec![
                "renameworkspace".to_owned(),
                "3".to_owned(),
                "3".to_owned()
            ]],
            "the undo names the workspace by the id it renamed, and gives back `from`"
        );
        let Undo::Done { notes, .. } = undone else {
            panic!("a rename is undone, not leaked");
        };
        assert_eq!(notes, vec!["workspace 3 (`agent-alpha`) is named `3` again".to_owned()]);
        Ok(())
    })
}

#[test]
fn an_evacuated_workspace_goes_back_to_its_monitor() -> Result<(), Error> {
    with_recorder(|effects, recorder| {
        HostMutation::WorkspaceMovedToMonitor {
            workspace: "4".to_owned(),
            from: "hyprpilot".to_owned(),
        }
        .undo(effects, None)?;
        assert_eq!(
            recorder.only_dispatch(),
            [vec![
                "moveworkspacetomonitor".to_owned(),
                "4".to_owned(),
                "hyprpilot".to_owned()
            ]],
            "a numeric workspace passes through the selector unchanged"
        );
        Ok(())
    })?;
    with_recorder(|effects, recorder| {
        HostMutation::WorkspaceMovedToMonitor {
            workspace: "proto".to_owned(),
            from: "DP-1".to_owned(),
        }
        .undo(effects, None)?;
        assert_eq!(
            recorder.only_dispatch(),
            [vec![
                "moveworkspacetomonitor".to_owned(),
                "name:proto".to_owned(),
                "DP-1".to_owned()
            ]]
        );
        Ok(())
    })
}

#[test]
fn a_workspace_that_will_not_come_back_is_a_failure_not_an_abort() -> Result<(), Error> {
    let remove_output = |_: String, _: Option<(i32, i32)>| -> Result<OutputRemoval, Error> {
        Err(Error::Tool {
            command: "test".to_owned(),
            message: "this undo must not remove an output".to_owned(),
        })
    };
    let dispatch = |_: Vec<String>| -> Result<(), Error> {
        Err(Error::Tool {
            command: "hyprctl dispatch renameworkspace".to_owned(),
            message: "no such workspace".to_owned(),
        })
    };
    let mut effects = UndoEffects { removers: vec![&remove_output], dispatchers: vec![&dispatch] };
    let renamed = HostMutation::WorkspaceRenamed {
        id: 3,
        from: "3".to_owned(),
        to: "agent-alpha".to_owned(),
    };
    let Undo::Done { failure, .. } = renamed.undo(&mut effects, None)? else {
        panic!("a rename that failed is not impossible to undo, it failed");
    };
    let failure = failure.expect("a refused rename has to be reported");
    assert_eq!(failure.what, "renamed workspace");
    assert!(failure.actual.contains("no such workspace"));
    Ok(())
}

#[test]
fn a_renamed_workspace_is_given_its_name_back_before_its_output_goes() {
    let ledger = every_mutation();
    let before = before_the_output(&ledger);

    assert!(
        before.iter().any(
            |mutation| matches!(mutation, HostMutation::WorkspaceRenamed { from, .. } if from == "3")
        ),
        "the rename has to be undone while its output still exists"
    );
    assert!(
        !before
            .iter()
            .any(|mutation| matches!(mutation, HostMutation::OutputCreated { .. })),
        "the output removal is gated on the output being empty, so it is not part of this phase"
    );
    assert_eq!(
        ledger.len() - before.len(),
        1,
        "exactly one mutation waits for the output to be empty"
    );
}

#[test]
fn every_mutation_says_whether_its_undo_still_needs_the_output() {
    for mutation in every_mutation() {
        let expected = match kind(&mutation) {
            "output_created" => UndoPhase::TheOutput,
            _ => UndoPhase::BeforeTheOutput,
        };
        assert_eq!(mutation.phase(), expected, "{} is undone in the wrong phase", kind(&mutation));
    }
}

#[test]
fn what_doctor_lists_is_what_the_undo_cannot_take_back() -> Result<(), Error> {
    for mutation in every_mutation() {
        let listed = mutation.leak().is_some();
        let impossible = with_recorder(|effects, _| {
            Ok::<_, Error>(matches!(mutation.undo(effects, None)?, Undo::Impossible { .. }))
        })?;
        assert_eq!(
            listed,
            impossible,
            "{} is classified one way by `leak` and the other by `undo`",
            kind(&mutation)
        );
    }
    Ok(())
}

#[test]
fn the_ledger_is_unwound_in_reverse_so_the_output_goes_last() {
    with_recorder(|effects, recorder| {
        let unwound = unwind(effects, &every_mutation(), Some((10, 20)));
        assert!(unwound.stopped.is_none());
        assert_eq!(effects.removers.len(), POOL - 1, "one output was removed, once");
        assert_eq!(effects.dispatchers.len(), POOL - 2, "two workspaces were given back, once each");
        assert!(unwound.failures.is_empty());
        assert_eq!(
            recorder.dispatched.borrow().iter().map(|words| words[0].clone()).collect::<Vec<_>>(),
            vec!["moveworkspacetomonitor".to_owned(), "renameworkspace".to_owned()]
        );
        assert_eq!(*recorder.removed.borrow(), vec!["hyprpilot-alpha".to_owned()]);
        assert_eq!(unwound.leaked.len(), 2);
        assert_eq!(
            unwound.leaked[0],
            "workspace rule `agent-alpha, monitor:hyprpilot-alpha` stays until `hyprctl reload`"
        );
        assert_eq!(unwound.notes.last().map(String::as_str), Some("removed output hyprpilot-alpha"));
    });
}

#[test]
fn an_undo_that_cannot_run_stops_the_unwind() {
    let dispatched = RefCell::new(0);
    let remove_output = |_: String, _: Option<(i32, i32)>| -> Result<OutputRemoval, Error> {
        Err(Error::Tool {
            command: "hyprctl output remove hyprpilot-alpha".to_owned(),
            message: "busy".to_owned(),
        })
    };
    let dispatch = |_: Vec<String>| -> Result<(), Error> {
        *dispatched.borrow_mut() += 1;
        Ok(())
    };
    let mut effects = UndoEffects { removers: vec![&remove_output; 3], dispatchers: vec![&dispatch; 3] };
    let ledger = vec![
        HostMutation::WorkspaceRenamed { id: 3, from: "3".to_owned(), to: "agent-alpha".to_owned() },
        HostMutation::OutputCreated { output: "hyprpilot-alpha".to_owned() },
        HostMutation::WorkspaceMovedToMonitor { workspace: "4".to_owned(), from: "hyprpilot".to_owned() },
    ];
    let unwound = unwind(&mut effects, &ledger, None);
    assert_eq!((effects.removers.len(), effects.dispatchers.len()), (2, 2), "the rename was never attempted");
    let stopped = unwound.stopped.expect("a failed removal has to stop the unwind");
    assert_eq!(stopped.what, "host mutation");
    assert!(stopped.actual.contains("busy"), "{}", stopped.actual);
    assert_eq!(*dispatched.borrow(), 1, "the rename ahead of the output is left alone");
}

#[test]
fn an_equivalent_workspace_rule_is_posed_once() {
    let table = vec![WorkspaceRule {
        workspace_string: "agent-probe".to_owned(),
        monitor: "hyprpilot-probe".to_owned(),
    }];
    let posted = |workspace: &str, monitor: &str| {
        workspace_rule_is_posted(&Ok(table.clone()), workspace, monitor)
    };

    assert!(posted("agent-probe", "hyprpilot-probe"));
    assert!(!posted("agent-probe", "hyprpilot-other"));
    assert!(!posted("agent-other", "hyprpilot-probe"));
    assert!(!posted("special:hyprpilot-parked", "hyprpilot"));
    assert!(holds_rule(&table, "agent-probe", "hyprpilot-probe"));
}

#[test]
fn an_unreadable_rule_table_does_not_fail_a_start() {
    let unreadable = Err(Error::Tool {
        command: "hyprctl workspacerules -j".to_owned(),
        message: "unknown field `workspaceString`".to_owned(),
    });
    assert!(!workspace_rule_is_posted(&unreadable, "agent-alpha", "hyprpilot-alpha"));
}

#[test]
fn the_mutating_calls_address_the_host_with_their_exact_words() {
    let asked = RefCell::new(Vec::new());
    let run = |argv: Vec<String>| -> Result<ProcessOutput, String> {
        asked.borrow_mut().push(argv);
        Ok(ProcessOutput { success: true, stdout: "ok".to_owned(), stderr: String::new() })
    };
    output_create_headless(&run, "hyprpilot-alpha").unwrap();
    rename_workspace(&run, 3, "agent-alpha").unwrap();
    move_workspace_to_monitor(&run, "name:proto", "DP-1").unwrap();
    assert_eq!(
        *asked.borrow(),
        vec![
            vec!["output", "create", "headless", "hyprpilot-alpha"],
            vec!["dispatch", "renameworkspace", "3", "agent-alpha"],
            vec!["dispatch", "moveworkspacetomonitor", "name:proto", "DP-1"],
        ]
    );
    assert_eq!(workspace_rule("agent-alpha", "hyprpilot-alpha"), "agent-alpha, monitor:hyprpilot-alpha");
}
