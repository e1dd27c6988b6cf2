//! What a session did to the user's compositor, and how each of it comes back.
//!
//! Every durable change a session poses on the host is recorded as a
//! `HostMutation` before it is applied, and each one decides its undo: either
//! it is taken back, or what it leaves behind is named with the command that
//! clears it.
use vstd::prelude::*;

use crate::error::{Error, RestoreFailure};
use crate::hypr::{nth_runner, spent, string_views, take_runner};
use crate::session::{selector_spec, workspace_selector, OutputRemoval};
use crate::text::{cat, cat3, fmt_i64, int_text, own};

verus! {

/// What clears a `keyword` this crate posed. Hyprland has no runtime
/// retraction, and reposting a rule stacks it instead of replacing it, so a
/// keyword can be posed at most once but never taken back.
pub const RELOAD: &'static str = "hyprctl reload";

/// One durable change this session made to the user's compositor. Persisted in
/// the session state before it is applied, so a state file always describes at
/// least as much as the host actually holds.
#[derive(Debug)]
pub enum HostMutation {
    /// A headless output this crate created.
    OutputCreated { output: String },
    /// A `monitor` mode-set rule. Unretractable.
    MonitorRuleSet { rule: String },
    /// A `workspace` rule binding a workspace to an output. Unretractable, so
    /// it is posed at most once.
    WorkspaceRuleSet { rule: String },
    /// A workspace the host attached to a new output and this crate renamed;
    /// `from` is the name it had.
    WorkspaceRenamed { id: i64, from: String, to: String },
    /// A workspace pushed off an output of ours onto one of the user's
    /// monitors; `from` is the monitor it sat on before the move.
    WorkspaceMovedToMonitor { workspace: String, from: String },
}

/// When an undo may run, relative to the removal of the output. The output goes
/// last and only once nothing is left on it, so anything that has to happen
/// while it still exists runs before.
#[derive(Debug, Clone, Copy, PartialEq, Eq, Structural)]
pub enum UndoPhase {
    BeforeTheOutput,
    TheOutput,
}

/// What undoing one host mutation produced.
#[derive(Debug)]
pub enum Undo {
    /// Retracted. `notes` say what changed on the host; `failure` is what the
    /// undo asked for and could not get.
    Done { notes: Vec<String>, failure: Option<RestoreFailure> },
    /// Hyprland cannot retract this one while it runs, so the leak is named:
    /// `what` stays behind, `remedy` clears it.
    Impossible { what: String, remedy: &'static str },
}

/// The compositor effects undos draw on: output removals (each restoring
/// the cursor) and dispatchers taking their argument words. Each effect is
/// taken from the end of its pool and called once, so the effects taken are
/// exactly the undos that ran.
pub struct UndoEffects<RO, D> {
    pub removers: Vec<RO>,
    pub dispatchers: Vec<D>,
}

/// The cursor position an output removal may warp back to.
pub type Cursor = Option<(i32, i32)>;

/// How `{:?}` writes a string: quoted, with its special characters escaped.
pub uninterp spec fn debug_quoted(s: Seq<char>) -> Seq<char>;

/// `format!("{:?}", s)`. What the escaping does to each character is std's
/// own business; the contract only names the result.
#[verifier::external_body]
fn quote_debug(s: &str) -> (r: String)
    ensures
        r@ == debug_quoted(s@),
{
    format!("{:?}", s)
}

/// Mutations whose undo is still owed while the output exists.
pub open spec fn phase_spec(m: HostMutation) -> UndoPhase {
    match m {
        HostMutation::OutputCreated { .. } => UndoPhase::TheOutput,
        _ => UndoPhase::BeforeTheOutput,
    }
}

/// What a mutation leaves on the host that nothing can retract.
pub open spec fn leak_spec(m: HostMutation) -> Option<Seq<char>> {
    match m {
        HostMutation::MonitorRuleSet { rule } => Some("monitor rule `"@ + rule@ + "`"@),
        HostMutation::WorkspaceRuleSet { rule } => Some("workspace rule `"@ + rule@ + "`"@),
        _ => None,
    }
}

/// How a mutation reads in a message, as its derived `Debug` writes it.
pub open spec fn debug_spec(m: HostMutation) -> Seq<char> {
    match m {
        HostMutation::OutputCreated { output } => "OutputCreated { output: "@ + debug_quoted(
            output@,
        ) + " }"@,
        HostMutation::MonitorRuleSet { rule } => "MonitorRuleSet { rule: "@ + debug_quoted(rule@)
            + " }"@,
        HostMutation::WorkspaceRuleSet { rule } => "WorkspaceRuleSet { rule: "@ + debug_quoted(
            rule@,
        ) + " }"@,
        HostMutation::WorkspaceRenamed { id, from, to } => "WorkspaceRenamed { id: "@ + int_text(
            id as int,
        ) + ", from: "@ + debug_quoted(from@) + ", to: "@ + debug_quoted(to@) + " }"@,
        HostMutation::WorkspaceMovedToMonitor { workspace, from } =>
            "WorkspaceMovedToMonitor { workspace: "@ + debug_quoted(workspace@) + ", from: "@
            + debug_quoted(from@) + " }"@,
    }
}

/// The words a dispatch-based undo hands the compositor.
pub open spec fn undo_words(m: HostMutation) -> Seq<Seq<char>> {
    match m {
        HostMutation::WorkspaceRenamed { id, from, .. } => seq![
            "renameworkspace"@,
            int_text(id as int),
            from@,
        ],
        HostMutation::WorkspaceMovedToMonitor { workspace, from } => seq![
            "moveworkspacetomonitor"@,
            selector_spec(workspace@),
            from@,
        ],
        _ => Seq::empty(),
    }
}

/// The note a dispatch-based undo leaves when it went through.
pub open spec fn undo_note(m: HostMutation) -> Seq<char> {
    match m {
        HostMutation::WorkspaceRenamed { id, from, to } => "workspace "@ + int_text(id as int)
            + " (`"@ + to@ + "`) is named `"@ + from@ + "` again"@,
        HostMutation::WorkspaceMovedToMonitor { workspace, from } => "workspace "@ + workspace@
            + " is back on "@ + from@,
        _ => Seq::empty(),
    }
}

/// What a dispatch-based undo reports it could not do.
pub open spec fn undo_what(m: HostMutation) -> Seq<char> {
    match m {
        HostMutation::WorkspaceRenamed { .. } => "renamed workspace"@,
        HostMutation::WorkspaceMovedToMonitor { .. } => "evacuated workspace"@,
        _ => Seq::empty(),
    }
}

/// What a dispatch-based undo expected to find afterwards.
pub open spec fn undo_expected(m: HostMutation) -> Seq<char> {
    match m {
        HostMutation::WorkspaceRenamed { id, from, .. } => "workspace "@ + int_text(id as int)
            + " named `"@ + from@ + "` again"@,
        HostMutation::WorkspaceMovedToMonitor { workspace, from } => "workspace "@ + workspace@
            + " back on "@ + from@,
        _ => Seq::empty(),
    }
}

/// A dispatch-based undo: it either happened, and leaves `note`, or it is a
/// failure to report next to the others.
pub open spec fn dispatched_spec(
    result: Result<(), Error>,
    note: Seq<char>,
    what: Seq<char>,
    expected: Seq<char>,
    u: Undo,
) -> bool {
    match result {
        Ok(_) => u matches Undo::Done { notes, failure } && string_views(notes@) == seq![note]
            && failure is None,
        Err(e) => u matches Undo::Done { notes, failure } && notes@.len() == 0 && (failure
            matches Some(f) && f.what@ == what && f.expected@ == expected && f.actual@ == e.text()),
    }
}

/// What `undo` returns for `m`, given the effect pools before it (`effects`)
/// and after it (`after`): an output creation takes one remover, a workspace
/// change one dispatcher, a rule neither.
pub open spec fn undo_spec<RO: FnOnce(String, Cursor) -> Result<OutputRemoval, Error>, D: FnOnce(
    Vec<String>,
) -> Result<(), Error>>(
    m: HostMutation,
    effects: UndoEffects<RO, D>,
    after: UndoEffects<RO, D>,
    cursor: Cursor,
    r: Result<Undo, Error>,
) -> bool {
    match m {
        HostMutation::OutputCreated { output } => spent(effects.removers@, after.removers@, 1)
            && after.dispatchers@ == effects.dispatchers@ && exists|o: String, res: Result<OutputRemoval, Error>|
            o@ == output@ && call_ensures(nth_runner(effects.removers@, 0), (o, cursor), res) && match res {
                Err(e) => r == Err::<Undo, Error>(e),
                Ok(removal) => r matches Ok(Undo::Done { notes, failure }) && notes == removal.notes
                    && failure == removal.failure,
            },
        HostMutation::MonitorRuleSet { .. } | HostMutation::WorkspaceRuleSet { .. } => after.removers@
            == effects.removers@ && after.dispatchers@ == effects.dispatchers@ && (r matches Ok(
            Undo::Impossible { what, remedy },
        ) && leak_spec(m) == Some(what@) && remedy@ == RELOAD@),
        _ => spent(effects.dispatchers@, after.dispatchers@, 1) && after.removers@ == effects.removers@
            && exists|words: Vec<String>, res: Result<(), Error>|
            string_views(words@) == undo_words(m) && call_ensures(
                nth_runner(effects.dispatchers@, 0),
                (words,),
                res,
            ) && (r matches Ok(u) && dispatched_spec(
                res,
                undo_note(m),
                undo_what(m),
                undo_expected(m),
                u,
            )),
    }
}

/// Every effect of both pools may be called with anything.
pub open spec fn effects_callable<RO: FnOnce(String, Cursor) -> Result<OutputRemoval, Error>, D: FnOnce(
    Vec<String>,
) -> Result<(), Error>>(effects: UndoEffects<RO, D>) -> bool {
    &&& forall|i: int, o: String, c: Cursor|
        0 <= i < effects.removers@.len() ==> #[trigger] call_requires(effects.removers@[i], (o, c))
    &&& forall|i: int, w: Vec<String>|
        0 <= i < effects.dispatchers@.len() ==> #[trigger] call_requires(effects.dispatchers@[i], (w,))
}

/// Whether the pools hold an effect for `m`'s undo.
pub open spec fn covers<RO, D>(effects: UndoEffects<RO, D>, m: HostMutation) -> bool {
    match m {
        HostMutation::OutputCreated { .. } => effects.removers@.len() >= 1,
        HostMutation::MonitorRuleSet { .. } | HostMutation::WorkspaceRuleSet { .. } => true,
        _ => effects.dispatchers@.len() >= 1,
    }
}

/// Taking effects from the ends of the pools leaves pools whose effects all
/// may still be called with anything.
pub proof fn lemma_pools_stay_callable<RO: FnOnce(String, Cursor) -> Result<OutputRemoval, Error>, D: FnOnce(
    Vec<String>,
) -> Result<(), Error>>(before: UndoEffects<RO, D>, after: UndoEffects<RO, D>)
    requires
        effects_callable(before),
        after.removers@.len() <= before.removers@.len(),
        forall|i: int| 0 <= i < after.removers@.len() ==> after.removers@[i] == before.removers@[i],
        after.dispatchers@.len() <= before.dispatchers@.len(),
        forall|i: int| 0 <= i < after.dispatchers@.len() ==> after.dispatchers@[i] == before.dispatchers@[i],
    ensures
        effects_callable(after),
{
    assert forall|i: int, o: String, c: Cursor| 0 <= i < after.removers@.len() implies #[trigger] call_requires(
        after.removers@[i],
        (o, c),
    ) by {
        assert(after.removers@[i] == before.removers@[i]);
    }
    assert forall|i: int, w: Vec<String>| 0 <= i < after.dispatchers@.len() implies #[trigger] call_requires(
        after.dispatchers@[i],
        (w,),
    ) by {
        assert(after.dispatchers@[i] == before.dispatchers@[i]);
    }
}

/// A dispatch-based undo: it either happened, or it is a failure to report
/// next to the others.
fn dispatched(result: Result<(), Error>, note: String, what: &str, expected: String) -> (u: Undo)
    ensures
        dispatched_spec(result, note@, what@, expected@, u),
{
    match result {
        Ok(()) => {
            let mut notes: Vec<String> = Vec::new();
            notes.push(note);
            assert(string_views(notes@) =~= seq![note@]);
            Undo::Done { notes, failure: None }
        },
        Err(error) => Undo::Done {
            notes: Vec::new(),
            failure: Some(RestoreFailure::new(what, expected, error.message())),
        },
    }
}

impl HostMutation {
    /// A copy of this mutation.
    pub fn duplicate(&self) -> (r: Self)
        ensures
            r == *self,
    {
        match self {
            HostMutation::OutputCreated { output } => HostMutation::OutputCreated {
                output: output.clone(),
            },
            HostMutation::MonitorRuleSet { rule } => HostMutation::MonitorRuleSet {
                rule: rule.clone(),
            },
            HostMutation::WorkspaceRuleSet { rule } => HostMutation::WorkspaceRuleSet {
                rule: rule.clone(),
            },
            HostMutation::WorkspaceRenamed { id, from, to } => HostMutation::WorkspaceRenamed {
                id: *id,
                from: from.clone(),
                to: to.clone(),
            },
            HostMutation::WorkspaceMovedToMonitor { workspace, from } =>
                HostMutation::WorkspaceMovedToMonitor {
                workspace: workspace.clone(),
                from: from.clone(),
            },
        }
    }

    /// Whether this mutation's undo still needs the output: only the output
    /// itself waits until nothing is left on it. A workspace renamed back after
    /// its output was removed is a workspace that never gets its name back.
    pub fn phase(&self) -> (r: UndoPhase)
        ensures
            r == phase_spec(*self),
    {
        match self {
            HostMutation::OutputCreated { .. } => UndoPhase::TheOutput,
            _ => UndoPhase::BeforeTheOutput,
        }
    }

    /// What this mutation leaves on the host that nothing can retract, or
    /// `None` when `undo` takes it back.
    pub fn leak(&self) -> (r: Option<String>)
        ensures
            match r {
                Some(t) => leak_spec(*self) == Some(t@),
                None => leak_spec(*self) is None,
            },
    {
        match self {
            HostMutation::MonitorRuleSet { rule } => Some(cat3("monitor rule `", rule.as_str(), "`")),
            HostMutation::WorkspaceRuleSet { rule } => Some(
                cat3("workspace rule `", rule.as_str(), "`"),
            ),
            _ => None,
        }
    }

    /// How this mutation reads in a message.
    pub fn describe(&self) -> (r: String)
        ensures
            r@ == debug_spec(*self),
    {
        match self {
            HostMutation::OutputCreated { output } => {
                let q = quote_debug(output.as_str());
                cat3("OutputCreated { output: ", q.as_str(), " }")
            },
            HostMutation::MonitorRuleSet { rule } => {
                let q = quote_debug(rule.as_str());
                cat3("MonitorRuleSet { rule: ", q.as_str(), " }")
            },
            HostMutation::WorkspaceRuleSet { rule } => {
                let q = quote_debug(rule.as_str());
                cat3("WorkspaceRuleSet { rule: ", q.as_str(), " }")
            },
            HostMutation::WorkspaceRenamed { id, from, to } => {
                let mut r = cat("WorkspaceRenamed { id: ", fmt_i64(*id).as_str());
                r.append(", from: ");
                r.append(quote_debug(from.as_str()).as_str());
                r.append(", to: ");
                r.append(quote_debug(to.as_str()).as_str());
                r.append(" }");
                r
            },
            HostMutation::WorkspaceMovedToMonitor { workspace, from } => {
                let mut r = cat(
                    "WorkspaceMovedToMonitor { workspace: ",
                    quote_debug(workspace.as_str()).as_str(),
                );
                r.append(", from: ");
                r.append(quote_debug(from.as_str()).as_str());
                r.append(" }");
                r
            },
        }
    }

    /// How this mutation comes back. `cursor` is the position to warp back to
    /// when `output remove` re-centres it and the cursor cannot be read at the
    /// last moment.
    ///
    /// Only the output removal propagates an `Err`, because it is the one undo
    /// whose failure must stop the caller: the session state has to survive
    /// for `teardown` to retry. A workspace that will not come back is reported
    /// alongside the rest instead.
    pub fn undo<RO: FnOnce(String, Cursor) -> Result<OutputRemoval, Error>, D: FnOnce(Vec<String>) -> Result<
        (),
        Error,
    >>(&self, effects: &mut UndoEffects<RO, D>, cursor: Cursor) -> (r: Result<Undo, Error>)
        requires
            effects_callable(*old(effects)),
            covers(*old(effects), *self),
        ensures
            undo_spec(*self, *old(effects), *final(effects), cursor, r),
            effects_callable(*final(effects)),
    {
        let ghost before = *effects;
        match self {
            HostMutation::OutputCreated { output } => {
                let o = own(output.as_str());
                let ghost go = o;
                let remover = take_runner(&mut effects.removers);
                assert(call_requires(remover, (go, cursor))) by {
                    assert(call_requires(before.removers@[before.removers@.len() - 1], (go, cursor)));
                }
                let res = remover(o, cursor);
                let ghost gres = res;
                let r = match res {
                    Err(e) => Err(e),
                    Ok(removal) => Ok(Undo::Done { notes: removal.notes, failure: removal.failure }),
                };
                assert(go@ == output@ && call_ensures(nth_runner(before.removers@, 0), (go, cursor), gres));
                proof {
                    lemma_pools_stay_callable(before, *effects);
                }
                r
            },
            HostMutation::MonitorRuleSet { rule } => Ok(
                Undo::Impossible { what: cat3("monitor rule `", rule.as_str(), "`"), remedy: RELOAD },
            ),
            HostMutation::WorkspaceRuleSet { rule } => Ok(
                Undo::Impossible {
                    what: cat3("workspace rule `", rule.as_str(), "`"),
                    remedy: RELOAD,
                },
            ),
            HostMutation::WorkspaceRenamed { id, from, to } => {
                let id_text = fmt_i64(*id);
                let mut words: Vec<String> = Vec::new();
                words.push(String::from_str("renameworkspace"));
                words.push(own(id_text.as_str()));
                words.push(own(from.as_str()));
                assert(string_views(words@) =~= undo_words(*self));
                let ghost gw = words;
                let dispatcher = take_runner(&mut effects.dispatchers);
                assert(call_requires(dispatcher, (gw,))) by {
                    assert(call_requires(before.dispatchers@[before.dispatchers@.len() - 1], (gw,)));
                }
                let res = dispatcher(words);
                let ghost gres = res;
                proof {
                    lemma_pools_stay_callable(before, *effects);
                }
                let mut note = cat3("workspace ", id_text.as_str(), " (`");
                note.append(to.as_str());
                note.append("`) is named `");
                note.append(from.as_str());
                note.append("` again");
                let mut expected = cat3("workspace ", id_text.as_str(), " named `");
                expected.append(from.as_str());
                expected.append("` again");
                let u = dispatched(res, note, "renamed workspace", expected);
                assert(call_ensures(nth_runner(before.dispatchers@, 0), (gw,), gres));
                Ok(u)
            },
            HostMutation::WorkspaceMovedToMonitor { workspace, from } => {
                let mut words: Vec<String> = Vec::new();
                words.push(String::from_str("moveworkspacetomonitor"));
                words.push(workspace_selector(workspace.as_str()));
                words.push(own(from.as_str()));
                assert(string_views(words@) =~= undo_words(*self));
                let ghost gw = words;
                let dispatcher = take_runner(&mut effects.dispatchers);
                assert(call_requires(dispatcher, (gw,))) by {
                    assert(call_requires(before.dispatchers@[before.dispatchers@.len() - 1], (gw,)));
                }
                let res = dispatcher(words);
                let ghost gres = res;
                proof {
                    lemma_pools_stay_callable(before, *effects);
                }
                let note = cat3("workspace ", workspace.as_str(), " is back on ");
                let note = cat(note.as_str(), from.as_str());
                let expected = cat3("workspace ", workspace.as_str(), " back on ");
                let expected = cat(expected.as_str(), from.as_str());
                let u = dispatched(res, note, "evacuated workspace", expected);
                assert(call_ensures(nth_runner(before.dispatchers@, 0), (gw,), gres));
                Ok(u)
            },
        }
    }
}

/// The entries of `s` whose undo still needs the output, in ledger order.
pub open spec fn before_spec(s: Seq<HostMutation>) -> Seq<HostMutation>
    decreases s.len(),
{
    if s.len() == 0 {
        Seq::empty()
    } else if phase_spec(s.last()) == UndoPhase::BeforeTheOutput {
        before_spec(s.drop_last()).push(s.last())
    } else {
        before_spec(s.drop_last())
    }
}

/// How many entries of `s` are output creations.
pub open spec fn outputs_in(s: Seq<HostMutation>) -> nat
    decreases s.len(),
{
    if s.len() == 0 {
        0
    } else if s.last() is OutputCreated {
        outputs_in(s.drop_last()) + 1
    } else {
        outputs_in(s.drop_last())
    }
}

/// The entries whose undo still needs the output. The output removal itself
/// is left to the caller, because it has to come last and behind a check
/// that nothing of the user's is on the output any more.
pub fn before_the_output(ledger: &[HostMutation]) -> (r: Vec<HostMutation>)
    ensures
        r@ == before_spec(ledger@),
{
    let mut r: Vec<HostMutation> = Vec::new();
    let mut i: usize = 0;
    while i < ledger.len()
        invariant
            i <= ledger@.len(),
            r@ == before_spec(ledger@.subrange(0, i as int)),
        decreases ledger@.len() - i,
    {
        assert(ledger@.subrange(0, i + 1).drop_last() =~= ledger@.subrange(0, i as int));
        if ledger[i].phase() == UndoPhase::BeforeTheOutput {
            r.push(ledger[i].duplicate());
        }
        i += 1;
    }
    assert(ledger@.subrange(0, ledger@.len() as int) =~= ledger@);
    r
}

/// The phase filter keeps every mutation but the output creations, in order:
/// each entry it keeps is undone before the output, and exactly the output
/// creations are left for last.
pub proof fn before_the_output_leaves_only_the_output(s: Seq<HostMutation>)
    ensures
        forall|i: int|
            0 <= i < before_spec(s).len() ==> phase_spec(#[trigger] before_spec(s)[i])
                == UndoPhase::BeforeTheOutput,
        before_spec(s).len() + outputs_in(s) == s.len(),
        forall|i: int|
            0 <= i < s.len() && phase_spec(#[trigger] s[i]) == UndoPhase::BeforeTheOutput
                ==> before_spec(s).contains(s[i]),
    decreases s.len(),
{
    if s.len() > 0 {
        before_the_output_leaves_only_the_output(s.drop_last());
        assert forall|i: int|
            0 <= i < s.len() && phase_spec(#[trigger] s[i]) == UndoPhase::BeforeTheOutput
                implies before_spec(s).contains(s[i]) by {
            if i < s.len() - 1 {
                assert(s.drop_last()[i] == s[i]);
                let j = choose|j: int|
                    0 <= j < before_spec(s.drop_last()).len() && before_spec(s.drop_last())[j]
                        == s[i];
                if phase_spec(s.last()) == UndoPhase::BeforeTheOutput {
                    assert(before_spec(s)[j] == s[i]);
                }
            } else {
                assert(before_spec(s).last() == s[i]);
            }
        }
    }
}

/// What unwinding a ledger did, and what it could not.
#[derive(Debug)]
pub struct Unwound {
    /// What actually changed on the host, for the teardown message.
    pub notes: Vec<String>,
    /// What Hyprland cannot retract while it runs, each with the command that
    /// clears it: the documented cost of a `keyword`, listed so the leak is
    /// visible instead of silent.
    pub leaked: Vec<String>,
    pub failures: Vec<RestoreFailure>,
    /// Set when an undo could not run at all. Everything still ahead of it in
    /// the ledger is untouched, so the state has to stay on disk for a later
    /// `teardown` to resume from.
    pub stopped: Option<RestoreFailure>,
}

/// The notes the undos in `outs` left, in order.
pub open spec fn notes_of(outs: Seq<Result<Undo, Error>>) -> Seq<Seq<char>>
    decreases outs.len(),
{
    if outs.len() == 0 {
        Seq::empty()
    } else {
        notes_of(outs.drop_last()) + match outs.last() {
            Ok(Undo::Done { notes, .. }) => string_views(notes@),
            _ => Seq::empty(),
        }
    }
}

/// The leaks the undos in `outs` named, each with its remedy.
pub open spec fn leaked_of(outs: Seq<Result<Undo, Error>>) -> Seq<Seq<char>>
    decreases outs.len(),
{
    if outs.len() == 0 {
        Seq::empty()
    } else {
        leaked_of(outs.drop_last()) + match outs.last() {
            Ok(Undo::Impossible { what, remedy }) => seq![
                what@ + " stays until `"@ + remedy@ + "`"@,
            ],
            _ => Seq::empty(),
        }
    }
}

/// The failures the undos in `outs` reported.
pub open spec fn failures_of(outs: Seq<Result<Undo, Error>>) -> Seq<RestoreFailure>
    decreases outs.len(),
{
    if outs.len() == 0 {
        Seq::empty()
    } else {
        failures_of(outs.drop_last()) + match outs.last() {
            Ok(Undo::Done { failure: Some(f), .. }) => seq![f],
            _ => Seq::empty(),
        }
    }
}

/// How many entries of `s` are undone by a dispatcher.
pub open spec fn dispatches_in(s: Seq<HostMutation>) -> nat
    decreases s.len(),
{
    if s.len() == 0 {
        0
    } else if s.last() is WorkspaceRenamed || s.last() is WorkspaceMovedToMonitor {
        dispatches_in(s.drop_last()) + 1
    } else {
        dispatches_in(s.drop_last())
    }
}

/// `u` is what unwinding `ledger` gives when its undos, taken last entry
/// first, answered `outs`, and `states` are the effect pools before each
/// undo and after the last one: the `j`-th undo is the one of the entry
/// `j`-th from the end, taking its effect from `states[j]` and leaving
/// `states[j + 1]`; every answer but possibly the last one succeeded; a
/// failed one stops the unwinding and leaves the entries ahead of it alone,
/// with their effects untaken; otherwise the whole ledger was undone.
pub open spec fn unwound_by<RO: FnOnce(String, Cursor) -> Result<OutputRemoval, Error>, D: FnOnce(
    Vec<String>,
) -> Result<(), Error>>(
    states: Seq<UndoEffects<RO, D>>,
    ledger: Seq<HostMutation>,
    cursor: Cursor,
    outs: Seq<Result<Undo, Error>>,
    u: Unwound,
) -> bool {
    let n = ledger.len();
    let k = outs.len();
    &&& k <= n
    &&& states.len() == k + 1
    &&& forall|j: int|
        0 <= j < k ==> undo_spec(ledger[n - 1 - j], states[j], states[j + 1], cursor, #[trigger] outs[j])
    &&& forall|j: int| 0 <= j < k - 1 ==> (#[trigger] outs[j]) is Ok
    &&& string_views(u.notes@) == notes_of(outs)
    &&& string_views(u.leaked@) == leaked_of(outs)
    &&& u.failures@ == failures_of(outs)
    &&& if k > 0 && outs[k - 1] is Err {
        u.stopped matches Some(f) && f.what@ == "host mutation"@ && f.expected@ == debug_spec(
            ledger[n - k],
        ) + " undone"@ && f.actual@ == outs[k - 1]->Err_0.text()
    } else {
        k == n && u.stopped is None
    }
}

pub proof fn lemma_string_views_concat(a: Seq<String>, b: Seq<String>)
    ensures
        string_views(a + b) == string_views(a) + string_views(b),
{
    assert(string_views(a + b) =~= string_views(a) + string_views(b));
}

/// Undoes a ledger in reverse, which is the only order that holds: a
/// workspace gets its name back, and a pushed-off workspace comes home, before
/// the output that caused either is removed. Each undo takes its effect from
/// the pools in `effects`; the effects left over are untouched.
pub fn unwind<RO: FnOnce(String, Cursor) -> Result<OutputRemoval, Error>, D: FnOnce(Vec<String>) -> Result<
    (),
    Error,
>>(effects: &mut UndoEffects<RO, D>, ledger: &[HostMutation], cursor: Cursor) -> (u: Unwound)
    requires
        effects_callable(*old(effects)),
        old(effects).removers@.len() >= outputs_in(ledger@),
        old(effects).dispatchers@.len() >= dispatches_in(ledger@),
    ensures
        exists|outs: Seq<Result<Undo, Error>>, states: Seq<UndoEffects<RO, D>>|
            unwound_by(states, ledger@, cursor, outs, u) && states[0] == *old(effects) && states.last()
                == *final(effects),
{
    let mut unwound = Unwound {
        notes: Vec::new(),
        leaked: Vec::new(),
        failures: Vec::new(),
        stopped: None,
    };
    let ghost mut outs: Seq<Result<Undo, Error>> = Seq::empty();
    let ghost mut states: Seq<UndoEffects<RO, D>> = seq![*effects];
    let n = ledger.len();
    let mut j: usize = 0;
    assert(ledger@.subrange(0, n as int) =~= ledger@);
    while j < n
        invariant
            n == ledger@.len(),
            j <= n,
            effects_callable(*effects),
            effects.removers@.len() >= outputs_in(ledger@.subrange(0, n - j)),
            effects.dispatchers@.len() >= dispatches_in(ledger@.subrange(0, n - j)),
            outs.len() == j,
            states.len() == j + 1,
            states[0] == *old(effects),
            states.last() == *effects,
            forall|i: int|
                0 <= i < j ==> undo_spec(ledger@[n - 1 - i], states[i], states[i + 1], cursor, #[trigger] outs[i]),
            forall|i: int| 0 <= i < j ==> (#[trigger] outs[i]) is Ok,
            string_views(unwound.notes@) == notes_of(outs),
            string_views(unwound.leaked@) == leaked_of(outs),
            unwound.failures@ == failures_of(outs),
            unwound.stopped is None,
        decreases n - j,
    {
        let mutation = &ledger[n - 1 - j];
        let ghost rest = ledger@.subrange(0, n - j);
        assert(rest.last() == *mutation);
        assert(rest.drop_last() =~= ledger@.subrange(0, n - j - 1));
        let result = mutation.undo(effects, cursor);
        let ghost before = outs;
        let ghost before_states = states;
        proof {
            outs = outs.push(result);
            states = states.push(*effects);
            assert(outs.drop_last() =~= before);
            assert forall|i: int|
                0 <= i < j + 1 implies undo_spec(ledger@[n - 1 - i], states[i], states[i + 1], cursor, #[trigger] outs[i]) by {
                if i < j {
                    assert(states[i] == before_states[i] && states[i + 1] == before_states[i + 1]);
                    assert(outs[i] == before[i]);
                }
            }
        }
        match result {
            Ok(Undo::Done { notes, failure }) => {
                let mut notes = notes;
                let ghost old_notes = unwound.notes@;
                let ghost added = notes@;
                unwound.notes.append(&mut notes);
                proof {
                    lemma_string_views_concat(old_notes, added);
                }
                match failure {
                    Some(f) => {
                        unwound.failures.push(f);
                    },
                    None => {},
                }
            },
            Ok(Undo::Impossible { what, remedy }) => {
                let mut line = cat3(what.as_str(), " stays until `", remedy);
                line.append("`");
                let ghost old_leaked = unwound.leaked@;
                unwound.leaked.push(line);
                proof {
                    crate::hypr::lemma_string_views_push(old_leaked, unwound.leaked@.last());
                }
            },
            Err(error) => {
                let described = mutation.describe();
                unwound.stopped = Some(
                    RestoreFailure::new(
                        "host mutation",
                        cat(described.as_str(), " undone"),
                        error.message(),
                    ),
                );
                assert(unwound_by(states, ledger@, cursor, outs, unwound));
                return unwound;
            },
        }
        j += 1;
    }
    assert(unwound_by(states, ledger@, cursor, outs, unwound));
    unwound
}

/// What `doctor` lists as unretractable is exactly what `undo` refuses to take
/// back, whatever the effects answer: an undo is impossible if and only if the
/// mutation leaks, and then it names the leak.
pub proof fn leak_is_what_undo_cannot_take_back<RO: FnOnce(String, Cursor) -> Result<
    OutputRemoval,
    Error,
>, D: FnOnce(Vec<String>) -> Result<(), Error>>(
    m: HostMutation,
    effects: UndoEffects<RO, D>,
    after: UndoEffects<RO, D>,
    cursor: Cursor,
    r: Result<Undo, Error>,
)
    requires
        undo_spec(m, effects, after, cursor, r),
    ensures
        (r matches Ok(Undo::Impossible { .. })) <==> leak_spec(m) is Some,
        r matches Ok(Undo::Impossible { what, remedy }) ==> leak_spec(m) == Some(what@)
            && remedy@ == RELOAD@,
{
}

/// Only the output waits for the output: every other mutation is undone while
/// it still exists.
pub proof fn only_the_output_waits(m: HostMutation)
    ensures
        (phase_spec(m) == UndoPhase::TheOutput) <==> (m is OutputCreated),
{
}

} // verus!
