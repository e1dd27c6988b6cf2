//! The desktop guard: a command that has to focus the session window first
//! takes a snapshot of the user's focus and cursor, acts, and puts both back,
//! then checks that they really are back.
use vstd::prelude::*;

use crate::error::{Error, RestoreFailure};
use crate::hypr::{self, Client, Ctl, ProcessOutput, cursor_read, dispatched_on, focus_read, next_runner, nth_runner, runnable, spent, take_runner};
use crate::text::{cat, fmt_i64, int_text, own};

verus! {

/// How many runners a guarded action needs at most: two reads for the
/// snapshot and the focus on the session window. The restoration goes out
/// as one plan of its own.
pub const GUARD_RUNNERS: usize = 3;

/// How far, in pixels per axis, a restored cursor may land from where it was.
pub const WARP_TOLERANCE: i32 = 1;

/// The user's focus and cursor, as they were before a guarded action.
#[derive(Debug)]
pub struct Snapshot {
    pub cursor: (i32, i32),
    /// The address of the focused window, if one was focused.
    pub focus: Option<String>,
}

/// The views of an optional string.
pub open spec fn opt_view(s: Option<String>) -> Option<Seq<char>> {
    match s {
        Some(t) => Some(t@),
        None => None,
    }
}

/// How a cursor position reads in a message: `(X, Y)`.
pub open spec fn pair_text(p: (i32, i32)) -> Seq<char> {
    "("@ + int_text(p.0 as int) + ", "@ + int_text(p.1 as int) + ")"@
}

/// Writes a cursor position as `(X, Y)`.
pub fn fmt_pair(p: (i32, i32)) -> (r: String)
    ensures
        r@ == pair_text(p),
{
    let mut r = String::from_str("(");
    r.append(fmt_i64(p.0 as i64).as_str());
    r.append(", ");
    r.append(fmt_i64(p.1 as i64).as_str());
    r.append(")");
    r
}

/// Whether `actual` is within the warp tolerance of `expected` on both axes.
pub open spec fn near(actual: (i32, i32), expected: (i32, i32)) -> bool {
    -1 <= actual.0 - expected.0 <= 1 && -1 <= actual.1 - expected.1 <= 1
}

/// Whether a restored cursor landed where it was, give or take the warp
/// tolerance Hyprland's `movecursor` leaves.
pub fn cursor_near(actual: (i32, i32), expected: (i32, i32)) -> (r: bool)
    ensures
        r == near(actual, expected),
{
    let dx = actual.0 as i64 - expected.0 as i64;
    let dy = actual.1 as i64 - expected.1 as i64;
    -(WARP_TOLERANCE as i64) <= dx && dx <= WARP_TOLERANCE as i64 && -(WARP_TOLERANCE as i64) <= dy
        && dy <= WARP_TOLERANCE as i64
}

/// What a snapshot of the host gave: the cursor read with the pool's first
/// runner, then, when that worked, the focused window read with its second.
/// No other runner is taken.
pub open spec fn snapshot_spec<R: FnOnce(Vec<String>) -> Result<ProcessOutput, String>, P: Fn(
    String,
) -> Result<Client, String>>(pool: Seq<R>, after: Seq<R>, parse: P, r: Result<Snapshot, Error>) -> bool {
    exists|c: Result<(i32, i32), Error>|
        cursor_read(nth_runner(pool, 0), Ctl::Host, c) && match c {
            Err(e) => r == Err::<Snapshot, Error>(e) && spent(pool, after, 1),
            Ok(p) => spent(pool, after, 2) && exists|w: Result<Option<Client>, Error>|
                focus_read(nth_runner(pool, 1), parse, Ctl::Host, w) && match w {
                    Err(e) => r == Err::<Snapshot, Error>(e),
                    Ok(focused) => r matches Ok(s) && s.cursor == p && opt_view(s.focus) == match focused {
                        Some(client) => Some(client.address@),
                        None => None::<Seq<char>>,
                    },
                },
        }
}

/// Reads the cursor and the focused window of the host, one runner of
/// `runners` for each read.
pub fn snapshot<R: FnOnce(Vec<String>) -> Result<ProcessOutput, String>, P: Fn(String) -> Result<
    Client,
    String,
>>(runners: &mut Vec<R>, parse: &P) -> (r: Result<Snapshot, Error>)
    requires
        old(runners)@.len() >= 2,
        runnable(old(runners)@),
        forall|s: String| call_requires(*parse, (s,)),
    ensures
        snapshot_spec(old(runners)@, final(runners)@, *parse, r),
{
    let ghost pool = runners@;
    let cursor_run = take_runner(runners);
    assert forall|v: Vec<String>| call_requires(cursor_run, (v,)) by {
        assert(call_requires(pool[pool.len() - 1], (v,)));
    }
    let c = hypr::cursor_pos(cursor_run);
    let ghost gc = c;
    assert(cursor_read(nth_runner(pool, 0), Ctl::Host, gc));
    match c {
        Err(e) => Err(e),
        Ok(p) => {
            let active_run = take_runner(runners);
            assert forall|v: Vec<String>| call_requires(active_run, (v,)) by {
                assert(call_requires(pool[pool.len() - 2], (v,)));
            }
            assert(runners@ == pool.subrange(0, pool.len() - 2));
            let w = hypr::active_window(active_run, parse);
            let ghost gw = w;
            let r = match w {
                Err(e) => Err(e),
                Ok(focused) => Ok(
                    Snapshot {
                        cursor: p,
                        focus: match focused {
                            Some(client) => Some(client.address),
                            None => None,
                        },
                    },
                ),
            };
            assert(focus_read(nth_runner(pool, 1), *parse, Ctl::Host, gw));
            r
        },
    }
}

/// `["movecursor", X, Y]`.
pub open spec fn movecursor_args(cursor: (i32, i32)) -> Seq<Seq<char>> {
    seq!["movecursor"@, int_text(cursor.0 as int), int_text(cursor.1 as int)]
}

/// Warps the host cursor back to `cursor`.
pub fn restore_cursor<R: FnOnce(Vec<String>) -> Result<ProcessOutput, String>>(
    run: R,
    cursor: (i32, i32),
) -> (r: Result<(), Error>)
    requires
        forall|v: Vec<String>| call_requires(run, (v,)),
    ensures
        dispatched_on(run, Ctl::Host, movecursor_args(cursor), r),
{
    let x = fmt_i64(cursor.0 as i64);
    let y = fmt_i64(cursor.1 as i64);
    let args: [&str; 3] = ["movecursor", x.as_str(), y.as_str()];
    assert(hypr::views(args@) =~= movecursor_args(cursor));
    hypr::dispatch(run, &args)
}

/// `["focuswindow", "address:A"]`.
pub open spec fn focus_args(address: Seq<char>) -> Seq<Seq<char>> {
    seq!["focuswindow"@, "address:"@ + address]
}

/// Focuses the window at `address` on the host.
pub fn focus_window<R: FnOnce(Vec<String>) -> Result<ProcessOutput, String>>(
    run: R,
    address: &str,
) -> (r: Result<(), Error>)
    requires
        forall|v: Vec<String>| call_requires(run, (v,)),
    ensures
        dispatched_on(run, Ctl::Host, focus_args(address@), r),
{
    let target = cat("address:", address);
    let args: [&str; 2] = ["focuswindow", target.as_str()];
    assert(hypr::views(args@) =~= focus_args(address@));
    hypr::dispatch(run, &args)
}

/// What the user expects the focus to be back to.
pub open spec fn expected_focus(focus: Option<Seq<char>>) -> Seq<char> {
    match focus {
        Some(a) => "address:"@ + a,
        None => "no focused window"@,
    }
}

/// Whether the focus read afterwards is the one the snapshot holds.
pub open spec fn focus_matches(focus: Option<Seq<char>>, actual: Result<Option<Client>, Error>) -> bool {
    match (focus, actual) {
        (Some(expected), Ok(Some(client))) => expected == client.address@,
        (None, Ok(None)) => true,
        _ => false,
    }
}

/// Whether the cursor read afterwards is near the one the snapshot holds.
pub open spec fn cursor_matches(cursor: (i32, i32), actual: Result<(i32, i32), Error>) -> bool {
    match actual {
        Ok(p) => near(p, cursor),
        Err(_) => false,
    }
}

/// What was found of the focus afterwards.
pub open spec fn focus_observed(focus: Option<Seq<char>>, actual: Result<Option<Client>, Error>) -> Seq<
    char,
> {
    match actual {
        Ok(Some(client)) => if focus is None {
            "address:"@ + client.address@ + "; cannot restore prior no-focus state"@
        } else {
            "address:"@ + client.address@
        },
        Ok(None) => "no focused window"@,
        Err(e) => "verification failed: "@ + e.text(),
    }
}

/// What was found of the cursor afterwards.
pub open spec fn cursor_observed(actual: Result<(i32, i32), Error>) -> Seq<char> {
    match actual {
        Ok(p) => pair_text(p),
        Err(e) => "verification failed: "@ + e.text(),
    }
}

/// A restoration's own failure, put before what was observed.
pub open spec fn with_restore(restored: Result<(), Error>, observed: Seq<char>) -> Seq<char> {
    match restored {
        Ok(_) => observed,
        Err(e) => "restore failed: "@ + e.text() + "; observed "@ + observed,
    }
}

/// One restore failure, by its three texts.
pub open spec fn failure_view(f: RestoreFailure) -> (Seq<char>, Seq<char>, Seq<char>) {
    (f.what@, f.expected@, f.actual@)
}

/// The failures a guarded action reports, in order: the focus first, then the
/// cursor, each when its restoration failed or it was not found back.
pub open spec fn restore_failures(
    snapshot: Snapshot,
    focus_restore: Result<(), Error>,
    cursor_restore: Result<(), Error>,
    actual_focus: Result<Option<Client>, Error>,
    actual_cursor: Result<(i32, i32), Error>,
) -> Seq<(Seq<char>, Seq<char>, Seq<char>)> {
    let focus = opt_view(snapshot.focus);
    let f: Seq<(Seq<char>, Seq<char>, Seq<char>)> = if focus_restore is Err || !focus_matches(
        focus,
        actual_focus,
    ) {
        seq![
            (
                "focus"@,
                expected_focus(focus),
                with_restore(focus_restore, focus_observed(focus, actual_focus)),
            ),
        ]
    } else {
        Seq::empty()
    };
    let c: Seq<(Seq<char>, Seq<char>, Seq<char>)> = if cursor_restore is Err || !cursor_matches(
        snapshot.cursor,
        actual_cursor,
    ) {
        seq![
            (
                "cursor"@,
                pair_text(snapshot.cursor),
                with_restore(cursor_restore, cursor_observed(actual_cursor)),
            ),
        ]
    } else {
        Seq::empty()
    };
    f + c
}

/// The verdict on a guarded action: its own failure and every restore
/// failure together as `Error::Guarded`, or, when the action succeeded and the
/// desktop is back, the two notes saying so.
pub open spec fn verdict_spec(
    snapshot: Snapshot,
    action: Result<(), Error>,
    focus_restore: Result<(), Error>,
    cursor_restore: Result<(), Error>,
    actual_focus: Result<Option<Client>, Error>,
    actual_cursor: Result<(i32, i32), Error>,
    r: Result<(String, String), Error>,
) -> bool {
    let failures = restore_failures(
        snapshot,
        focus_restore,
        cursor_restore,
        actual_focus,
        actual_cursor,
    );
    if action is Err || failures.len() > 0 {
        r matches Err(Error::Guarded { action: a, restore }) && restore@.map_values(
            |f: RestoreFailure| failure_view(f),
        ) == failures && match action {
            Ok(_) => a is None,
            Err(e) => a matches Some(b) && *b == e,
        }
    } else {
        r matches Ok((cursor_note, focus_note)) && cursor_note@ == match actual_cursor {
            Ok(p) => "cursor restored to "@ + pair_text(p),
            Err(_) => Seq::<char>::empty(),
        } && focus_note@ == match opt_view(snapshot.focus) {
            Some(a) => "focus restored to "@ + a,
            None => "no previous focus to restore"@,
        }
    }
}

/// Decides what a guarded action amounts to from what the restoration and
/// the reads that followed it gave.
pub fn verdict(
    snapshot: Snapshot,
    action: Result<(), Error>,
    focus_restore: Result<(), Error>,
    cursor_restore: Result<(), Error>,
    actual_focus: Result<Option<Client>, Error>,
    actual_cursor: Result<(i32, i32), Error>,
) -> (r: Result<(String, String), Error>)
    ensures
        verdict_spec(
            snapshot,
            action,
            focus_restore,
            cursor_restore,
            actual_focus,
            actual_cursor,
            r,
        ),
{
    let ghost gfocus = opt_view(snapshot.focus);
    let expected = match &snapshot.focus {
        Some(a) => cat("address:", a.as_str()),
        None => String::from_str("no focused window"),
    };
    let focus_ok = match (&snapshot.focus, &actual_focus) {
        (Some(e), Ok(Some(client))) => crate::text::str_eq(e.as_str(), client.address.as_str()),
        (None, Ok(None)) => true,
        _ => false,
    };
    let cursor_ok = match &actual_cursor {
        Ok(p) => cursor_near(*p, snapshot.cursor),
        Err(_) => false,
    };
    let mut restore: Vec<RestoreFailure> = Vec::new();
    if focus_restore.is_err() || !focus_ok {
        let observed = match &actual_focus {
            Ok(Some(client)) => {
                let mut o = cat("address:", client.address.as_str());
                if snapshot.focus.is_none() {
                    o.append("; cannot restore prior no-focus state");
                }
                o
            },
            Ok(None) => String::from_str("no focused window"),
            Err(e) => cat("verification failed: ", e.message().as_str()),
        };
        let actual = match &focus_restore {
            Ok(()) => observed,
            Err(e) => {
                let mut a = cat("restore failed: ", e.message().as_str());
                a.append("; observed ");
                a.append(observed.as_str());
                a
            },
        };
        restore.push(RestoreFailure::new("focus", expected, actual));
    }
    let ghost after_focus = restore@;
    if cursor_restore.is_err() || !cursor_ok {
        let observed = match &actual_cursor {
            Ok(p) => fmt_pair(*p),
            Err(e) => cat("verification failed: ", e.message().as_str()),
        };
        let actual = match &cursor_restore {
            Ok(()) => observed,
            Err(e) => {
                let mut a = cat("restore failed: ", e.message().as_str());
                a.append("; observed ");
                a.append(observed.as_str());
                a
            },
        };
        restore.push(RestoreFailure::new("cursor", fmt_pair(snapshot.cursor), actual));
    }
    assert(restore@.map_values(|f: RestoreFailure| failure_view(f)) =~= restore_failures(
        snapshot,
        focus_restore,
        cursor_restore,
        actual_focus,
        actual_cursor,
    ));
    match action {
        Err(e) => Err(Error::Guarded { action: Some(Box::new(e)), restore }),
        Ok(()) => {
            if restore.len() > 0 {
                return Err(Error::Guarded { action: None, restore });
            }
            let cursor_note = match &actual_cursor {
                Ok(p) => cat("cursor restored to ", fmt_pair(*p).as_str()),
                Err(_) => String::new(),
            };
            let focus_note = match snapshot.focus {
                Some(a) => cat("focus restored to ", a.as_str()),
                None => String::from_str("no previous focus to restore"),
            };
            Ok((cursor_note, focus_note))
        },
    }
}

/// One step of putting the user's desktop back.
#[derive(Debug)]
pub enum RestoreStep {
    /// `hyprctl dispatch focuswindow address:<address>` for the window that
    /// had the focus.
    Focus(String),
    /// The cursor put back at this position.
    Cursor((i32, i32)),
    /// The focused window read back with `hyprctl activewindow -j`.
    ReadFocus,
    /// The cursor read back with `hyprctl cursorpos`.
    ReadCursor,
}

/// A restore step as the contracts see it.
pub enum StepView {
    Focus(Seq<char>),
    Cursor((i32, i32)),
    ReadFocus,
    ReadCursor,
}

pub open spec fn step_view(step: RestoreStep) -> StepView {
    match step {
        RestoreStep::Focus(a) => StepView::Focus(a@),
        RestoreStep::Cursor(c) => StepView::Cursor(c),
        RestoreStep::ReadFocus => StepView::ReadFocus,
        RestoreStep::ReadCursor => StepView::ReadCursor,
    }
}

/// The steps that put a desktop back, in the order they go out: the prior
/// focus first when there was one, since Hyprland's `focuswindow` re-warps
/// the cursor; then the cursor; then the focus and the cursor read back.
/// Nothing follows the two reads.
pub open spec fn restore_plan_spec(snapshot: Snapshot) -> Seq<StepView> {
    let rest = seq![StepView::Cursor(snapshot.cursor), StepView::ReadFocus, StepView::ReadCursor];
    match opt_view(snapshot.focus) {
        Some(a) => seq![StepView::Focus(a)] + rest,
        None => rest,
    }
}

/// `plan` holds the steps that put `snapshot` back, in their order.
pub open spec fn planned(plan: Seq<RestoreStep>, snapshot: Snapshot) -> bool {
    plan.map_values(|step: RestoreStep| step_view(step)) == restore_plan_spec(snapshot)
}

/// The steps that put the desktop of `snapshot` back, in their order.
pub fn restore_plan(snapshot: &Snapshot) -> (plan: Vec<RestoreStep>)
    ensures
        planned(plan@, *snapshot),
{
    let mut plan: Vec<RestoreStep> = Vec::new();
    match &snapshot.focus {
        Some(a) => plan.push(RestoreStep::Focus(own(a.as_str()))),
        None => {},
    }
    plan.push(RestoreStep::Cursor(snapshot.cursor));
    plan.push(RestoreStep::ReadFocus);
    plan.push(RestoreStep::ReadCursor);
    assert(plan@.map_values(|step: RestoreStep| step_view(step)) =~= restore_plan_spec(*snapshot));
    plan
}

/// What the steps of a restore plan gave, each in its own place.
#[derive(Debug)]
pub struct RestoreReadings {
    /// What focusing the prior window gave.
    pub focus_restore: Result<(), Error>,
    /// What putting the cursor back gave.
    pub cursor_restore: Result<(), Error>,
    /// The focused window as read back.
    pub focus: Result<Option<Client>, Error>,
    /// The cursor as read back.
    pub cursor: Result<(i32, i32), Error>,
}

/// What putting the prior focus back gave: nothing was dispatched when no
/// window had the focus.
pub open spec fn focus_put_back(snapshot: Snapshot, got: RestoreReadings) -> Result<(), Error> {
    if snapshot.focus is Some {
        got.focus_restore
    } else {
        Ok(())
    }
}

/// The verdict on the readings of a restoration.
pub open spec fn judged(
    snapshot: Snapshot,
    action: Result<(), Error>,
    got: RestoreReadings,
    r: Result<(String, String), Error>,
) -> bool {
    verdict_spec(
        snapshot,
        action,
        focus_put_back(snapshot, got),
        got.cursor_restore,
        got.focus,
        got.cursor,
        r,
    )
}

/// What putting the desktop back gave: the plan of `snapshot` handed, whole
/// and once, to `perform`, which carries it out step by step, and the
/// verdict on what came back. Nothing else reaches the desktop.
pub open spec fn restored_spec<X: FnOnce(Vec<RestoreStep>) -> RestoreReadings>(
    perform: X,
    snapshot: Snapshot,
    action: Result<(), Error>,
    r: Result<(String, String), Error>,
) -> bool {
    exists|plan: Vec<RestoreStep>, got: RestoreReadings|
        #[trigger] call_ensures(perform, (plan,), got) && planned(plan@, snapshot) && judged(
            snapshot,
            action,
            got,
            r,
        )
}

/// A restore plan puts the prior focus back first, when there was one, then
/// the cursor where the snapshot had it, and ends with the focus read back
/// and then the cursor read back; it has no other step.
pub proof fn the_reads_come_last_after_the_focus_and_the_cursor(plan: Seq<RestoreStep>, snapshot: Snapshot)
    requires
        planned(plan, snapshot),
    ensures
        plan.len() == if snapshot.focus is Some { 4int } else { 3int },
        plan[plan.len() - 1] is ReadCursor,
        plan[plan.len() - 2] is ReadFocus,
        plan[plan.len() - 3] matches RestoreStep::Cursor(c) && c == snapshot.cursor,
        match snapshot.focus {
            Some(a) => plan[0] matches RestoreStep::Focus(x) && x@ == a@,
            None => true,
        },
{
    let views = plan.map_values(|step: RestoreStep| step_view(step));
    assert(views.len() == plan.len());
    assert(views[plan.len() - 1] == step_view(plan[plan.len() - 1]));
    assert(views[plan.len() - 2] == step_view(plan[plan.len() - 2]));
    assert(views[plan.len() - 3] == step_view(plan[plan.len() - 3]));
    assert(views[0] == step_view(plan[0]));
}

/// The verdict on a restoration rests on what was read back last. It is a
/// success only when the action and both put-back steps worked, the window
/// read back as focused has the address the snapshot held (no window at all
/// when none was focused), and the cursor read back is within one pixel of
/// the snapshot's on each axis. When the snapshot held the focus on `A` and
/// another window `B` was read back, the verdict is a `Guarded` failure
/// whose first entry is the focus, expected `address:A`, found `address:B`.
pub proof fn a_restoration_is_judged_on_what_was_read_back(
    snapshot: Snapshot,
    action: Result<(), Error>,
    focus_restore: Result<(), Error>,
    cursor_restore: Result<(), Error>,
    actual_focus: Result<Option<Client>, Error>,
    actual_cursor: Result<(i32, i32), Error>,
    r: Result<(String, String), Error>,
)
    requires
        verdict_spec(snapshot, action, focus_restore, cursor_restore, actual_focus, actual_cursor, r),
    ensures
        r is Ok ==> {
            &&& action is Ok
            &&& focus_restore is Ok
            &&& cursor_restore is Ok
            &&& match (snapshot.focus, actual_focus) {
                (Some(a), Ok(Some(client))) => client.address@ == a@,
                (None, Ok(None)) => true,
                _ => false,
            }
            &&& match actual_cursor {
                Ok(p) => -1 <= p.0 - snapshot.cursor.0 <= 1 && -1 <= p.1 - snapshot.cursor.1 <= 1,
                Err(_) => false,
            }
        },
        match (snapshot.focus, actual_focus) {
            (Some(a), Ok(Some(client))) => client.address@ != a@ ==> match r {
                Err(Error::Guarded { action: _, restore }) => restore@.len() >= 1 && restore@[0].what@ == "focus"@
                    && restore@[0].expected@ == "address:"@ + a@ && (focus_restore is Ok ==> restore@[0].actual@
                    == "address:"@ + client.address@),
                _ => false,
            },
            _ => true,
        },
{
    let failures = restore_failures(snapshot, focus_restore, cursor_restore, actual_focus, actual_cursor);
    if let (Some(a), Ok(Some(client))) = (snapshot.focus, actual_focus) {
        if client.address@ != a@ {
            assert(failures.len() >= 1);
            if let Err(Error::Guarded { action: _, restore }) = r {
                assert(restore@.map_values(|f: RestoreFailure| failure_view(f))[0] == failure_view(restore@[0]));
            }
        }
    }
}

/// A guarded action reports success only when the action worked, both
/// put-back steps went through, and the reads that came last found the
/// focus on the window that had it (or on none, when none had it) and the
/// cursor within the warp tolerance of where it was.
pub proof fn success_means_the_desktop_was_found_back(
    snapshot: Snapshot,
    action: Result<(), Error>,
    got: RestoreReadings,
    r: Result<(String, String), Error>,
)
    requires
        judged(snapshot, action, got, r),
        r is Ok,
    ensures
        action is Ok,
        focus_put_back(snapshot, got) is Ok,
        got.cursor_restore is Ok,
        focus_matches(opt_view(snapshot.focus), got.focus),
        cursor_matches(snapshot.cursor, got.cursor),
{
}

/// Judges a restoration from what its steps gave.
fn judge(snapshot: Snapshot, action: Result<(), Error>, got: RestoreReadings) -> (r: Result<(String, String), Error>)
    ensures
        judged(snapshot, action, got, r),
{
    let fr = match &snapshot.focus {
        Some(_) => got.focus_restore,
        None => Ok(()),
    };
    verdict(snapshot, action, fr, got.cursor_restore, got.focus, got.cursor)
}

/// Puts the user's focus and cursor back after a guarded action, and checks
/// that they are back: the plan of `snapshot` goes to `perform` in one piece,
/// and what its steps gave is judged.
pub fn restore<X: FnOnce(Vec<RestoreStep>) -> RestoreReadings>(
    perform: X,
    snapshot: Snapshot,
    action: Result<(), Error>,
) -> (r: Result<(String, String), Error>)
    requires
        forall|plan: Vec<RestoreStep>| call_requires(perform, (plan,)),
    ensures
        restored_spec(perform, snapshot, action, r),
{
    let plan = restore_plan(&snapshot);
    let ghost gplan = plan;
    let got = perform(plan);
    let ghost ggot = got;
    let ghost gs = snapshot;
    let ghost ga = action;
    let r = judge(snapshot, action, got);
    assert(call_ensures(perform, (gplan,), ggot) && planned(gplan@, gs) && judged(gs, ga, ggot, r));
    r
}

/// What running the stages of a guarded action gave: the snapshot, then the
/// preparation, then the focus on the session window and, when it went
/// through, the action, then the restoration with what the action gave. A
/// failed snapshot or preparation stops everything before the desktop is
/// touched. Each stage runs once.
pub open spec fn staged<S, T, E, Sn: FnOnce() -> Result<S, E>, Pr: FnOnce() -> Result<T, E>, Fo: FnOnce() -> Result<
    (),
    E,
>, Ac: FnOnce(&T) -> Result<(), E>, Re: FnOnce(S, &T, Result<(), E>) -> Result<(String, String), E>>(
    snapshot: Sn,
    prepare: Pr,
    focus: Fo,
    action: Ac,
    restore: Re,
    r: Result<(String, String), E>,
) -> bool {
    exists|sn: Result<S, E>|
        #[trigger] call_ensures(snapshot, (), sn) && match sn {
            Err(e) => r == Err::<(String, String), E>(e),
            Ok(s) => exists|pr: Result<T, E>|
                #[trigger] call_ensures(prepare, (), pr) && match pr {
                    Err(e) => r == Err::<(String, String), E>(e),
                    Ok(t) => exists|fo: Result<(), E>, ar: Result<(), E>|
                        #[trigger] acted_then_restored(focus, action, restore, s, t, fo, ar, r),
                },
        }
}

/// The focus gave `fo`; the action, when the focus went through, gave `ar`
/// (or the focus's failure stands for it); the restoration with `ar` gave
/// `r`.
pub open spec fn acted_then_restored<S, T, E, Fo: FnOnce() -> Result<(), E>, Ac: FnOnce(&T) -> Result<
    (),
    E,
>, Re: FnOnce(S, &T, Result<(), E>) -> Result<(String, String), E>>(
    focus: Fo,
    action: Ac,
    restore: Re,
    s: S,
    t: T,
    fo: Result<(), E>,
    ar: Result<(), E>,
    r: Result<(String, String), E>,
) -> bool {
    &&& call_ensures(focus, (), fo)
    &&& match fo {
        Ok(_) => call_ensures(action, (&t,), ar),
        Err(e) => ar == Err::<(), E>(e),
    }
    &&& call_ensures(restore, (s, &t, ar), r)
}

/// The stages of a guarded action, in order: the snapshot of the user's
/// desktop, the preparation, the focus on the session window, the action
/// when the focus went through, and the restoration, whatever the action
/// gave. Each stage is a closure called at most once.
pub fn run_with<S, T, E, Sn: FnOnce() -> Result<S, E>, Pr: FnOnce() -> Result<T, E>, Fo: FnOnce() -> Result<
    (),
    E,
>, Ac: FnOnce(&T) -> Result<(), E>, Re: FnOnce(S, &T, Result<(), E>) -> Result<(String, String), E>>(
    snapshot: Sn,
    prepare: Pr,
    focus: Fo,
    action: Ac,
    restore: Re,
) -> (r: Result<(String, String), E>)
    requires
        call_requires(snapshot, ()),
        call_requires(prepare, ()),
        call_requires(focus, ()),
        forall|t: &T| call_requires(action, (t,)),
        forall|s: S, t: &T, a: Result<(), E>| call_requires(restore, (s, t, a)),
    ensures
        staged(snapshot, prepare, focus, action, restore, r),
{
    let sn = snapshot();
    let ghost gsn = sn;
    let s = match sn {
        Err(e) => return Err(e),
        Ok(s) => s,
    };
    let pr = prepare();
    let ghost gpr = pr;
    let t = match pr {
        Err(e) => return Err(e),
        Ok(t) => t,
    };
    let fo = focus();
    let ghost gfo = fo;
    let ar = match fo {
        Ok(()) => action(&t),
        Err(e) => Err(e),
    };
    let ghost gar = ar;
    let ghost gs = s;
    let r = restore(s, &t, ar);
    assert(call_ensures(restore, (gs, &t, gar), r));
    assert(acted_then_restored(focus, action, restore, gs, t, gfo, gar, r));
    assert(call_ensures(snapshot, (), gsn));
    assert(call_ensures(prepare, (), gpr));
    assert(call_ensures(focus, (), gfo));
    assert(match gfo {
        Ok(_) => call_ensures(action, (&t,), gar),
        Err(e) => gar == Err::<(), E>(e),
    });
    r
}

/// The focus on the session window, from the pool's first runner when
/// there is a window to focus, and the action when the focus went through:
/// `ar` is what the action gave, or the focus's own failure.
pub open spec fn focused_then_acted<R: FnOnce(Vec<String>) -> Result<ProcessOutput, String>, T, A: FnOnce(
    &T,
) -> Result<(), Error>>(
    pool: Seq<R>,
    after: Seq<R>,
    focus_address: Option<Seq<char>>,
    action: A,
    t: T,
    fr: Result<(), Error>,
    ar: Result<(), Error>,
) -> bool {
    &&& match focus_address {
        Some(a) => spent(pool, after, 1) && dispatched_on(nth_runner(pool, 0), Ctl::Host, focus_args(a), fr),
        None => after == pool && fr is Ok,
    }
    &&& match fr {
        Ok(_) => call_ensures(action, (&t,), ar),
        Err(e) => ar == Err::<(), Error>(e),
    }
}

/// What a guarded action gave: the snapshot from the pool's first runners;
/// then the preparation; then, when both worked, the focus on the session
/// window from the next runner when there is one to focus, the action when
/// the focus went through, and the restoration, handed what the action gave.
/// No other runner is taken.
pub open spec fn guarded_spec<R: FnOnce(Vec<String>) -> Result<ProcessOutput, String>, P: Fn(
    String,
) -> Result<Client, String>, T, F: FnOnce() -> Result<T, Error>, A: FnOnce(&T) -> Result<
    (),
    Error,
>, X: FnOnce(&T, &Result<(), Error>, Vec<RestoreStep>) -> RestoreReadings>(
    pool: Seq<R>,
    after: Seq<R>,
    parse: P,
    focus_address: Option<Seq<char>>,
    prepare: F,
    action: A,
    perform: X,
    r: Result<(String, String), Error>,
) -> bool {
    exists|snap: Result<Snapshot, Error>, p1: Seq<R>|
        snapshot_spec(pool, p1, parse, snap) && match snap {
            Err(e) => r == Err::<(String, String), Error>(e) && after == p1,
            Ok(s) => exists|prep: Result<T, Error>|
                call_ensures(prepare, (), prep) && match prep {
                    Err(e) => r == Err::<(String, String), Error>(e) && after == p1,
                    Ok(t) => exists|fr: Result<(), Error>, ar: Result<(), Error>|
                        #[trigger] focused_then_acted(p1, after, focus_address, action, t, fr, ar)
                            && restored_with(perform, t, s, ar, r),
                },
        }
}

/// The restoration of a guarded action: the plan of `s` handed, whole and
/// once, to `perform` with the prepared value and what the action gave, and
/// the verdict on what its steps gave.
pub open spec fn restored_with<T, X: FnOnce(&T, &Result<(), Error>, Vec<RestoreStep>) -> RestoreReadings>(
    perform: X,
    t: T,
    s: Snapshot,
    action: Result<(), Error>,
    r: Result<(String, String), Error>,
) -> bool {
    exists|plan: Vec<RestoreStep>, got: RestoreReadings|
        #[trigger] call_ensures(perform, (&t, &action, plan), got) && planned(plan@, s) && judged(
            s,
            action,
            got,
            r,
        )
}

/// Runs `action` on the session window with the user's desktop guarded: the
/// focus and cursor are snapshotted, the window at `focus_address` focused,
/// the action run, and the desktop put back and checked, whatever the action
/// gave. The snapshot and the focus take one runner of `runners` each, in
/// order, and the runners left over are handed back untouched; the
/// restoration goes to `perform` as one plan.
pub fn run<R: FnOnce(Vec<String>) -> Result<ProcessOutput, String>, P: Fn(String) -> Result<
    Client,
    String,
>, T, F: FnOnce() -> Result<T, Error>, A: FnOnce(&T) -> Result<(), Error>, X: FnOnce(
    &T,
    &Result<(), Error>,
    Vec<RestoreStep>,
) -> RestoreReadings>(
    runners: &mut Vec<R>,
    parse: &P,
    focus_address: Option<&str>,
    prepare: F,
    action: A,
    perform: X,
) -> (r: Result<(String, String), Error>)
    requires
        old(runners)@.len() >= GUARD_RUNNERS,
        runnable(old(runners)@),
        forall|s: String| call_requires(*parse, (s,)),
        call_requires(prepare, ()),
        forall|t: &T| call_requires(action, (t,)),
        forall|t: &T, a: &Result<(), Error>, plan: Vec<RestoreStep>| call_requires(perform, (t, a, plan)),
    ensures
        guarded_spec(
            old(runners)@,
            final(runners)@,
            *parse,
            match focus_address {
                Some(a) => Some(a@),
                None => None,
            },
            prepare,
            action,
            perform,
            r,
        ),
{
    let ghost pool = runners@;
    let snap = snapshot(runners, parse);
    let ghost gsnap = snap;
    let ghost p1 = runners@;
    assert(runnable(p1)) by {
        assert forall|i: int, v: Vec<String>| 0 <= i < p1.len() implies #[trigger] call_requires(p1[i], (v,)) by {
            assert(p1[i] == pool[i]);
        }
    }
    let s = match snap {
        Err(e) => return Err(e),
        Ok(s) => s,
    };
    let prep = prepare();
    let ghost gprep = prep;
    let t = match prep {
        Err(e) => return Err(e),
        Ok(t) => t,
    };
    let fr = match focus_address {
        Some(address) => {
            let focus_run = next_runner(runners);
            focus_window(focus_run, address)
        },
        None => Ok(()),
    };
    let ghost gfr = fr;
    let ar = match fr {
        Ok(()) => action(&t),
        Err(e) => Err(e),
    };
    let ghost gar = ar;
    let ghost gs = s;
    assert(focused_then_acted(p1, runners@, match focus_address {
        Some(a) => Some(a@),
        None => None,
    }, action, t, gfr, gar));
    let plan = restore_plan(&s);
    let ghost gplan = plan;
    let got = perform(&t, &ar, plan);
    let ghost ggot = got;
    let r = judge(s, ar, got);
    assert(call_ensures(perform, (&t, &gar, gplan), ggot) && planned(gplan@, gs) && judged(gs, gar, ggot, r));
    assert(restored_with(perform, t, gs, gar, r));
    r
}

} // verus!
