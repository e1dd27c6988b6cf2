//! The one place a durable change to the user's compositor is posed. What each
//! mutation costs to undo lives next door, in `ledger`.
use vstd::prelude::*;

use crate::error::Error;
use crate::hypr::{self, Ctl, ProcessOutput, WorkspaceRule, argv_spec, create_args, dispatch_args,
    headless_rule_spec, label_spec, monitor_args, ok_spec, remove_args, reply_spec,
    string_views, workspace_args, workspace_rule_spec};
use crate::text::{dec, fmt_i64, int_text};

pub mod ledger;

verus! {

/// `hyprctl output create headless OUTPUT`.
pub fn output_create_headless<R: FnOnce(Vec<String>) -> Result<ProcessOutput, String>>(
    run: R,
    output: &str,
) -> (r: Result<(), Error>)
    requires
        forall|v: Vec<String>| call_requires(run, (v,)),
    ensures
        exists|v: Vec<String>, out: Result<ProcessOutput, String>, reply: Result<String, Error>|
            string_views(v@) == argv_spec(Ctl::Host, create_args(output@)) && call_ensures(
                run,
                (v,),
                out,
            ) && reply_spec(label_spec(Ctl::Host, create_args(output@)), out, reply) && ok_spec(
                label_spec(Ctl::Host, create_args(output@)),
                reply,
                r,
            ),
{
    hypr::output_create_headless(run, output)
}

/// `hyprctl output remove OUTPUT`.
pub fn output_remove<R: FnOnce(Vec<String>) -> Result<ProcessOutput, String>>(run: R, output: &str) -> (r:
    Result<(), Error>)
    requires
        forall|v: Vec<String>| call_requires(run, (v,)),
    ensures
        exists|v: Vec<String>, out: Result<ProcessOutput, String>, reply: Result<String, Error>|
            string_views(v@) == argv_spec(Ctl::Host, remove_args(output@)) && call_ensures(
                run,
                (v,),
                out,
            ) && reply_spec(label_spec(Ctl::Host, remove_args(output@)), out, reply) && ok_spec(
                label_spec(Ctl::Host, remove_args(output@)),
                reply,
                r,
            ),
{
    hypr::output_remove(run, output)
}

/// Poses the headless mode-set rule of OUTPUT.
pub fn keyword_monitor<R: FnOnce(Vec<String>) -> Result<ProcessOutput, String>>(
    run: R,
    output: &str,
    width: u32,
    height: u32,
) -> (r: Result<(), Error>)
    requires
        forall|v: Vec<String>| call_requires(run, (v,)),
    ensures
        exists|v: Vec<String>, out: Result<ProcessOutput, String>, reply: Result<String, Error>|
            string_views(v@) == argv_spec(
                Ctl::Host,
                monitor_args(headless_rule_spec(output@, width, height)),
            ) && call_ensures(run, (v,), out) && reply_spec(
                label_spec(Ctl::Host, monitor_args(headless_rule_spec(output@, width, height))),
                out,
                reply,
            ) && ok_spec(
                label_spec(Ctl::Host, monitor_args(headless_rule_spec(output@, width, height))),
                reply,
                r,
            ),
{
    hypr::keyword_monitor(run, output, width, height)
}

/// Binds WORKSPACE to MONITOR.
pub fn keyword_workspace<R: FnOnce(Vec<String>) -> Result<ProcessOutput, String>>(
    run: R,
    workspace: &str,
    monitor: &str,
) -> (r: Result<(), Error>)
    requires
        forall|v: Vec<String>| call_requires(run, (v,)),
    ensures
        exists|v: Vec<String>, out: Result<ProcessOutput, String>, reply: Result<String, Error>|
            string_views(v@) == argv_spec(
                Ctl::Host,
                workspace_args(workspace_rule_spec(workspace@, monitor@)),
            ) && call_ensures(run, (v,), out) && reply_spec(
                label_spec(Ctl::Host, workspace_args(workspace_rule_spec(workspace@, monitor@))),
                out,
                reply,
            ) && ok_spec(
                label_spec(Ctl::Host, workspace_args(workspace_rule_spec(workspace@, monitor@))),
                reply,
                r,
            ),
{
    hypr::keyword_workspace(run, workspace, monitor)
}

/// The rule text `keyword_workspace` posts, so a ledger entry records exactly
/// what went on the host.
pub fn workspace_rule(workspace: &str, monitor: &str) -> (r: String)
    ensures
        r@ == workspace_rule_spec(workspace@, monitor@),
{
    hypr::workspace_rule(workspace, monitor)
}

/// Whether `rules` holds a rule binding `workspace` to `monitor`.
pub fn holds_rule(rules: &Vec<WorkspaceRule>, workspace: &str, monitor: &str) -> (r: bool)
    ensures
        r == exists|i: int|
            0 <= i < rules@.len() && rules@[i].workspace_string@ == workspace@ && rules@[i].monitor@
                == monitor@,
{
    let mut i: usize = 0;
    while i < rules.len()
        invariant
            i <= rules@.len(),
            forall|j: int|
                0 <= j < i ==> !(rules@[j].workspace_string@ == workspace@ && rules@[j].monitor@
                    == monitor@),
        decreases rules@.len() - i,
    {
        if rules[i].binds(workspace, monitor) {
            return true;
        }
        i += 1;
    }
    false
}

/// Whether the compositor already holds this rule, given what reading its rule
/// table gave. A table that could not be read answers `false`: the cost of
/// being wrong is one duplicate rule, never a refused start.
pub fn workspace_rule_is_posted(
    rules: &Result<Vec<WorkspaceRule>, Error>,
    workspace: &str,
    monitor: &str,
) -> (r: bool)
    ensures
        match rules {
            Ok(rs) => r == exists|i: int|
                0 <= i < rs@.len() && rs@[i].workspace_string@ == workspace@ && rs@[i].monitor@
                    == monitor@,
            Err(_) => !r,
        },
{
    match rules {
        Ok(list) => holds_rule(list, workspace, monitor),
        Err(_) => false,
    }
}

/// `["renameworkspace", ID, TO]`.
pub open spec fn rename_args(id: i64, to: Seq<char>) -> Seq<Seq<char>> {
    seq!["renameworkspace"@, int_text(id as int), to]
}

/// Renames workspace `id`: the id, never the name, is what survives the rename.
pub fn rename_workspace<R: FnOnce(Vec<String>) -> Result<ProcessOutput, String>>(
    run: R,
    id: i64,
    to: &str,
) -> (r: Result<(), Error>)
    requires
        forall|v: Vec<String>| call_requires(run, (v,)),
    ensures
        exists|v: Vec<String>, out: Result<ProcessOutput, String>, reply: Result<String, Error>|
            string_views(v@) == argv_spec(Ctl::Host, dispatch_args(rename_args(id, to@)))
                && call_ensures(run, (v,), out) && reply_spec(
                label_spec(Ctl::Host, dispatch_args(rename_args(id, to@))),
                out,
                reply,
            ) && ok_spec(label_spec(Ctl::Host, dispatch_args(rename_args(id, to@))), reply, r),
{
    let id_text = fmt_i64(id);
    let args: [&str; 3] = ["renameworkspace", id_text.as_str(), to];
    assert(hypr::views(args@) =~= rename_args(id, to@));
    hypr::dispatch(run, &args)
}

/// `["moveworkspacetomonitor", SELECTOR, MONITOR]`.
pub open spec fn move_args(selector: Seq<char>, monitor: Seq<char>) -> Seq<Seq<char>> {
    seq!["moveworkspacetomonitor"@, selector, monitor]
}

/// Moves the workspace `selector` names onto `monitor`.
pub fn move_workspace_to_monitor<R: FnOnce(Vec<String>) -> Result<ProcessOutput, String>>(
    run: R,
    selector: &str,
    monitor: &str,
) -> (r: Result<(), Error>)
    requires
        forall|v: Vec<String>| call_requires(run, (v,)),
    ensures
        exists|v: Vec<String>, out: Result<ProcessOutput, String>, reply: Result<String, Error>|
            string_views(v@) == argv_spec(Ctl::Host, dispatch_args(move_args(selector@, monitor@)))
                && call_ensures(run, (v,), out) && reply_spec(
                label_spec(Ctl::Host, dispatch_args(move_args(selector@, monitor@))),
                out,
                reply,
            ) && ok_spec(
                label_spec(Ctl::Host, dispatch_args(move_args(selector@, monitor@))),
                reply,
                r,
            ),
{
    let args: [&str; 3] = ["moveworkspacetomonitor", selector, monitor];
    assert(hypr::views(args@) =~= move_args(selector@, monitor@));
    hypr::dispatch(run, &args)
}

} // verus!
