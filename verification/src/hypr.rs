//! What `hyprctl` is asked and how its answers are read. The process itself is
//! run by the caller, through the `run` function every query takes: it receives
//! the argument vector and hands back what the process printed.
use vstd::prelude::*;

use crate::error::Error;
use crate::text::{cat, cat3, chars, dec, fmt_u64, own, parse_i32, parse_i32_spec, split_once,
    split_once_spec, str_eq, trim, trimmed};

verus! {

#[derive(Debug, Clone)]
pub struct WorkspaceRef {
    pub name: String,
}

/// A monitor's active workspace, whose id `renameworkspace` needs.
#[derive(Debug, Clone)]
pub struct ActiveWorkspace {
    pub id: i64,
    pub name: String,
}

/// The workspace the user is on, with the monitor showing it.
#[derive(Debug, Clone)]
pub struct FocusedWorkspace {
    pub name: String,
    pub monitor: String,
}

#[derive(Debug, Clone)]
pub struct Client {
    pub address: String,
    pub at: [i32; 2],
    pub size: [i32; 2],
    pub workspace: WorkspaceRef,
    pub floating: bool,
    pub monitor: i64,
    pub class: String,
    pub initial_class: String,
    pub title: String,
    pub initial_title: String,
    pub pid: i32,
}

impl Client {
    /// A copy of this window's description.
    pub fn duplicate(&self) -> (r: Client)
        ensures
            r == *self,
    {
        Client {
            address: self.address.clone(),
            at: self.at,
            size: self.size,
            workspace: WorkspaceRef { name: self.workspace.name.clone() },
            floating: self.floating,
            monitor: self.monitor,
            class: self.class.clone(),
            initial_class: self.initial_class.clone(),
            title: self.title.clone(),
            initial_title: self.initial_title.clone(),
            pid: self.pid,
        }
    }
}

/// A monitor in layout coordinates. `hyprctl` reports the mode in physical
/// pixels and a scale; the logical size is the mode divided by the scale, with
/// width and height swapped for 90° and 270° transforms, and is what every
/// placement and crop works in. `unit_scale` says whether the scale is exactly 1.
#[derive(Debug, Clone)]
pub struct Monitor {
    pub id: i64,
    pub name: String,
    pub width: i64,
    pub height: i64,
    pub x: i64,
    pub y: i64,
    pub logical_width: i64,
    pub logical_height: i64,
    pub unit_scale: bool,
    pub active_workspace: ActiveWorkspace,
    pub special_workspace: String,
}

impl Monitor {
    /// A copy of this monitor's description.
    pub fn duplicate(&self) -> (r: Monitor)
        ensures
            r == *self,
    {
        Monitor {
            id: self.id,
            name: self.name.clone(),
            width: self.width,
            height: self.height,
            x: self.x,
            y: self.y,
            logical_width: self.logical_width,
            logical_height: self.logical_height,
            unit_scale: self.unit_scale,
            active_workspace: ActiveWorkspace {
                id: self.active_workspace.id,
                name: self.active_workspace.name.clone(),
            },
            special_workspace: self.special_workspace.clone(),
        }
    }
}

#[derive(Debug, Clone)]
pub struct Devices {
    pub keyboards: Vec<Keyboard>,
}

/// The XKB fields an agent desktop inherits from the host.
#[derive(Debug, Clone)]
pub struct Keyboard {
    pub rules: String,
    pub model: String,
    pub layout: String,
    pub variant: String,
    pub options: String,
    pub active_keymap: String,
    pub main: bool,
}

/// One row of `hyprctl workspacerules`.
#[derive(Debug, Clone)]
pub struct WorkspaceRule {
    pub workspace_string: String,
    pub monitor: String,
}

impl WorkspaceRule {
    /// Whether this rule already binds `workspace` to `monitor`.
    pub fn binds(&self, workspace: &str, monitor: &str) -> (r: bool)
        ensures
            r == (self.workspace_string@ == workspace@ && self.monitor@ == monitor@),
    {
        str_eq(self.workspace_string.as_str(), workspace) && str_eq(self.monitor.as_str(), monitor)
    }
}

/// One row of `hyprctl instances`.
#[derive(Debug, Clone)]
pub struct InstanceInfo {
    pub instance: String,
    pub pid: i32,
    pub wl_socket: String,
}

/// What a finished process printed, as lossy UTF-8.
#[derive(Debug, Clone)]
pub struct ProcessOutput {
    pub success: bool,
    pub stdout: String,
    pub stderr: String,
}

/// Which compositor a command is addressed to: the host, or a nested instance
/// identified by its signature.
#[derive(Debug, Clone, Copy, PartialEq, Eq)]
pub enum Ctl<'a> {
    Host,
    Instance(&'a str),
}

/// The arguments `hyprctl` is given before the command itself.
pub open spec fn prefix_spec(ctl: Ctl) -> Seq<Seq<char>> {
    match ctl {
        Ctl::Host => Seq::empty(),
        Ctl::Instance(signature) => seq!["-i"@, signature@],
    }
}

/// The views of a list of strings.
pub open spec fn views(args: Seq<&str>) -> Seq<Seq<char>> {
    args.map_values(|a: &str| a@)
}

pub open spec fn string_views(args: Seq<String>) -> Seq<Seq<char>> {
    args.map_values(|a: String| a@)
}

pub proof fn lemma_string_views_push(s: Seq<String>, x: String)
    ensures
        string_views(s.push(x)) == string_views(s).push(x@),
{
    assert(string_views(s.push(x)) =~= string_views(s).push(x@));
}

pub proof fn lemma_views_push<'b>(s: Seq<&'b str>, x: &'b str)
    ensures
        views(s.push(x)) == views(s).push(x@),
{
    assert(views(s.push(x)) =~= views(s).push(x@));
}

pub proof fn lemma_views_prefix<'b>(s: Seq<&'b str>, i: int)
    requires
        0 <= i < s.len(),
    ensures
        views(s.subrange(0, i + 1)) == views(s.subrange(0, i)).push(s[i]@),
{
    assert(s.subrange(0, i + 1) =~= s.subrange(0, i).push(s[i]));
    lemma_views_push(s.subrange(0, i), s[i]);
}

/// Words joined by single spaces.
pub open spec fn joined(words: Seq<Seq<char>>) -> Seq<char>
    decreases words.len(),
{
    if words.len() == 0 {
        Seq::empty()
    } else if words.len() == 1 {
        words[0]
    } else {
        joined(words.drop_last()) + " "@ + words.last()
    }
}

/// How a command reads in a message: `hyprctl [-i SIG] ARGS...`.
pub open spec fn label_spec(ctl: Ctl, args: Seq<Seq<char>>) -> Seq<char> {
    match ctl {
        Ctl::Host => "hyprctl "@ + joined(args),
        Ctl::Instance(signature) => "hyprctl -i "@ + signature@ + " "@ + joined(args),
    }
}

/// `args` joined by single spaces.
pub fn join_words(args: &[&str]) -> (r: String)
    ensures
        r@ == joined(views(args@)),
{
    let mut r = String::new();
    let mut i: usize = 0;
    while i < args.len()
        invariant
            i <= args@.len(),
            r@ == joined(views(args@.subrange(0, i as int))),
        decreases args@.len() - i,
    {
        proof {
            assert(views(args@.subrange(0, i + 1)).drop_last() =~= views(
                args@.subrange(0, i as int),
            ));
        }
        if i > 0 {
            r.append(" ");
        } else {
            assert(r@ == Seq::<char>::empty());
        }
        r.append(args[i]);
        proof {
            let w = views(args@.subrange(0, i + 1));
            assert(w.last() == args@[i as int]@);
            if i == 0 {
                assert(w.len() == 1);
                assert(r@ =~= w[0]);
            }
        }
        i += 1;
    }
    assert(args@.subrange(0, args@.len() as int) =~= args@);
    r
}

impl<'a> Ctl<'a> {
    /// The arguments that address this compositor.
    pub fn prefix(self) -> (r: Vec<String>)
        ensures
            string_views(r@) == prefix_spec(self),
    {
        let mut r: Vec<String> = Vec::new();
        match self {
            Ctl::Host => {},
            Ctl::Instance(signature) => {
                r.push(String::from_str("-i"));
                r.push(String::from_str(signature));
            },
        }
        assert(string_views(r@) =~= prefix_spec(self));
        r
    }

    /// How a command to this compositor reads in a message.
    pub fn label(self, args: &[&str]) -> (r: String)
        ensures
            r@ == label_spec(self, views(args@)),
    {
        let words = join_words(args);
        match self {
            Ctl::Host => cat("hyprctl ", words.as_str()),
            Ctl::Instance(signature) => {
                let mut r = String::from_str("hyprctl -i ");
                r.append(signature);
                r.append(" ");
                r.append(words.as_str());
                r
            },
        }
    }
}

/// The full argument vector of a command: prefix, then `args`.
pub open spec fn argv_spec(ctl: Ctl, args: Seq<Seq<char>>) -> Seq<Seq<char>> {
    prefix_spec(ctl) + args
}

/// The argument vector handed to `hyprctl`.
pub fn argv(ctl: Ctl, args: &[&str]) -> (r: Vec<String>)
    ensures
        string_views(r@) == argv_spec(ctl, views(args@)),
{
    let mut r = ctl.prefix();
    let ghost p = r@;
    let mut i: usize = 0;
    while i < args.len()
        invariant
            i <= args@.len(),
            string_views(p) == prefix_spec(ctl),
            r@.len() == p.len() + i,
            string_views(r@) == prefix_spec(ctl) + views(args@.subrange(0, i as int)),
        decreases args@.len() - i,
    {
        let ghost before = r@;
        r.push(String::from_str(args[i]));
        proof {
            lemma_string_views_push(before, r@.last());
            lemma_views_prefix(args@, i as int);
            assert(string_views(r@) =~= prefix_spec(ctl) + views(args@.subrange(0, i + 1)));
        }
        i += 1;
    }
    assert(args@.subrange(0, args@.len() as int) =~= args@);
    r
}

/// What a `hyprctl` run amounts to: its trimmed stdout on success, the failure
/// otherwise. A process that could not be started reads as `Err(text)`.
pub open spec fn reply_spec(
    label: Seq<char>,
    out: Result<ProcessOutput, String>,
    r: Result<String, Error>,
) -> bool {
    match out {
        Err(io) => r matches Err(Error::Io { context, message }) && context@ == "running `"@
            + label + "`"@ && message@ == io@,
        Ok(o) => if o.success {
            r matches Ok(s) && s@ == trimmed(o.stdout@)
        } else {
            r matches Err(Error::Tool { command, message }) && command@ == label && message@ == (
            if trimmed(o.stderr@).len() == 0 {
                trimmed(o.stdout@)
            } else {
                trimmed(o.stderr@)
            })
        },
    }
}

/// Runs `hyprctl` on `ctl` with `args`.
pub fn run_on<R: FnOnce(Vec<String>) -> Result<ProcessOutput, String>>(
    run: R,
    ctl: Ctl,
    args: &[&str],
) -> (r: Result<String, Error>)
    requires
        forall|v: Vec<String>| call_requires(run, (v,)),
    ensures
        exists|v: Vec<String>, out: Result<ProcessOutput, String>|
            string_views(v@) == argv_spec(ctl, views(args@)) && call_ensures(run, (v,), out)
                && reply_spec(label_spec(ctl, views(args@)), out, r),
{
    let label = ctl.label(args);
    let v = argv(ctl, args);
    let ghost gv = v;
    let out = run(v);
    match out {
        Err(io) => Err(Error::Io { context: cat3("running `", label.as_str(), "`"), message: io }),
        Ok(o) => {
            let stdout = trim(o.stdout.as_str());
            if o.success {
                Ok(stdout)
            } else {
                let stderr = trim(o.stderr.as_str());
                let message = if stderr.unicode_len() == 0 {
                    stdout
                } else {
                    stderr
                };
                Err(Error::Tool { command: label, message })
            }
        },
    }
}

/// What a dispatcher answered: Hyprland prints `ok` on success and an error
/// text, sometimes with exit code 0, otherwise.
pub open spec fn ok_spec(label: Seq<char>, reply: Result<String, Error>, r: Result<(), Error>) -> bool {
    match reply {
        Err(_) => r == Err::<(), Error>(reply->Err_0),
        Ok(out) => if out@ == "ok"@ {
            r matches Ok(_)
        } else {
            r matches Err(Error::Tool { command, message }) && command@ == label && message@
                == out@
        },
    }
}

/// Checks the `ok` a mutating command answers with.
pub fn expect_ok_reply(label: String, reply: Result<String, Error>) -> (r: Result<(), Error>)
    ensures
        ok_spec(label@, reply, r),
{
    match reply {
        Err(e) => Err(e),
        Ok(out) => {
            if str_eq(out.as_str(), "ok") {
                Ok(())
            } else {
                Err(Error::Tool { command: label, message: out })
            }
        },
    }
}

/// `["dispatch"] ++ args`.
pub open spec fn dispatch_args(args: Seq<Seq<char>>) -> Seq<Seq<char>> {
    seq!["dispatch"@] + args
}

fn dispatch_words<'b>(args: &[&'b str]) -> (r: Vec<&'b str>)
    ensures
        views(r@) == dispatch_args(views(args@)),
{
    let mut full: Vec<&str> = Vec::new();
    full.push("dispatch");
    let mut i: usize = 0;
    while i < args.len()
        invariant
            i <= args@.len(),
            views(full@) == dispatch_args(views(args@.subrange(0, i as int))),
        decreases args@.len() - i,
    {
        let ghost before = full@;
        full.push(args[i]);
        proof {
            lemma_views_push(before, args[i as int]);
            lemma_views_prefix(args@, i as int);
            assert(views(full@) =~= dispatch_args(views(args@.subrange(0, i + 1))));
        }
        i += 1;
    }
    assert(args@.subrange(0, args@.len() as int) =~= args@);
    full
}

/// Every runner of a pool takes any command.
pub open spec fn runnable<R: FnOnce(Vec<String>) -> Result<ProcessOutput, String>>(pool: Seq<R>) -> bool {
    forall|i: int, v: Vec<String>| 0 <= i < pool.len() ==> #[trigger] call_requires(pool[i], (v,))
}

/// The runner a function takes for its `k`-th command. A function that issues
/// commands through a pool takes each runner from the end of the pool and
/// can call it once, so the runners it took are exactly the commands it ran.
pub open spec fn nth_runner<R>(pool: Seq<R>, k: int) -> R {
    pool[pool.len() - 1 - k]
}

/// Exactly `k` runners were taken from `before`, leaving `after`.
pub open spec fn spent<R>(before: Seq<R>, after: Seq<R>, k: int) -> bool {
    0 <= k <= before.len() && after == before.subrange(0, before.len() - k)
}

/// Takes the next runner of a pool.
pub fn take_runner<R>(pool: &mut Vec<R>) -> (r: R)
    requires
        old(pool)@.len() > 0,
    ensures
        r == nth_runner(old(pool)@, 0),
        spent(old(pool)@, final(pool)@, 1),
{
    pool.pop().unwrap()
}

/// Takes a runner that, like every runner of the pool, takes any command.
pub fn next_runner<R: FnOnce(Vec<String>) -> Result<ProcessOutput, String>>(runners: &mut Vec<R>) -> (r: R)
    requires
        old(runners)@.len() > 0,
        runnable(old(runners)@),
    ensures
        r == nth_runner(old(runners)@, 0),
        spent(old(runners)@, final(runners)@, 1),
        runnable(final(runners)@),
        forall|v: Vec<String>| call_requires(r, (v,)),
{
    let ghost pool = runners@;
    let r = take_runner(runners);
    assert forall|v: Vec<String>| call_requires(r, (v,)) by {
        assert(call_requires(pool[pool.len() - 1], (v,)));
    }
    assert forall|i: int, v: Vec<String>| 0 <= i < runners@.len() implies #[trigger] call_requires(
        runners@[i],
        (v,),
    ) by {
        assert(runners@[i] == pool[i]);
    }
    r
}

/// Runs a dispatcher on `ctl`: `hyprctl [-i SIG] dispatch ARGS...`, expecting `ok`.
pub fn dispatch_on<R: FnOnce(Vec<String>) -> Result<ProcessOutput, String>>(
    run: R,
    ctl: Ctl,
    args: &[&str],
) -> (r: Result<(), Error>)
    requires
        forall|v: Vec<String>| call_requires(run, (v,)),
    ensures
        exists|v: Vec<String>, out: Result<ProcessOutput, String>, reply: Result<String, Error>|
            string_views(v@) == argv_spec(ctl, dispatch_args(views(args@))) && call_ensures(
                run,
                (v,),
                out,
            ) && reply_spec(label_spec(ctl, dispatch_args(views(args@))), out, reply) && ok_spec(
                label_spec(ctl, dispatch_args(views(args@))),
                reply,
                r,
            ),
{
    let full = dispatch_words(args);
    let label = ctl.label(full.as_slice());
    let reply = run_on(run, ctl, full.as_slice());
    expect_ok_reply(label, reply)
}

/// A dispatcher on the host.
pub fn dispatch<R: FnOnce(Vec<String>) -> Result<ProcessOutput, String>>(run: R, args: &[&str]) -> (r:
    Result<(), Error>)
    requires
        forall|v: Vec<String>| call_requires(run, (v,)),
    ensures
        exists|v: Vec<String>, out: Result<ProcessOutput, String>, reply: Result<String, Error>|
            string_views(v@) == argv_spec(Ctl::Host, dispatch_args(views(args@))) && call_ensures(
                run,
                (v,),
                out,
            ) && reply_spec(label_spec(Ctl::Host, dispatch_args(views(args@))), out, reply)
                && ok_spec(label_spec(Ctl::Host, dispatch_args(views(args@))), reply, r),
{
    dispatch_on(run, Ctl::Host, args)
}

/// A host command that answers `ok` on success.
pub fn expect_ok<R: FnOnce(Vec<String>) -> Result<ProcessOutput, String>>(run: R, args: &[&str]) -> (r:
    Result<(), Error>)
    requires
        forall|v: Vec<String>| call_requires(run, (v,)),
    ensures
        exists|v: Vec<String>, out: Result<ProcessOutput, String>, reply: Result<String, Error>|
            string_views(v@) == argv_spec(Ctl::Host, views(args@)) && call_ensures(run, (v,), out)
                && reply_spec(label_spec(Ctl::Host, views(args@)), out, reply) && ok_spec(
                label_spec(Ctl::Host, views(args@)),
                reply,
                r,
            ),
{
    let label = Ctl::Host.label(args);
    let reply = run_on(run, Ctl::Host, args);
    expect_ok_reply(label, reply)
}

/// `hyprctl cursorpos` prints `X, Y`.
pub open spec fn cursor_pos_spec(raw: Seq<char>) -> Option<(i32, i32)> {
    match split_once_spec(raw, ',') {
        Some((x, y)) => match (parse_i32_spec(trimmed(x)), parse_i32_spec(trimmed(y))) {
            (Some(a), Some(b)) => Some((a, b)),
            _ => None,
        },
        None => None,
    }
}

/// Reads the `X, Y` that `hyprctl cursorpos` prints.
pub fn parse_cursor_pos(raw: &str) -> (r: Option<(i32, i32)>)
    ensures
        r == cursor_pos_spec(raw@),
{
    match split_once(raw, ',') {
        Some((x, y)) => {
            let tx = trim(x.as_str());
            let ty = trim(y.as_str());
            match (parse_i32(tx.as_str()), parse_i32(ty.as_str())) {
                (Some(a), Some(b)) => Some((a, b)),
                _ => None,
            }
        },
        None => None,
    }
}

/// The cursor position on `ctl`.
pub fn cursor_pos_on<R: FnOnce(Vec<String>) -> Result<ProcessOutput, String>>(run: R, ctl: Ctl) -> (r:
    Result<(i32, i32), Error>)
    requires
        forall|v: Vec<String>| call_requires(run, (v,)),
    ensures
        exists|v: Vec<String>, out: Result<ProcessOutput, String>, reply: Result<String, Error>|
            string_views(v@) == argv_spec(ctl, seq!["cursorpos"@]) && call_ensures(run, (v,), out)
                && reply_spec(label_spec(ctl, seq!["cursorpos"@]), out, reply) && match reply {
                Err(_) => r == Err::<(i32, i32), Error>(reply->Err_0),
                Ok(raw) => match cursor_pos_spec(raw@) {
                    Some(p) => r == Ok::<(i32, i32), Error>(p),
                    None => r matches Err(Error::Tool { command, message }) && command@
                        == label_spec(ctl, seq!["cursorpos"@]) && message@ == "unparseable output `"@
                        + raw@ + "`"@,
                },
            },
{
    let args: [&str; 1] = ["cursorpos"];
    assert(views(args@) =~= seq!["cursorpos"@]);
    let label = ctl.label(&args);
    let reply = run_on(run, ctl, &args);
    match reply {
        Err(e) => Err(e),
        Ok(raw) => match parse_cursor_pos(raw.as_str()) {
            Some(p) => Ok(p),
            None => Err(Error::Tool {
                command: label,
                message: cat3("unparseable output `", raw.as_str(), "`"),
            }),
        },
    }
}

/// The cursor position on the host.
pub fn cursor_pos<R: FnOnce(Vec<String>) -> Result<ProcessOutput, String>>(run: R) -> (r: Result<
    (i32, i32),
    Error,
>)
    requires
        forall|v: Vec<String>| call_requires(run, (v,)),
    ensures
        exists|v: Vec<String>, out: Result<ProcessOutput, String>, reply: Result<String, Error>|
            string_views(v@) == argv_spec(Ctl::Host, seq!["cursorpos"@]) && call_ensures(
                run,
                (v,),
                out,
            ) && reply_spec(label_spec(Ctl::Host, seq!["cursorpos"@]), out, reply) && match reply {
                Err(_) => r == Err::<(i32, i32), Error>(reply->Err_0),
                Ok(raw) => match cursor_pos_spec(raw@) {
                    Some(p) => r == Ok::<(i32, i32), Error>(p),
                    None => r matches Err(Error::Tool { command, message }) && command@
                        == label_spec(Ctl::Host, seq!["cursorpos"@]) && message@
                        == "unparseable output `"@ + raw@ + "`"@,
                },
            },
{
    cursor_pos_on(run, Ctl::Host)
}

/// The version text of the compositor on `ctl`.
pub fn version_on<R: FnOnce(Vec<String>) -> Result<ProcessOutput, String>>(run: R, ctl: Ctl) -> (r:
    Result<String, Error>)
    requires
        forall|v: Vec<String>| call_requires(run, (v,)),
    ensures
        exists|v: Vec<String>, out: Result<ProcessOutput, String>|
            string_views(v@) == argv_spec(ctl, seq!["version"@]) && call_ensures(run, (v,), out)
                && reply_spec(label_spec(ctl, seq!["version"@]), out, r),
{
    let args: [&str; 1] = ["version"];
    assert(views(args@) =~= seq!["version"@]);
    run_on(run, ctl, &args)
}

/// The version text of the host compositor.
pub fn version<R: FnOnce(Vec<String>) -> Result<ProcessOutput, String>>(run: R) -> (r: Result<
    String,
    Error,
>)
    requires
        forall|v: Vec<String>| call_requires(run, (v,)),
    ensures
        exists|v: Vec<String>, out: Result<ProcessOutput, String>|
            string_views(v@) == argv_spec(Ctl::Host, seq!["version"@]) && call_ensures(
                run,
                (v,),
                out,
            ) && reply_spec(label_spec(Ctl::Host, seq!["version"@]), out, r),
{
    version_on(run, Ctl::Host)
}

/// `["output", "create", "headless", name]`.
pub open spec fn create_args(name: Seq<char>) -> Seq<Seq<char>> {
    seq!["output"@, "create"@, "headless"@, name]
}

/// `hyprctl output create headless NAME`.
pub fn output_create_headless<R: FnOnce(Vec<String>) -> Result<ProcessOutput, String>>(
    run: R,
    name: &str,
) -> (r: Result<(), Error>)
    requires
        forall|v: Vec<String>| call_requires(run, (v,)),
    ensures
        exists|v: Vec<String>, out: Result<ProcessOutput, String>, reply: Result<String, Error>|
            string_views(v@) == argv_spec(Ctl::Host, create_args(name@)) && call_ensures(
                run,
                (v,),
                out,
            ) && reply_spec(label_spec(Ctl::Host, create_args(name@)), out, reply) && ok_spec(
                label_spec(Ctl::Host, create_args(name@)),
                reply,
                r,
            ),
{
    let args: [&str; 4] = ["output", "create", "headless", name];
    assert(views(args@) =~= create_args(name@));
    expect_ok(run, &args)
}

/// `["output", "remove", name]`.
pub open spec fn remove_args(name: Seq<char>) -> Seq<Seq<char>> {
    seq!["output"@, "remove"@, name]
}

/// `hyprctl output remove NAME`.
pub fn output_remove<R: FnOnce(Vec<String>) -> Result<ProcessOutput, String>>(run: R, name: &str) -> (r:
    Result<(), Error>)
    requires
        forall|v: Vec<String>| call_requires(run, (v,)),
    ensures
        exists|v: Vec<String>, out: Result<ProcessOutput, String>, reply: Result<String, Error>|
            string_views(v@) == argv_spec(Ctl::Host, remove_args(name@)) && call_ensures(
                run,
                (v,),
                out,
            ) && reply_spec(label_spec(Ctl::Host, remove_args(name@)), out, reply) && ok_spec(
                label_spec(Ctl::Host, remove_args(name@)),
                reply,
                r,
            ),
{
    let args: [&str; 3] = ["output", "remove", name];
    assert(views(args@) =~= remove_args(name@));
    expect_ok(run, &args)
}

/// `NAME,WxH@60,auto,1`: the trailing `1` forces scale 1, which a headless
/// output otherwise does not get.
pub open spec fn headless_rule_spec(name: Seq<char>, width: u32, height: u32) -> Seq<char> {
    name + ","@ + dec(width as nat) + "x"@ + dec(height as nat) + "@60,auto,1"@
}

/// Mode-set rule for a headless output.
pub fn headless_monitor_rule(name: &str, width: u32, height: u32) -> (r: String)
    ensures
        r@ == headless_rule_spec(name@, width, height),
{
    let mut r = String::from_str(name);
    r.append(",");
    r.append(fmt_u64(width as u64).as_str());
    r.append("x");
    r.append(fmt_u64(height as u64).as_str());
    r.append("@60,auto,1");
    r
}

/// `["keyword", "monitor", RULE]`.
pub open spec fn monitor_args(rule: Seq<char>) -> Seq<Seq<char>> {
    seq!["keyword"@, "monitor"@, rule]
}

/// Poses the headless mode-set rule for `name`.
pub fn keyword_monitor<R: FnOnce(Vec<String>) -> Result<ProcessOutput, String>>(
    run: R,
    name: &str,
    width: u32,
    height: u32,
) -> (r: Result<(), Error>)
    requires
        forall|v: Vec<String>| call_requires(run, (v,)),
    ensures
        exists|v: Vec<String>, out: Result<ProcessOutput, String>, reply: Result<String, Error>|
            string_views(v@) == argv_spec(
                Ctl::Host,
                monitor_args(headless_rule_spec(name@, width, height)),
            ) && call_ensures(run, (v,), out) && reply_spec(
                label_spec(Ctl::Host, monitor_args(headless_rule_spec(name@, width, height))),
                out,
                reply,
            ) && ok_spec(
                label_spec(Ctl::Host, monitor_args(headless_rule_spec(name@, width, height))),
                reply,
                r,
            ),
{
    let rule = headless_monitor_rule(name, width, height);
    let args: [&str; 3] = ["keyword", "monitor", rule.as_str()];
    assert(views(args@) =~= monitor_args(headless_rule_spec(name@, width, height)));
    expect_ok(run, &args)
}

/// `WORKSPACE, monitor:MONITOR`.
pub open spec fn workspace_rule_spec(workspace: Seq<char>, monitor: Seq<char>) -> Seq<char> {
    workspace + ", monitor:"@ + monitor
}

/// The rule text binding `workspace` to `monitor`.
pub fn workspace_rule(workspace: &str, monitor: &str) -> (r: String)
    ensures
        r@ == workspace_rule_spec(workspace@, monitor@),
{
    cat3(workspace, ", monitor:", monitor)
}

/// `["keyword", "workspace", RULE]`.
pub open spec fn workspace_args(rule: Seq<char>) -> Seq<Seq<char>> {
    seq!["keyword"@, "workspace"@, rule]
}

/// Binds `workspace` to `monitor`.
pub fn keyword_workspace<R: FnOnce(Vec<String>) -> Result<ProcessOutput, String>>(
    run: R,
    workspace: &str,
    monitor: &str,
) -> (r: Result<(), Error>)
    requires
        forall|v: Vec<String>| call_requires(run, (v,)),
    ensures
        exists|v: Vec<String>, out: Result<ProcessOutput, String>, reply: Result<String, Error>|
            string_views(v@) == argv_spec(
                Ctl::Host,
                workspace_args(workspace_rule_spec(workspace@, monitor@)),
            ) && call_ensures(run, (v,), out) && reply_spec(
                label_spec(Ctl::Host, workspace_args(workspace_rule_spec(workspace@, monitor@))),
                out,
                reply,
            ) && ok_spec(
                label_spec(Ctl::Host, workspace_args(workspace_rule_spec(workspace@, monitor@))),
                reply,
                r,
            ),
{
    let rule = workspace_rule(workspace, monitor);
    let args: [&str; 3] = ["keyword", "workspace", rule.as_str()];
    assert(views(args@) =~= workspace_args(workspace_rule_spec(workspace@, monitor@)));
    expect_ok(run, &args)
}

/// Hyprland prints `Invalid` or an empty object when nothing is focused.
pub open spec fn no_active_window(raw: Seq<char>) -> bool {
    let t = trimmed(raw);
    t.len() == 0 || t == "Invalid"@ || t == "{}"@
}

/// Whether an `activewindow -j` answer means "no window is focused"; anything
/// else has to parse as a window.
pub fn is_no_active_window(raw: &str) -> (r: bool)
    ensures
        r == no_active_window(raw@),
{
    let t = trim(raw);
    t.unicode_len() == 0 || str_eq(t.as_str(), "Invalid") || str_eq(t.as_str(), "{}")
}

/// `args ++ ["-j"]`: the same query, answered in JSON.
pub open spec fn json_args(args: Seq<Seq<char>>) -> Seq<Seq<char>> {
    args.push("-j"@)
}

/// What decoding a reply's text gave: the value, or the decoder's complaint as
/// `Error::Json` naming the command.
pub open spec fn parsed_spec<T>(label: Seq<char>, parsed: Result<T, String>, r: Result<T, Error>) -> bool {
    match parsed {
        Ok(value) => r == Ok::<T, Error>(value),
        Err(complaint) => r matches Err(Error::Json { context, message }) && context@ == "parsing `"@
            + label + "` output"@ && message@ == complaint@,
    }
}

/// What a JSON query amounts to, given the reply of `hyprctl`: its failure
/// as it was, or what `parse` made of its text.
pub open spec fn decoded_spec<T, P: Fn(String) -> Result<T, String>>(
    parse: P,
    label: Seq<char>,
    reply: Result<String, Error>,
    r: Result<T, Error>,
) -> bool {
    match reply {
        Err(e) => r == Err::<T, Error>(e),
        Ok(raw) => exists|parsed: Result<T, String>|
            call_ensures(parse, (raw,), parsed) && parsed_spec(label, parsed, r),
    }
}

/// Hands a successful reply to `parse`, and names the command in a decoding
/// failure.
pub fn decode_reply<T, P: Fn(String) -> Result<T, String>>(
    parse: &P,
    label: String,
    reply: Result<String, Error>,
) -> (r: Result<T, Error>)
    requires
        forall|s: String| call_requires(*parse, (s,)),
    ensures
        decoded_spec(*parse, label@, reply, r),
{
    match reply {
        Err(e) => Err(e),
        Ok(raw) => {
            let ghost text = raw;
            let parsed = parse(raw);
            let ghost gp = parsed;
            let r = match parsed {
                Ok(value) => Ok(value),
                Err(complaint) => Err(
                    Error::Json {
                        context: cat3("parsing `", label.as_str(), "` output"),
                        message: complaint,
                    },
                ),
            };
            assert(call_ensures(*parse, (text,), gp) && parsed_spec(label@, gp, r));
            r
        },
    }
}

/// Runs a query on `ctl` with `-j` appended and decodes its answer.
pub fn run_json_on<T, R: FnOnce(Vec<String>) -> Result<ProcessOutput, String>, P: Fn(String) -> Result<
    T,
    String,
>>(run: R, parse: &P, ctl: Ctl, args: &[&str]) -> (r: Result<T, Error>)
    requires
        forall|v: Vec<String>| call_requires(run, (v,)),
        forall|s: String| call_requires(*parse, (s,)),
    ensures
        queried(run, *parse, ctl, views(args@), r),
{
    let mut full: Vec<&str> = Vec::new();
    let mut i: usize = 0;
    while i < args.len()
        invariant
            i <= args@.len(),
            views(full@) == views(args@.subrange(0, i as int)),
        decreases args@.len() - i,
    {
        let ghost before = full@;
        full.push(args[i]);
        proof {
            lemma_views_push(before, args[i as int]);
            lemma_views_prefix(args@, i as int);
        }
        i += 1;
    }
    assert(args@.subrange(0, args@.len() as int) =~= args@);
    let ghost before = full@;
    full.push("-j");
    proof {
        lemma_views_push(before, "-j");
    }
    let label = ctl.label(full.as_slice());
    let reply = run_on(run, ctl, full.as_slice());
    let ghost gr = reply;
    let r = decode_reply(parse, label, reply);
    assert(decoded_spec(*parse, label_spec(ctl, json_args(views(args@))), gr, r));
    r
}

/// What a JSON query on `ctl` gave: the argument vector handed to `run`, the
/// reply read from what it returned, and what `parse` made of the reply.
pub open spec fn queried<T, R: FnOnce(Vec<String>) -> Result<ProcessOutput, String>, P: Fn(String) -> Result<
    T,
    String,
>>(run: R, parse: P, ctl: Ctl, args: Seq<Seq<char>>, r: Result<T, Error>) -> bool {
    exists|v: Vec<String>, out: Result<ProcessOutput, String>, reply: Result<String, Error>|
        string_views(v@) == argv_spec(ctl, json_args(args)) && call_ensures(run, (v,), out)
            && reply_spec(label_spec(ctl, json_args(args)), out, reply) && decoded_spec(
            parse,
            label_spec(ctl, json_args(args)),
            reply,
            r,
        )
}

/// Every window of the compositor on `ctl`: `hyprctl [-i SIG] clients -j`.
pub fn clients_on<R: FnOnce(Vec<String>) -> Result<ProcessOutput, String>, P: Fn(String) -> Result<
    Vec<Client>,
    String,
>>(run: R, parse: &P, ctl: Ctl) -> (r: Result<Vec<Client>, Error>)
    requires
        forall|v: Vec<String>| call_requires(run, (v,)),
        forall|s: String| call_requires(*parse, (s,)),
    ensures
        queried(run, *parse, ctl, seq!["clients"@], r),
{
    let args: [&str; 1] = ["clients"];
    assert(views(args@) =~= seq!["clients"@]);
    run_json_on(run, parse, ctl, &args)
}

/// Every window of the host.
pub fn clients<R: FnOnce(Vec<String>) -> Result<ProcessOutput, String>, P: Fn(String) -> Result<
    Vec<Client>,
    String,
>>(run: R, parse: &P) -> (r: Result<Vec<Client>, Error>)
    requires
        forall|v: Vec<String>| call_requires(run, (v,)),
        forall|s: String| call_requires(*parse, (s,)),
    ensures
        queried(run, *parse, Ctl::Host, seq!["clients"@], r),
{
    clients_on(run, parse, Ctl::Host)
}

/// Every monitor of the compositor on `ctl`.
pub fn monitors_on<R: FnOnce(Vec<String>) -> Result<ProcessOutput, String>, P: Fn(String) -> Result<
    Vec<Monitor>,
    String,
>>(run: R, parse: &P, ctl: Ctl) -> (r: Result<Vec<Monitor>, Error>)
    requires
        forall|v: Vec<String>| call_requires(run, (v,)),
        forall|s: String| call_requires(*parse, (s,)),
    ensures
        queried(run, *parse, ctl, seq!["monitors"@], r),
{
    let args: [&str; 1] = ["monitors"];
    assert(views(args@) =~= seq!["monitors"@]);
    run_json_on(run, parse, ctl, &args)
}

/// Every monitor of the host.
pub fn monitors<R: FnOnce(Vec<String>) -> Result<ProcessOutput, String>, P: Fn(String) -> Result<
    Vec<Monitor>,
    String,
>>(run: R, parse: &P) -> (r: Result<Vec<Monitor>, Error>)
    requires
        forall|v: Vec<String>| call_requires(run, (v,)),
        forall|s: String| call_requires(*parse, (s,)),
    ensures
        queried(run, *parse, Ctl::Host, seq!["monitors"@], r),
{
    monitors_on(run, parse, Ctl::Host)
}

/// The names of a list of workspaces, in order.
pub open spec fn workspace_name_views(ws: Seq<WorkspaceRef>) -> Seq<Seq<char>> {
    ws.map_values(|w: WorkspaceRef| w.name@)
}

/// Every workspace the host knows, by name. The isolated start snapshots this
/// before it creates its output: a workspace that already existed belongs to
/// the user, whatever it holds, so only one the new output brought with it may
/// be renamed.
pub fn workspace_names<R: FnOnce(Vec<String>) -> Result<ProcessOutput, String>, P: Fn(String) -> Result<
    Vec<WorkspaceRef>,
    String,
>>(run: R, parse: &P) -> (r: Result<Vec<String>, Error>)
    requires
        forall|v: Vec<String>| call_requires(run, (v,)),
        forall|s: String| call_requires(*parse, (s,)),
    ensures
        exists|q: Result<Vec<WorkspaceRef>, Error>|
            queried(run, *parse, Ctl::Host, seq!["workspaces"@], q) && match q {
                Ok(ws) => r is Ok && string_views(r->Ok_0@) == workspace_name_views(ws@),
                Err(e) => r == Err::<Vec<String>, Error>(e),
            },
{
    let args: [&str; 1] = ["workspaces"];
    assert(views(args@) =~= seq!["workspaces"@]);
    let q = run_json_on(run, parse, Ctl::Host, &args);
    let ghost gq = q;
    match q {
        Err(e) => Err(e),
        Ok(ws) => {
            let mut names: Vec<String> = Vec::new();
            let mut i: usize = 0;
            while i < ws.len()
                invariant
                    i <= ws@.len(),
                    string_views(names@) == workspace_name_views(ws@.subrange(0, i as int)),
                decreases ws@.len() - i,
            {
                let ghost before = names@;
                names.push(own(ws[i].name.as_str()));
                proof {
                    lemma_string_views_push(before, names@.last());
                    assert(workspace_name_views(ws@.subrange(0, i + 1)) =~= workspace_name_views(
                        ws@.subrange(0, i as int),
                    ).push(ws@[i as int].name@));
                }
                i += 1;
            }
            assert(ws@.subrange(0, ws@.len() as int) =~= ws@);
            Ok(names)
        },
    }
}

/// The host's input devices.
pub fn devices<R: FnOnce(Vec<String>) -> Result<ProcessOutput, String>, P: Fn(String) -> Result<
    Devices,
    String,
>>(run: R, parse: &P) -> (r: Result<Devices, Error>)
    requires
        forall|v: Vec<String>| call_requires(run, (v,)),
        forall|s: String| call_requires(*parse, (s,)),
    ensures
        queried(run, *parse, Ctl::Host, seq!["devices"@], r),
{
    let args: [&str; 1] = ["devices"];
    assert(views(args@) =~= seq!["devices"@]);
    run_json_on(run, parse, Ctl::Host, &args)
}

/// The workspace the user is on, with the monitor showing it.
pub fn focused_workspace<R: FnOnce(Vec<String>) -> Result<ProcessOutput, String>, P: Fn(String) -> Result<
    FocusedWorkspace,
    String,
>>(run: R, parse: &P) -> (r: Result<FocusedWorkspace, Error>)
    requires
        forall|v: Vec<String>| call_requires(run, (v,)),
        forall|s: String| call_requires(*parse, (s,)),
    ensures
        queried(run, *parse, Ctl::Host, seq!["activeworkspace"@], r),
{
    let args: [&str; 1] = ["activeworkspace"];
    assert(views(args@) =~= seq!["activeworkspace"@]);
    run_json_on(run, parse, Ctl::Host, &args)
}

/// What an `activewindow -j` answer means: no focused window when it reads
/// as one of the "nothing" forms, else the window `parse` decodes from the
/// trimmed text. Anything else unparseable is schema drift, not an absent
/// focus.
pub open spec fn active_window_spec<P: Fn(String) -> Result<Client, String>>(
    parse: P,
    raw: Seq<char>,
    r: Result<Option<Client>, Error>,
) -> bool {
    if no_active_window(raw) {
        r == Ok::<Option<Client>, Error>(None)
    } else {
        exists|t: String, parsed: Result<Client, String>|
            t@ == trimmed(raw) && call_ensures(parse, (t,), parsed) && match parsed {
                Ok(c) => r == Ok::<Option<Client>, Error>(Some(c)),
                Err(complaint) => r matches Err(Error::Json { context, message }) && context@
                    == "parsing `hyprctl activewindow -j` output"@ && message@ == complaint@,
            }
    }
}

/// Reads an `activewindow -j` answer.
pub fn parse_active_window<P: Fn(String) -> Result<Client, String>>(parse: &P, raw: &str) -> (r:
    Result<Option<Client>, Error>)
    requires
        forall|s: String| call_requires(*parse, (s,)),
    ensures
        active_window_spec(*parse, raw@, r),
{
    if is_no_active_window(raw) {
        return Ok(None);
    }
    let t = trim(raw);
    let ghost gt = t;
    let parsed = parse(t);
    let ghost gp = parsed;
    let r = match parsed {
        Ok(c) => Ok(Some(c)),
        Err(complaint) => Err(
            Error::Json {
                context: String::from_str("parsing `hyprctl activewindow -j` output"),
                message: complaint,
            },
        ),
    };
    assert(gt@ == trimmed(raw@) && call_ensures(*parse, (gt,), gp));
    r
}

/// The focused window of the compositor on `ctl`, or `None`.
pub fn active_window_on<R: FnOnce(Vec<String>) -> Result<ProcessOutput, String>, P: Fn(String) -> Result<
    Client,
    String,
>>(run: R, parse: &P, ctl: Ctl) -> (r: Result<Option<Client>, Error>)
    requires
        forall|v: Vec<String>| call_requires(run, (v,)),
        forall|s: String| call_requires(*parse, (s,)),
    ensures
        exists|v: Vec<String>, out: Result<ProcessOutput, String>, reply: Result<String, Error>|
            string_views(v@) == argv_spec(ctl, seq!["activewindow"@, "-j"@]) && call_ensures(
                run,
                (v,),
                out,
            ) && reply_spec(label_spec(ctl, seq!["activewindow"@, "-j"@]), out, reply) && match reply {
                Err(e) => r == Err::<Option<Client>, Error>(e),
                Ok(raw) => active_window_spec(*parse, raw@, r),
            },
{
    let args: [&str; 2] = ["activewindow", "-j"];
    assert(views(args@) =~= seq!["activewindow"@, "-j"@]);
    let reply = run_on(run, ctl, &args);
    let ghost gr = reply;
    let r = match reply {
        Err(e) => Err(e),
        Ok(raw) => parse_active_window(parse, raw.as_str()),
    };
    assert(match gr {
        Err(e) => r == Err::<Option<Client>, Error>(e),
        Ok(raw) => active_window_spec(*parse, raw@, r),
    });
    r
}

/// The focused window of the host, or `None`.
pub fn active_window<R: FnOnce(Vec<String>) -> Result<ProcessOutput, String>, P: Fn(String) -> Result<
    Client,
    String,
>>(run: R, parse: &P) -> (r: Result<Option<Client>, Error>)
    requires
        forall|v: Vec<String>| call_requires(run, (v,)),
        forall|s: String| call_requires(*parse, (s,)),
    ensures
        exists|v: Vec<String>, out: Result<ProcessOutput, String>, reply: Result<String, Error>|
            string_views(v@) == argv_spec(Ctl::Host, seq!["activewindow"@, "-j"@]) && call_ensures(
                run,
                (v,),
                out,
            ) && reply_spec(label_spec(Ctl::Host, seq!["activewindow"@, "-j"@]), out, reply)
                && match reply {
                Err(e) => r == Err::<Option<Client>, Error>(e),
                Ok(raw) => active_window_spec(*parse, raw@, r),
            },
{
    active_window_on(run, parse, Ctl::Host)
}

/// What reading the cursor on `ctl` gave: the position `hyprctl cursorpos`
/// printed, its failure, or the complaint that its text did not parse.
pub open spec fn cursor_read<R: FnOnce(Vec<String>) -> Result<ProcessOutput, String>>(
    run: R,
    ctl: Ctl,
    r: Result<(i32, i32), Error>,
) -> bool {
    exists|v: Vec<String>, out: Result<ProcessOutput, String>, reply: Result<String, Error>|
        string_views(v@) == argv_spec(ctl, seq!["cursorpos"@]) && call_ensures(run, (v,), out)
            && reply_spec(label_spec(ctl, seq!["cursorpos"@]), out, reply) && match reply {
            Err(_) => r == Err::<(i32, i32), Error>(reply->Err_0),
            Ok(raw) => match cursor_pos_spec(raw@) {
                Some(p) => r == Ok::<(i32, i32), Error>(p),
                None => r matches Err(Error::Tool { command, message }) && command@ == label_spec(
                    ctl,
                    seq!["cursorpos"@],
                ) && message@ == "unparseable output `"@ + raw@ + "`"@,
            },
        }
}

/// What reading the focused window on `ctl` gave.
pub open spec fn focus_read<R: FnOnce(Vec<String>) -> Result<ProcessOutput, String>, P: Fn(String) -> Result<
    Client,
    String,
>>(run: R, parse: P, ctl: Ctl, r: Result<Option<Client>, Error>) -> bool {
    exists|v: Vec<String>, out: Result<ProcessOutput, String>, reply: Result<String, Error>|
        string_views(v@) == argv_spec(ctl, seq!["activewindow"@, "-j"@]) && call_ensures(
            run,
            (v,),
            out,
        ) && reply_spec(label_spec(ctl, seq!["activewindow"@, "-j"@]), out, reply) && match reply {
            Err(e) => r == Err::<Option<Client>, Error>(e),
            Ok(raw) => active_window_spec(parse, raw@, r),
        }
}

/// What a dispatcher on `ctl` with these words gave.
pub open spec fn dispatched_on<R: FnOnce(Vec<String>) -> Result<ProcessOutput, String>>(
    run: R,
    ctl: Ctl,
    args: Seq<Seq<char>>,
    r: Result<(), Error>,
) -> bool {
    exists|v: Vec<String>, out: Result<ProcessOutput, String>, reply: Result<String, Error>|
        string_views(v@) == argv_spec(ctl, dispatch_args(args)) && call_ensures(run, (v,), out)
            && reply_spec(label_spec(ctl, dispatch_args(args)), out, reply) && ok_spec(
            label_spec(ctl, dispatch_args(args)),
            reply,
            r,
        )
}

/// What a host command that answers `ok` gave.
pub open spec fn acked<R: FnOnce(Vec<String>) -> Result<ProcessOutput, String>>(
    run: R,
    args: Seq<Seq<char>>,
    r: Result<(), Error>,
) -> bool {
    exists|v: Vec<String>, out: Result<ProcessOutput, String>, reply: Result<String, Error>|
        string_views(v@) == argv_spec(Ctl::Host, args) && call_ensures(run, (v,), out)
            && reply_spec(label_spec(Ctl::Host, args), out, reply) && ok_spec(
            label_spec(Ctl::Host, args),
            reply,
            r,
        )
}

/// The window with this address, if any.
pub fn find_client<'c>(clients: &'c [Client], address: &str) -> (r: Option<&'c Client>)
    ensures
        match r {
            Some(c) => exists|i: int|
                0 <= i < clients@.len() && clients@[i] == *c && c.address@ == address@ && forall|
                    j: int,
                | 0 <= j < i ==> clients@[j].address@ != address@,
            None => forall|i: int| 0 <= i < clients@.len() ==> clients@[i].address@ != address@,
        },
{
    let mut i: usize = 0;
    while i < clients.len()
        invariant
            i <= clients@.len(),
            forall|j: int| 0 <= j < i ==> clients@[j].address@ != address@,
        decreases clients@.len() - i,
    {
        if str_eq(clients[i].address.as_str(), address) {
            return Some(&clients[i]);
        }
        i += 1;
    }
    None
}

/// The monitor with this name, if any.
pub fn find_monitor<'c>(monitors: &'c [Monitor], name: &str) -> (r: Option<&'c Monitor>)
    ensures
        match r {
            Some(m) => exists|i: int|
                0 <= i < monitors@.len() && monitors@[i] == *m && m.name@ == name@ && forall|j: int|
                    0 <= j < i ==> monitors@[j].name@ != name@,
            None => forall|i: int| 0 <= i < monitors@.len() ==> monitors@[i].name@ != name@,
        },
{
    let mut i: usize = 0;
    while i < monitors.len()
        invariant
            i <= monitors@.len(),
            forall|j: int| 0 <= j < i ==> monitors@[j].name@ != name@,
        decreases monitors@.len() - i,
    {
        if str_eq(monitors[i].name.as_str(), name) {
            return Some(&monitors[i]);
        }
        i += 1;
    }
    None
}

/// Bounding box of the whole monitor layout: `(x, y, width, height)`.
pub struct LayoutBox {
    pub x: i64,
    pub y: i64,
    pub width: i64,
    pub height: i64,
}

pub open spec fn monitor_fits(m: Monitor) -> bool {
    -0x1_0000_0000 <= m.x <= 0x1_0000_0000 && -0x1_0000_0000 <= m.y <= 0x1_0000_0000 && 0
        <= m.logical_width <= 0x1_0000_0000 && 0 <= m.logical_height <= 0x1_0000_0000
}

/// The layout bounding box: the least box that holds every monitor's logical box.
pub fn layout_box(monitors: &[Monitor]) -> (r: Result<LayoutBox, Error>)
    requires
        forall|i: int| 0 <= i < monitors@.len() ==> monitor_fits(#[trigger] monitors@[i]),
    ensures
        match r {
            Ok(b) => monitors@.len() > 0 && (forall|i: int|
                0 <= i < monitors@.len() ==> {
                    let m = #[trigger] monitors@[i];
                    b.x <= m.x && b.y <= m.y && m.x + m.logical_width <= b.x + b.width && m.y
                        + m.logical_height <= b.y + b.height
                }) && (exists|i: int| 0 <= i < monitors@.len() && monitors@[i].x == b.x) && (exists|
                i: int,
            | 0 <= i < monitors@.len() && monitors@[i].y == b.y) && (exists|i: int|
                0 <= i < monitors@.len() && monitors@[i].x + monitors@[i].logical_width == b.x
                    + b.width) && (exists|i: int|
                0 <= i < monitors@.len() && monitors@[i].y + monitors@[i].logical_height == b.y
                    + b.height),
            Err(e) => e matches Error::Tool { command, message } && command@ == "hyprctl monitors"@
                && message@ == "no monitors reported"@ && monitors@.len() == 0,
        },
{
    if monitors.len() == 0 {
        return Err(Error::Tool {
            command: String::from_str("hyprctl monitors"),
            message: String::from_str("no monitors reported"),
        });
    }
    let mut min_x = monitors[0].x;
    let mut min_y = monitors[0].y;
    let mut max_x = monitors[0].x + monitors[0].logical_width;
    let mut max_y = monitors[0].y + monitors[0].logical_height;
    let mut i: usize = 1;
    while i < monitors.len()
        invariant
            1 <= i <= monitors@.len(),
            forall|k: int| 0 <= k < monitors@.len() ==> monitor_fits(#[trigger] monitors@[k]),
            forall|k: int|
                0 <= k < i ==> {
                    let m = #[trigger] monitors@[k];
                    min_x <= m.x && min_y <= m.y && m.x + m.logical_width <= max_x && m.y
                        + m.logical_height <= max_y
                },
            exists|k: int| 0 <= k < i && monitors@[k].x == min_x,
            exists|k: int| 0 <= k < i && monitors@[k].y == min_y,
            exists|k: int| 0 <= k < i && monitors@[k].x + monitors@[k].logical_width == max_x,
            exists|k: int| 0 <= k < i && monitors@[k].y + monitors@[k].logical_height == max_y,
        decreases monitors@.len() - i,
    {
        let m = &monitors[i];
        assert(monitor_fits(monitors@[i as int]));
        if m.x < min_x {
            min_x = m.x;
        }
        if m.y < min_y {
            min_y = m.y;
        }
        if m.x + m.logical_width > max_x {
            max_x = m.x + m.logical_width;
        }
        if m.y + m.logical_height > max_y {
            max_y = m.y + m.logical_height;
        }
        i += 1;
    }
    Ok(LayoutBox { x: min_x, y: min_y, width: max_x - min_x, height: max_y - min_y })
}

/// Borrows each string of `v`.
pub fn borrow_all(v: &Vec<String>) -> (r: Vec<&str>)
    ensures
        views(r@) == string_views(v@),
{
    let mut r: Vec<&str> = Vec::new();
    let mut i: usize = 0;
    while i < v.len()
        invariant
            i <= v@.len(),
            views(r@) == string_views(v@.subrange(0, i as int)),
        decreases v@.len() - i,
    {
        let ghost before = r@;
        let w = v[i].as_str();
        r.push(w);
        proof {
            lemma_views_push(before, w);
            assert(string_views(v@.subrange(0, i + 1)) =~= string_views(v@.subrange(0, i as int)).push(v@[i as int]@));
        }
        i += 1;
    }
    assert(v@.subrange(0, v@.len() as int) =~= v@);
    r
}

/// The words of each step, by view.
pub open spec fn steps_view(steps: Seq<Vec<String>>) -> Seq<Seq<Seq<char>>> {
    steps.map_values(|v: Vec<String>| string_views(v@))
}


/// What a run of dispatchers on `ctl` gave, from the pool `pool` to the pool
/// `after`: the first `outs.len()` steps were dispatched, the `j`-th with the
/// pool's `j`-th runner and answer `outs[j]`; every one but the last
/// succeeded; the run stopped at the first failure, which is its outcome,
/// and went through every step otherwise. No other runner is taken.
pub open spec fn dispatched_steps<R: FnOnce(Vec<String>) -> Result<ProcessOutput, String>>(
    pool: Seq<R>,
    after: Seq<R>,
    ctl: Ctl,
    steps: Seq<Seq<Seq<char>>>,
    outs: Seq<Result<(), Error>>,
    r: Result<(), Error>,
) -> bool {
    let k = outs.len() as int;
    &&& k <= steps.len()
    &&& spent(pool, after, k)
    &&& forall|j: int| 0 <= j < k ==> dispatched_on(nth_runner(pool, j), ctl, steps[j], #[trigger] outs[j])
    &&& forall|j: int| 0 <= j < k - 1 ==> (#[trigger] outs[j]) is Ok
    &&& match r {
        Ok(_) => k == steps.len() && (k == 0 || outs[k - 1] is Ok),
        Err(e) => k > 0 && outs[k - 1] == Err::<(), Error>(e),
    }
}

/// Runs dispatchers on `ctl` in order, stopping at the first that fails;
/// each has its own runner of `runners`, taken in order.
pub fn dispatch_all<R: FnOnce(Vec<String>) -> Result<ProcessOutput, String>>(
    runners: &mut Vec<R>,
    ctl: Ctl,
    steps: &Vec<Vec<String>>,
) -> (r: Result<(), Error>)
    requires
        old(runners)@.len() >= steps@.len(),
        runnable(old(runners)@),
    ensures
        exists|outs: Seq<Result<(), Error>>|
            dispatched_steps(old(runners)@, final(runners)@, ctl, steps_view(steps@), outs, r),
{
    let ghost pool = runners@;
    let ghost all = steps_view(steps@);
    let ghost mut outs: Seq<Result<(), Error>> = Seq::empty();
    let mut i: usize = 0;
    assert(runners@ =~= pool.subrange(0, pool.len() as int));
    while i < steps.len()
        invariant
            i <= steps@.len(),
            pool == old(runners)@,
            pool.len() >= steps@.len(),
            runnable(pool),
            all == steps_view(steps@),
            all.len() == steps@.len(),
            outs.len() == i,
            spent(pool, runners@, i as int),
            forall|j: int| 0 <= j < i ==> dispatched_on(nth_runner(pool, j), ctl, all[j], #[trigger] outs[j]),
            forall|j: int| 0 <= j < i ==> (#[trigger] outs[j]) is Ok,
        decreases steps@.len() - i,
    {
        let words = borrow_all(&steps[i]);
        let ghost before = runners@;
        let step_run = take_runner(runners);
        assert(nth_runner(before, 0) == nth_runner(pool, i as int));
        assert forall|v: Vec<String>| call_requires(step_run, (v,)) by {
            assert(call_requires(pool[pool.len() - 1 - i], (v,)));
        }
        let r = dispatch_on(step_run, ctl, words.as_slice());
        let ghost old_outs = outs;
        proof {
            assert(all[i as int] == string_views(steps@[i as int]@));
            outs = outs.push(r);
            assert forall|j: int| 0 <= j < i + 1 implies dispatched_on(nth_runner(pool, j), ctl, all[j], #[trigger] outs[j]) by {
                if j < i {
                    assert(outs[j] == old_outs[j]);
                }
            }
            assert(runners@ =~= pool.subrange(0, pool.len() - (i + 1)));
        }
        match r {
            Err(e) => {
                assert(dispatched_steps(pool, runners@, ctl, all, outs, Err::<(), Error>(e)));
                return Err(e);
            },
            Ok(()) => {},
        }
        i += 1;
    }
    assert(dispatched_steps(pool, runners@, ctl, all, outs, Ok::<(), Error>(())));
    Ok(())
}

} // verus!
