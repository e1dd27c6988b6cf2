//! Session state: one named session per agent, `shared` (drive the user's own
//! windows on a headless output) or `isolated` (a whole nested agent desktop),
//! and the decisions taken over it.
use vstd::prelude::*;

use crate::error::{Error, RestoreFailure, SCHEMA_VERSION as ERROR_SCHEMA_VERSION, invalid};
use crate::json::{fmt_json_pair, json_bool, json_pair, json_quote, json_quoted};
use crate::hypr::{Client, Ctl, Monitor, ProcessOutput, clients, find_client, find_monitor, joined,
    monitors, queried, string_views, acked, cursor_read, dispatched_on, remove_args, nth_runner, runnable, spent, take_runner};
use crate::guard::{self, cursor_near, fmt_pair, movecursor_args, near, pair_text};
use crate::path::{join, join_spec};
use crate::text::{cat, cat3, chars, dec, fmt_i64, fmt_u64, int_text, own, parse_u32,
    parse_u32_spec, parses_as_i64, parse_i64_spec, split_once, split_once_spec, starts_with,
    is_prefix, str_eq, trim, trimmed};

verus! {

/// Shared mode drives the user's windows on this single output.
pub const OUTPUT_NAME: &'static str = "hyprpilot";
pub const WORKSPACE_NAME: &'static str = "hyprpilot";
pub const PARKING_WORKSPACE_NAME: &'static str = "special:hyprpilot-parked";
pub const SCHEMA_VERSION: u32 = 3;
pub const DEFAULT_SESSION_NAME: &'static str = "default";
pub const SESSION_ENV: &'static str = "HYPRPILOT_SESSION";
pub const SESSION_NAME_MAX: usize = 32;
pub const WINDOW_APPEAR_TIMEOUT_MS: u64 = 15000;
pub const WINDOW_CLOSE_TIMEOUT_MS: u64 = 3000;
pub const WINDOW_PLACE_TIMEOUT_MS: u64 = 3000;
pub const POLL_INTERVAL_MS: u64 = 200;

/// Bounded escalation for anything this crate has to bring down: the polite
/// request gets `polite`, then `SIGTERM` gets `term`, then `SIGKILL` gets
/// `kill`, then the caller gives up. Times in milliseconds.
#[derive(Debug, Clone, Copy)]
pub struct Escalation {
    pub polite: u64,
    pub term: u64,
    pub kill: u64,
    pub poll: u64,
}

#[derive(Debug, Clone, Copy, PartialEq, Eq)]
pub enum Step {
    Wait,
    /// Signal name as `kill -s` spells it.
    Signal(&'static str),
    GiveUp,
}

impl Escalation {
    /// What to do `elapsed` milliseconds into the escalation.
    pub fn step(self, elapsed: u64) -> (r: Step)
        ensures
            elapsed < self.polite ==> r == Step::Wait,
            self.polite <= elapsed < self.polite + self.term ==> (r matches Step::Signal(s) && s@
                == "TERM"@),
            self.polite + self.term <= elapsed < self.polite + self.term + self.kill ==> (
            r matches Step::Signal(s) && s@ == "KILL"@),
            self.polite + self.term + self.kill <= elapsed ==> r == Step::GiveUp,
    {
        if elapsed < self.polite {
            Step::Wait
        } else if (elapsed - self.polite) < self.term {
            Step::Signal("TERM")
        } else if (elapsed - self.polite - self.term) < self.kill {
            Step::Signal("KILL")
        } else {
            Step::GiveUp
        }
    }
}

#[derive(Debug)]
pub struct Session {
    pub schema_version: u32,
    pub name: String,
    pub state: ModeState,
}

#[derive(Debug)]
pub enum ModeState {
    Shared(Shared),
    Isolated(Isolated),
}

#[derive(Debug, Clone, Copy, PartialEq, Eq, Structural)]
pub enum Mode {
    Shared,
    Isolated,
}

#[derive(Debug)]
pub struct Shared {
    pub output: String,
    /// False when an output with our name already existed and was reused.
    pub output_created: bool,
    pub active_workspace: String,
    pub parking_workspace: String,
    pub size: [u32; 2],
    /// None when attached to a pre-existing window.
    pub spawned_pid: Option<u32>,
    /// Address of the user's focused window when the session started.
    pub initial_user_focus: Option<String>,
    pub primary_address: String,
    pub active_address: String,
    pub windows: Vec<TrackedWindow>,
}

/// An agent desktop: a nested Hyprland whose console window lives on the
/// active workspace of a host headless output.
#[derive(Debug)]
pub struct Isolated {
    /// Host headless output, `hyprpilot-<name>`.
    pub output: String,
    /// Workspace renamed on that output, `agent-<name>`.
    pub workspace: String,
    pub size: [u32; 2],
    /// Nonce of the start that built this desktop, injected into every one of
    /// its processes next to the session marker.
    pub instance_nonce: String,
    /// True while the console window sits on the user's workspace.
    pub shown: bool,
    /// Address, inside the instance, of the window commands act on.
    pub active_address: Option<String>,
    pub instance: Instance,
    /// What this desktop changed on the host, in the order it was done.
    pub host: Vec<crate::host::ledger::HostMutation>,
}

/// The nested compositor, at the stage the start reached.
#[derive(Debug)]
pub enum Instance {
    Pending,
    /// Registered in the host's instance table, its console not identified yet.
    Spawned { signature: String },
    Live {
        /// `HYPRLAND_INSTANCE_SIGNATURE` of the nested compositor.
        signature: String,
        /// Wayland socket the nested compositor serves.
        wayland_display: String,
        pid: u32,
        /// Host-side address of the nested compositor's console window.
        console_address: String,
    },
}

pub open spec fn agent_only_hint() -> Seq<char> {
    "it moves the console window of a nested agent desktop between its hidden headless output and the user's workspace; a shared session drives the user's own windows, which are already on their desktop"@
}

/// The refusal of a command only an agent desktop can answer.
pub fn agent_only(command: &str) -> (e: Error)
    ensures
        e matches Error::SharedUnsupported { command: c, hint } && c@ == command@ && hint@
            == agent_only_hint(),
{
    Error::SharedUnsupported {
        command: own(command),
        hint: own(
            "it moves the console window of a nested agent desktop between its hidden headless output and the user's workspace; a shared session drives the user's own windows, which are already on their desktop",
        ),
    }
}

impl Session {
    pub fn mode(&self) -> (r: Mode)
        ensures
            r == (if self.state is Shared {
                Mode::Shared
            } else {
                Mode::Isolated
            }),
    {
        match self.state {
            ModeState::Shared(_) => Mode::Shared,
            ModeState::Isolated(_) => Mode::Isolated,
        }
    }

    /// Routes by mode: an isolated session never falls through to the shared
    /// code path. `command` is the one asking, so a routing bug names itself.
    pub fn shared(&self, command: &str) -> (r: Result<&Shared, Error>)
        ensures
            match self.state {
                ModeState::Shared(s) => r == Ok::<&Shared, Error>(&s),
                ModeState::Isolated(_) => r matches Err(Error::ModeRouting { command: c }) && c@
                    == command@,
            },
    {
        match &self.state {
            ModeState::Shared(shared) => Ok(shared),
            ModeState::Isolated(_) => Err(Error::ModeRouting { command: own(command) }),
        }
    }

    /// The agent desktop payload of a command only an agent desktop answers.
    pub fn agent(&self, command: &str) -> (r: Result<&Isolated, Error>)
        ensures
            match self.state {
                ModeState::Isolated(i) => r == Ok::<&Isolated, Error>(&i),
                ModeState::Shared(_) => r matches Err(Error::SharedUnsupported { command: c, hint })
                    && c@ == command@ && hint@ == agent_only_hint(),
            },
    {
        match &self.state {
            ModeState::Isolated(isolated) => Ok(isolated),
            ModeState::Shared(_) => Err(agent_only(command)),
        }
    }
}

#[derive(Debug)]
pub struct TrackedWindow {
    pub address: String,
    pub title_at_adoption: String,
    pub origin_workspace: String,
    pub origin_at: [i32; 2],
    pub origin_size: [i32; 2],
    pub origin_floating: bool,
    pub teardown: Disposition,
}

#[derive(Debug, Clone, Copy, PartialEq, Eq, Structural)]
pub enum Disposition {
    Restore,
    Close,
}

impl Disposition {
    /// As `--on-teardown` spells it, so a refusal quotes the flag back.
    pub fn label(self) -> (r: &'static str)
        ensures
            r@ == (if self == Disposition::Restore {
                "restore"@
            } else {
                "close"@
            }),
    {
        match self {
            Disposition::Restore => "restore",
            Disposition::Close => "close",
        }
    }
}

#[derive(Debug, Clone, Copy, PartialEq, Eq, Structural)]
pub struct Rect {
    pub x: i32,
    pub y: i32,
    pub w: i32,
    pub h: i32,
}

#[derive(Debug, Clone, Copy, PartialEq, Eq, Structural)]
pub enum Placement {
    Keep,
    MoveTo(i32, i32),
    Oversized(i32, i32),
}

/// Whether `inner` lies entirely inside `outer`.
pub open spec fn contains_spec(outer: Rect, inner: Rect) -> bool {
    inner.x >= outer.x && inner.y >= outer.y && inner.x + inner.w <= outer.x + outer.w && inner.y
        + inner.h <= outer.y + outer.h
}

pub fn contains(outer: Rect, inner: Rect) -> (r: bool)
    ensures
        r == contains_spec(outer, inner),
{
    inner.x >= outer.x && inner.y >= outer.y && (inner.x as i64 + inner.w as i64) <= (outer.x as i64
        + outer.w as i64) && (inner.y as i64 + inner.h as i64) <= (outer.y as i64 + outer.h as i64)
}

/// `v.clamp(lo, hi)`, with `hi` saturated to the `i32` range first.
pub open spec fn clamp_spec(v: int, lo: int, hi: int) -> int {
    if v < lo {
        lo
    } else if v > hi {
        hi
    } else {
        v
    }
}

pub open spec fn sat_i32(v: int) -> int {
    if v > i32::MAX {
        i32::MAX as int
    } else if v < i32::MIN {
        i32::MIN as int
    } else {
        v
    }
}

/// Where a window goes on an output: kept when it already fits, moved by the
/// least amount into the output when it overflows, and pinned to the output's
/// corner when it is larger than the output.
pub open spec fn place_spec(window: Rect, output: Rect) -> Placement {
    if window.w > output.w || window.h > output.h {
        Placement::Oversized(output.x, output.y)
    } else if contains_spec(output, window) {
        Placement::Keep
    } else {
        Placement::MoveTo(
            clamp_spec(window.x as int, output.x as int, sat_i32(output.x + (output.w - window.w)))
                as i32,
            clamp_spec(window.y as int, output.y as int, sat_i32(output.y + (output.h - window.h)))
                as i32,
        )
    }
}

fn clamp_axis(v: i32, origin: i32, extent: i32, size: i32) -> (r: i32)
    requires
        size <= extent,
    ensures
        r as int == clamp_spec(v as int, origin as int, sat_i32(origin + (extent - size))),
{
    let room: i64 = extent as i64 - size as i64;
    let hi64: i64 = origin as i64 + room;
    let hi: i32 = if hi64 > i32::MAX as i64 {
        i32::MAX
    } else if hi64 < i32::MIN as i64 {
        i32::MIN
    } else {
        hi64 as i32
    };
    if v < origin {
        origin
    } else if v > hi {
        hi
    } else {
        v
    }
}

pub fn place(window: Rect, output: Rect) -> (r: Placement)
    ensures
        r == place_spec(window, output),
{
    if window.w > output.w || window.h > output.h {
        return Placement::Oversized(output.x, output.y);
    }
    if contains(output, window) {
        return Placement::Keep;
    }
    Placement::MoveTo(
        clamp_axis(window.x, output.x, output.w, window.w),
        clamp_axis(window.y, output.y, output.h, window.h),
    )
}

/// Selector accepted by workspace dispatchers: numeric names and special
/// workspaces pass through; ordinary named workspaces need `name:`.
pub open spec fn selector_spec(workspace: Seq<char>) -> Seq<char> {
    if parse_i64_spec(workspace).is_some() || is_prefix("special:"@, workspace) {
        workspace
    } else {
        "name:"@ + workspace
    }
}

pub fn workspace_selector(workspace: &str) -> (r: String)
    ensures
        r@ == selector_spec(workspace@),
{
    if parses_as_i64(workspace) || starts_with(workspace, "special:") {
        own(workspace)
    } else {
        cat("name:", workspace)
    }
}

pub open spec fn size_hint() -> Seq<char> {
    "expected WIDTHxHEIGHT, e.g. 1600x1000"@
}

/// `WIDTHxHEIGHT`, each side a positive `u32`, blanks around either tolerated.
pub open spec fn size_spec(raw: Seq<char>) -> Option<(u32, u32)> {
    match split_once_spec(raw, 'x') {
        Some((w, h)) => match (parse_u32_spec(trimmed(w)), parse_u32_spec(trimmed(h))) {
            (Some(a), Some(b)) => if a != 0 && b != 0 {
                Some((a, b))
            } else {
                None
            },
            _ => None,
        },
        None => None,
    }
}

pub fn parse_size(raw: &str) -> (r: Result<(u32, u32), Error>)
    ensures
        match size_spec(raw@) {
            Some(p) => r == Ok::<(u32, u32), Error>(p),
            None => r matches Err(Error::Invalid { what, value, hint }) && what@ == "size"@ && value@
                == raw@ && hint@ == size_hint(),
        },
{
    let invalid = Error::Invalid {
        what: own("size"),
        value: own(raw),
        hint: own("expected WIDTHxHEIGHT, e.g. 1600x1000"),
    };
    match split_once(raw, 'x') {
        Some((w, h)) => {
            let tw = trim(w.as_str());
            let th = trim(h.as_str());
            match (parse_u32(tw.as_str()), parse_u32(th.as_str())) {
                (Some(a), Some(b)) => {
                    if a != 0 && b != 0 {
                        Ok((a, b))
                    } else {
                        Err(invalid)
                    }
                },
                _ => Err(invalid),
            }
        },
        None => Err(invalid),
    }
}

/// What removing an output we own left behind: the notes for the teardown
/// message, and the cursor failure when the warp back could not be verified.
#[derive(Debug)]
pub struct OutputRemoval {
    pub notes: Vec<String>,
    pub failure: Option<RestoreFailure>,
}

/// `$XDG_RUNTIME_DIR/hyprpilot`.
pub fn runtime_dir(root: &str) -> (r: String)
    ensures
        r@ == join_spec(root@, "hyprpilot"@),
{
    join(root, "hyprpilot")
}

/// `$XDG_RUNTIME_DIR/hyprpilot/sessions`.
pub fn sessions_dir(root: &str) -> (r: String)
    ensures
        r@ == join_spec(join_spec(root@, "hyprpilot"@), "sessions"@),
{
    let d = runtime_dir(root);
    join(d.as_str(), "sessions")
}

/// The directory of session `name`.
pub fn session_dir(root: &str, name: &str) -> (r: String)
    ensures
        r@ == join_spec(join_spec(join_spec(root@, "hyprpilot"@), "sessions"@), name@),
{
    let d = sessions_dir(root);
    join(d.as_str(), name)
}

/// The state file of session `name`.
pub fn session_path(root: &str, name: &str) -> (r: String)
    ensures
        r@ == join_spec(
            join_spec(join_spec(join_spec(root@, "hyprpilot"@), "sessions"@), name@),
            "session.json"@,
        ),
{
    let d = session_dir(root, name);
    join(d.as_str(), "session.json")
}

/// Where v2 and the unversioned format kept their single session.
pub fn pre_v3_session_path(root: &str) -> (r: String)
    ensures
        r@ == join_spec(join_spec(root@, "hyprpilot"@), "session.json"@),
{
    let d = runtime_dir(root);
    join(d.as_str(), "session.json")
}

/// A session name ends up in a filesystem path: `[a-z0-9-]{1,32}`.
pub open spec fn valid_name_spec(name: Seq<char>) -> bool {
    0 < name.len() <= SESSION_NAME_MAX && forall|i: int|
        0 <= i < name.len() ==> {
            let c = #[trigger] name[i];
            ('a' <= c && c <= 'z') || ('0' <= c && c <= '9') || c == '-'
        }
}

pub open spec fn name_hint(source: Seq<char>) -> Seq<char> {
    "expected [a-z0-9-]{1,"@ + dec(SESSION_NAME_MAX as nat) + "} (from "@ + source + ")"@
}

pub fn validate_name(name: &str, source: &str) -> (r: Result<(), Error>)
    ensures
        valid_name_spec(name@) ==> r is Ok,
        !valid_name_spec(name@) ==> (r matches Err(Error::Invalid { what, value, hint }) && what@
            == "session name"@ && value@ == name@ && hint@ == name_hint(source@)),
{
    let v = chars(name);
    let mut ok = v.len() > 0 && v.len() <= SESSION_NAME_MAX;
    let mut i: usize = 0;
    while ok && i < v.len()
        invariant
            v@ == name@,
            i <= v@.len(),
            ok ==> 0 < v@.len() <= SESSION_NAME_MAX,
            ok ==> forall|j: int|
                0 <= j < i ==> {
                    let c = #[trigger] v@[j];
                    ('a' <= c && c <= 'z') || ('0' <= c && c <= '9') || c == '-'
                },
            !ok ==> !valid_name_spec(name@),
        decreases v@.len() - i,
    {
        let c = v[i];
        if !(('a' <= c && c <= 'z') || ('0' <= c && c <= '9') || c == '-') {
            ok = false;
        }
        i += 1;
    }
    if ok {
        return Ok(());
    }
    let mut hint = own("expected [a-z0-9-]{1,");
    hint.append(fmt_u64(SESSION_NAME_MAX as u64).as_str());
    hint.append("} (from ");
    hint.append(source);
    hint.append(")");
    Err(Error::Invalid { what: own("session name"), value: own(name), hint })
}

/// Which name a command acts on, and where it came from: `--session NAME`,
/// else `$HYPRPILOT_SESSION`, else `default`.
pub open spec fn name_choice(flag: Option<Seq<char>>, from_env: Option<Seq<char>>) -> (Seq<char>, Seq<char>) {
    match (flag, from_env) {
        (Some(n), _) => (n, "--session"@),
        (None, Some(n)) => (n, "HYPRPILOT_SESSION"@),
        (None, None) => ("default"@, "the default"@),
    }
}

pub open spec fn opt_view(o: Option<&str>) -> Option<Seq<char>> {
    match o {
        Some(s) => Some(s@),
        None => None,
    }
}

/// The session name a command acts on, validated on every command.
pub fn resolve_name_from(flag: Option<&str>, from_env: Option<&str>) -> (r: Result<String, Error>)
    ensures
        ({
            let (name, source) = name_choice(opt_view(flag), opt_view(from_env));
            &&& valid_name_spec(name) ==> (r matches Ok(n) && n@ == name)
            &&& !valid_name_spec(name) ==> (r matches Err(Error::Invalid { what, value, hint })
                && what@ == "session name"@ && value@ == name && hint@ == name_hint(source))
        }),
{
    let (name, source): (&str, &str) = match (flag, from_env) {
        (Some(n), _) => (n, "--session"),
        (None, Some(n)) => (n, "HYPRPILOT_SESSION"),
        (None, None) => ("default", "the default"),
    };
    validate_name(name, source)?;
    Ok(own(name))
}

/// Which windows a command means: each criterion that is set has to hold.
#[derive(Debug, Clone, Copy)]
pub struct Criteria<'a> {
    pub address: Option<&'a str>,
    pub title: Option<&'a str>,
    pub class: Option<&'a str>,
    pub pid: Option<i32>,
}

/// Whether an optional criterion holds of `have`.
pub open spec fn holds(want: Option<&str>, have: Seq<char>) -> bool {
    match want {
        Some(w) => w@ == have,
        None => true,
    }
}

/// Whether `client` meets every criterion that is set.
pub open spec fn matches_spec(client: Client, criteria: Criteria) -> bool {
    &&& holds(criteria.address, client.address@)
    &&& holds(criteria.title, client.title@)
    &&& holds(criteria.class, client.class@)
    &&& match criteria.pid {
        Some(p) => client.pid == p,
        None => true,
    }
}

fn holds_exec(want: Option<&str>, have: &str) -> (r: bool)
    ensures
        r == holds(want, have@),
{
    match want {
        Some(w) => str_eq(w, have),
        None => true,
    }
}

/// Whether `client` meets every criterion that is set.
pub fn matches_criteria(client: &Client, criteria: &Criteria) -> (r: bool)
    ensures
        r == matches_spec(*client, *criteria),
{
    holds_exec(criteria.address, client.address.as_str()) && holds_exec(
        criteria.title,
        client.title.as_str(),
    ) && holds_exec(criteria.class, client.class.as_str()) && match criteria.pid {
        Some(p) => client.pid == p,
        None => true,
    }
}

/// How many windows a lookup found.
#[derive(Debug)]
pub enum Resolution<'a> {
    Unique(&'a Client),
    NoMatch,
    Ambiguous(Vec<&'a Client>),
}

/// Whether `address` is one of the tracked windows.
pub open spec fn tracked_spec(windows: Seq<TrackedWindow>, address: Seq<char>) -> bool {
    exists|i: int| 0 <= i < windows.len() && windows[i].address@ == address
}

/// Whether a window is a candidate of a lookup: it meets the criteria and,
/// when only untracked windows are wanted, is not tracked yet.
pub open spec fn candidate_spec(
    client: Client,
    criteria: Criteria,
    windows: Seq<TrackedWindow>,
    untracked: bool,
) -> bool {
    matches_spec(client, criteria) && (!untracked || !tracked_spec(windows, client.address@))
}

/// The candidates among `clients`, in order.
pub open spec fn candidates(
    clients: Seq<Client>,
    criteria: Criteria,
    windows: Seq<TrackedWindow>,
    untracked: bool,
) -> Seq<Client>
    decreases clients.len(),
{
    if clients.len() == 0 {
        Seq::empty()
    } else if candidate_spec(clients.last(), criteria, windows, untracked) {
        candidates(clients.drop_last(), criteria, windows, untracked).push(clients.last())
    } else {
        candidates(clients.drop_last(), criteria, windows, untracked)
    }
}

/// The windows a list of references points at.
pub open spec fn pointed(v: Seq<&Client>) -> Seq<Client> {
    v.map_values(|c: &Client| *c)
}

/// None, one or several: what a list of candidates resolves to.
pub open spec fn resolution_spec(found: Seq<Client>, r: Resolution) -> bool {
    if found.len() == 0 {
        r is NoMatch
    } else if found.len() == 1 {
        r matches Resolution::Unique(c) && *c == found[0]
    } else {
        r matches Resolution::Ambiguous(v) && pointed(v@) == found
    }
}

/// Whether `address` is one of the tracked windows.
pub fn is_tracked(windows: &Vec<TrackedWindow>, address: &str) -> (r: bool)
    ensures
        r == tracked_spec(windows@, address@),
{
    let mut i: usize = 0;
    while i < windows.len()
        invariant
            i <= windows@.len(),
            forall|j: int| 0 <= j < i ==> windows@[j].address@ != address@,
        decreases windows@.len() - i,
    {
        if str_eq(windows[i].address.as_str(), address) {
            return true;
        }
        i += 1;
    }
    false
}

fn is_candidate(client: &Client, criteria: &Criteria, windows: &Vec<TrackedWindow>, untracked: bool) -> (r:
    bool)
    ensures
        r == candidate_spec(*client, *criteria, windows@, untracked),
{
    matches_criteria(client, criteria) && (!untracked || !is_tracked(
        windows,
        client.address.as_str(),
    ))
}

fn collect_candidates<'a>(
    clients: &'a [Client],
    criteria: &Criteria,
    windows: &Vec<TrackedWindow>,
    untracked: bool,
) -> (r: Vec<&'a Client>)
    ensures
        pointed(r@) == candidates(clients@, *criteria, windows@, untracked),
{
    let mut r: Vec<&'a Client> = Vec::new();
    let mut i: usize = 0;
    while i < clients.len()
        invariant
            i <= clients@.len(),
            pointed(r@) == candidates(clients@.subrange(0, i as int), *criteria, windows@, untracked),
        decreases clients@.len() - i,
    {
        assert(clients@.subrange(0, i + 1).drop_last() =~= clients@.subrange(0, i as int));
        if is_candidate(&clients[i], criteria, windows, untracked) {
            let ghost before = r@;
            r.push(&clients[i]);
            assert(pointed(r@) =~= pointed(before).push(clients@[i as int]));
        }
        i += 1;
    }
    assert(clients@.subrange(0, clients@.len() as int) =~= clients@);
    r
}

fn resolution<'a>(found: Vec<&'a Client>) -> (r: Resolution<'a>)
    ensures
        resolution_spec(pointed(found@), r),
{
    if found.len() == 0 {
        Resolution::NoMatch
    } else if found.len() == 1 {
        Resolution::Unique(found[0])
    } else {
        Resolution::Ambiguous(found)
    }
}

/// The windows matching `criteria`: none, the one, or every one of several.
pub fn resolve<'a>(clients: &'a [Client], criteria: &Criteria) -> (r: Resolution<'a>)
    ensures
        resolution_spec(candidates(clients@, *criteria, Seq::empty(), false), r),
{
    let none: Vec<TrackedWindow> = Vec::new();
    let found = collect_candidates(clients, criteria, &none, false);
    resolution(found)
}

/// A window matches a set of criteria exactly when it carries every value
/// asked for: the address, the title, the class and the pid, each when set.
pub proof fn a_window_matches_exactly_when_it_carries_every_value_asked(client: Client, criteria: Criteria)
    ensures
        matches_spec(client, criteria) <==> ((criteria.pid matches Some(p) ==> client.pid == p) && (
        criteria.address matches Some(a) ==> client.address@ == a@) && (criteria.title matches Some(t)
            ==> client.title@ == t@) && (criteria.class matches Some(k) ==> client.class@ == k@)),
{
}

/// Every candidate a lookup finds is one of `clients` and is a candidate;
/// every candidate among `clients` is found.
proof fn lemma_candidates_are_the_candidates(
    clients: Seq<Client>,
    criteria: Criteria,
    windows: Seq<TrackedWindow>,
    untracked: bool,
)
    ensures
        forall|i: int|
            0 <= i < candidates(clients, criteria, windows, untracked).len() ==> clients.contains(
                #[trigger] candidates(clients, criteria, windows, untracked)[i],
            ) && candidate_spec(candidates(clients, criteria, windows, untracked)[i], criteria, windows, untracked),
        forall|j: int|
            0 <= j < clients.len() && candidate_spec(#[trigger] clients[j], criteria, windows, untracked)
                ==> candidates(clients, criteria, windows, untracked).contains(clients[j]),
    decreases clients.len(),
{
    if clients.len() > 0 {
        let rest = clients.drop_last();
        lemma_candidates_are_the_candidates(rest, criteria, windows, untracked);
        let found = candidates(clients, criteria, windows, untracked);
        let before = candidates(rest, criteria, windows, untracked);
        assert forall|i: int| 0 <= i < found.len() implies clients.contains(#[trigger] found[i]) && candidate_spec(
            found[i],
            criteria,
            windows,
            untracked,
        ) by {
            if i < before.len() {
                assert(found[i] == before[i]);
                let k = choose|k: int| 0 <= k < rest.len() && rest[k] == before[i];
                assert(clients[k] == rest[k]);
            } else {
                assert(found[i] == clients.last());
                assert(clients[clients.len() - 1] == clients.last());
            }
        }
        assert forall|j: int| 0 <= j < clients.len() && candidate_spec(#[trigger] clients[j], criteria, windows, untracked)
            implies found.contains(clients[j]) by {
            if j < clients.len() - 1 {
                assert(rest[j] == clients[j]);
                assert(before.contains(clients[j]));
                let k = choose|k: int| 0 <= k < before.len() && before[k] == clients[j];
                assert(found[k] == before[k]);
            } else {
                assert(found[found.len() - 1] == clients[j]);
            }
        }
    }
}

/// A lookup returns the windows that meet every criterion set, and only
/// them: each window it returns, alone or among several, carries the
/// address, title and class asked for and the pid asked for, and, when only
/// untracked windows are wanted, is none of the tracked windows; a window of
/// `clients` that differs from any of them is never returned; and a window
/// that meets all of them is returned, so the lookup is not empty.
pub proof fn a_lookup_returns_only_windows_meeting_every_criterion(
    clients: Seq<Client>,
    criteria: Criteria,
    windows: Seq<TrackedWindow>,
    untracked: bool,
    r: Resolution,
)
    requires
        resolution_spec(candidates(clients, criteria, windows, untracked), r),
    ensures
        forall|c: Client|
            #![trigger returned(r, c)]
            returned(r, c) ==> clients.contains(c) && (criteria.pid matches Some(p) ==> c.pid == p) && (
            criteria.address matches Some(a) ==> c.address@ == a@) && (criteria.title matches Some(t)
                ==> c.title@ == t@) && (criteria.class matches Some(k) ==> c.class@ == k@) && (untracked
                ==> forall|k: int| 0 <= k < windows.len() ==> windows[k].address@ != c.address@),
        forall|j: int|
            0 <= j < clients.len() && (criteria.pid matches Some(p) ==> clients[j].pid == p) && (
            criteria.address matches Some(a) ==> clients[j].address@ == a@) && (criteria.title matches Some(
                t,
            ) ==> clients[j].title@ == t@) && (criteria.class matches Some(k) ==> clients[j].class@ == k@) && (
            untracked ==> forall|k: int| 0 <= k < windows.len() ==> windows[k].address@ != clients[j].address@)
                ==> !(r is NoMatch) && #[trigger] returned(r, clients[j]),
{
    lemma_candidates_are_the_candidates(clients, criteria, windows, untracked);
    let found = candidates(clients, criteria, windows, untracked);
    assert forall|c: Client| #[trigger] returned(r, c) implies clients.contains(c) && (criteria.pid matches Some(p)
        ==> c.pid == p) && (criteria.address matches Some(a) ==> c.address@ == a@) && (
    criteria.title matches Some(t) ==> c.title@ == t@) && (criteria.class matches Some(k) ==> c.class@
        == k@) && (untracked ==> forall|k: int| 0 <= k < windows.len() ==> windows[k].address@ != c.address@) by {
        let i: int = match r {
            Resolution::Unique(u) => 0,
            Resolution::Ambiguous(v) => {
                let k = choose|k: int| 0 <= k < v@.len() && *v@[k] == c;
                assert(pointed(v@)[k] == *v@[k]);
                k
            },
            Resolution::NoMatch => 0,
        };
        assert(0 <= i < found.len() && found[i] == c);
        assert(candidate_spec(found[i], criteria, windows, untracked));
    }
    assert forall|j: int|
        0 <= j < clients.len() && (criteria.pid matches Some(p) ==> clients[j].pid == p) && (
        criteria.address matches Some(a) ==> clients[j].address@ == a@) && (criteria.title matches Some(t)
            ==> clients[j].title@ == t@) && (criteria.class matches Some(k) ==> clients[j].class@ == k@) && (
        untracked ==> forall|k: int| 0 <= k < windows.len() ==> windows[k].address@ != clients[j].address@)
        implies !(r is NoMatch) && #[trigger] returned(r, clients[j]) by {
        assert(candidate_spec(clients[j], criteria, windows, untracked));
        assert(found.contains(clients[j]));
        let k = choose|k: int| 0 <= k < found.len() && found[k] == clients[j];
        match r {
            Resolution::Unique(u) => {},
            Resolution::Ambiguous(v) => {
                assert(pointed(v@)[k] == *v@[k]);
            },
            Resolution::NoMatch => {},
        }
    }
}

/// `c` is among the windows a resolution returns.
pub open spec fn returned(r: Resolution, c: Client) -> bool {
    match r {
        Resolution::Unique(u) => *u == c,
        Resolution::Ambiguous(v) => exists|i: int| 0 <= i < v@.len() && *v@[i] == c,
        Resolution::NoMatch => false,
    }
}

/// Joins `words` with `sep` between each two.
pub open spec fn joined_by(words: Seq<Seq<char>>, sep: Seq<char>) -> Seq<char>
    decreases words.len(),
{
    if words.len() == 0 {
        Seq::empty()
    } else if words.len() == 1 {
        words[0]
    } else {
        joined_by(words.drop_last(), sep) + sep + words.last()
    }
}

/// A part of a criteria label, when its criterion is set.
pub open spec fn label_part(name: Seq<char>, value: Option<Seq<char>>) -> Seq<Seq<char>> {
    match value {
        Some(v) => seq![name + " `"@ + v + "`"@],
        None => Seq::empty(),
    }
}

/// How a criteria set reads in a message: `address `A` and title `T` ...`.
pub open spec fn criteria_label_spec(criteria: Criteria) -> Seq<char> {
    joined_by(
        label_part("address"@, opt_view(criteria.address)) + label_part(
            "title"@,
            opt_view(criteria.title),
        ) + label_part("class"@, opt_view(criteria.class)) + label_part(
            "pid"@,
            match criteria.pid {
                Some(p) => Some(int_text(p as int)),
                None => None,
            },
        ),
        " and "@,
    )
}

fn push_part(parts: &mut Vec<String>, name: &str, value: Option<&str>)
    ensures
        string_views(final(parts)@) == string_views(old(parts)@) + label_part(name@, opt_view(value)),
{
    match value {
        Some(v) => {
            let mut part = cat(name, " `");
            part.append(v);
            part.append("`");
            let ghost before = parts@;
            parts.push(part);
            proof {
                crate::hypr::lemma_string_views_push(before, parts@.last());
            }
        },
        None => {
            assert(string_views(parts@) + label_part(name@, opt_view(value)) =~= string_views(
                parts@,
            ));
        },
    }
}

/// Joins strings with `sep` between each two.
pub fn join_with(words: &Vec<String>, sep: &str) -> (r: String)
    ensures
        r@ == joined_by(string_views(words@), sep@),
{
    let mut r = String::new();
    let mut i: usize = 0;
    while i < words.len()
        invariant
            i <= words@.len(),
            r@ == joined_by(string_views(words@.subrange(0, i as int)), sep@),
        decreases words@.len() - i,
    {
        proof {
            assert(string_views(words@.subrange(0, i + 1)).drop_last() =~= string_views(
                words@.subrange(0, i as int),
            ));
        }
        if i > 0 {
            r.append(sep);
        } else {
            assert(r@ == Seq::<char>::empty());
        }
        r.append(words[i].as_str());
        proof {
            let w = string_views(words@.subrange(0, i + 1));
            assert(w.last() == words@[i as int]@);
            if i == 0 {
                assert(w.len() == 1);
                assert(r@ =~= w[0]);
            }
        }
        i += 1;
    }
    assert(words@.subrange(0, words@.len() as int) =~= words@);
    r
}

/// How a criteria set reads in a message.
pub fn criteria_label(criteria: &Criteria) -> (r: String)
    ensures
        r@ == criteria_label_spec(*criteria),
{
    let mut parts: Vec<String> = Vec::new();
    push_part(&mut parts, "address", criteria.address);
    push_part(&mut parts, "title", criteria.title);
    push_part(&mut parts, "class", criteria.class);
    let pid_text = match criteria.pid {
        Some(p) => Some(fmt_i64(p as i64)),
        None => None,
    };
    let pid_view: Option<&str> = match &pid_text {
        Some(t) => Some(t.as_str()),
        None => None,
    };
    push_part(&mut parts, "pid", pid_view);
    assert(string_views(parts@) =~= label_part("address"@, opt_view(criteria.address)) + label_part(
        "title"@,
        opt_view(criteria.title),
    ) + label_part("class"@, opt_view(criteria.class)) + label_part(
        "pid"@,
        match criteria.pid {
            Some(p) => Some(int_text(p as int)),
            None => None,
        },
    ));
    join_with(&parts, " and ")
}

/// How the criteria of `target` read, saying when only untracked windows
/// were looked at.
pub open spec fn target_label_spec(criteria: Criteria, untracked: bool) -> Seq<char> {
    let label = criteria_label_spec(criteria);
    if untracked {
        if label.len() == 0 {
            "untracked windows"@
        } else {
            label + " among untracked windows"@
        }
    } else {
        label
    }
}

/// How the criteria of `target` read.
pub fn target_criteria_label(criteria: &Criteria, untracked: bool) -> (r: String)
    ensures
        r@ == target_label_spec(*criteria, untracked),
{
    let label = criteria_label(criteria);
    if untracked {
        if label.unicode_len() == 0 {
            String::from_str("untracked windows")
        } else {
            cat(label.as_str(), " among untracked windows")
        }
    } else {
        label
    }
}

/// One candidate window in JSON, its fields in key order: what an ambiguous
/// lookup lists so the caller can pick.
pub open spec fn candidate_json(c: Client) -> Seq<char> {
    "{\"address\":"@ + json_quoted(c.address@) + ",\"at\":"@ + json_pair(c.at) + ",\"class\":"@
        + json_quoted(c.class@) + ",\"floating\":"@ + json_bool(c.floating)
        + ",\"initial_class\":"@ + json_quoted(c.initial_class@) + ",\"initial_title\":"@
        + json_quoted(c.initial_title@) + ",\"monitor\":"@ + int_text(c.monitor as int)
        + ",\"pid\":"@ + int_text(c.pid as int) + ",\"size\":"@ + json_pair(c.size) + ",\"title\":"@
        + json_quoted(c.title@) + ",\"workspace\":"@ + json_quoted(c.workspace.name@) + "}"@
}

/// The candidates as one JSON array.
pub open spec fn candidates_json(cs: Seq<Client>) -> Seq<char> {
    "["@ + joined_by(cs.map_values(|c: Client| candidate_json(c)), ","@) + "]"@
}

fn write_candidate(c: &Client) -> (r: String)
    ensures
        r@ == candidate_json(*c),
{
    let mut r = cat("{\"address\":", json_quote(c.address.as_str()).as_str());
    r.append(",\"at\":");
    r.append(fmt_json_pair(c.at).as_str());
    r.append(",\"class\":");
    r.append(json_quote(c.class.as_str()).as_str());
    r.append(",\"floating\":");
    r.append(if c.floating { "true" } else { "false" });
    r.append(",\"initial_class\":");
    r.append(json_quote(c.initial_class.as_str()).as_str());
    r.append(",\"initial_title\":");
    r.append(json_quote(c.initial_title.as_str()).as_str());
    r.append(",\"monitor\":");
    r.append(fmt_i64(c.monitor).as_str());
    r.append(",\"pid\":");
    r.append(fmt_i64(c.pid as i64).as_str());
    r.append(",\"size\":");
    r.append(fmt_json_pair(c.size).as_str());
    r.append(",\"title\":");
    r.append(json_quote(c.title.as_str()).as_str());
    r.append(",\"workspace\":");
    r.append(json_quote(c.workspace.name.as_str()).as_str());
    r.append("}");
    r
}

/// The refusal of a lookup that found several windows, listing them.
pub fn ambiguous_error_with_label(criteria: String, candidates: Vec<&Client>) -> (e: Error)
    ensures
        e matches Error::WindowAmbiguous { criteria: c, candidates: j } && c@ == criteria@ && j@
            == candidates_json(pointed(candidates@)),
{
    let mut items: Vec<String> = Vec::new();
    let mut i: usize = 0;
    while i < candidates.len()
        invariant
            i <= candidates@.len(),
            string_views(items@) == pointed(candidates@).subrange(0, i as int).map_values(
                |c: Client| candidate_json(c),
            ),
        decreases candidates@.len() - i,
    {
        let ghost before = items@;
        items.push(write_candidate(candidates[i]));
        proof {
            crate::hypr::lemma_string_views_push(before, items@.last());
            assert(pointed(candidates@).subrange(0, i + 1).map_values(|c: Client| candidate_json(c))
                =~= pointed(candidates@).subrange(0, i as int).map_values(
                |c: Client| candidate_json(c),
            ).push(candidate_json(*candidates@[i as int])));
        }
        i += 1;
    }
    assert(pointed(candidates@).subrange(0, candidates@.len() as int) =~= pointed(candidates@));
    let body = join_with(&items, ",");
    Error::WindowAmbiguous { criteria, candidates: cat3("[", body.as_str(), "]") }
}

/// The refusal of a lookup by `criteria` that found several windows.
pub fn ambiguous_error(criteria: &Criteria, candidates: Vec<&Client>) -> (e: Error)
    ensures
        e matches Error::WindowAmbiguous { criteria: c, candidates: j } && c@
            == criteria_label_spec(*criteria) && j@ == candidates_json(pointed(candidates@)),
{
    ambiguous_error_with_label(criteria_label(criteria), candidates)
}

/// Whether `target` moves to a window the session already tracks, or adopts
/// a new one.
#[derive(Debug, Clone, Copy, PartialEq, Eq, Structural)]
pub enum TargetMode {
    Switch,
    Adopt,
}

/// What one look for the target found: the window, or nothing yet.
#[derive(Debug)]
pub enum TargetLookup<'a> {
    Ready { client: &'a Client, mode: TargetMode },
    Retry,
}

/// The candidates of `target` among `clients`.
pub fn resolve_target<'a>(
    clients: &'a [Client],
    session: &Shared,
    criteria: &Criteria,
    untracked: bool,
) -> (r: Resolution<'a>)
    ensures
        resolution_spec(candidates(clients@, *criteria, session.windows@, untracked), r),
{
    let found = collect_candidates(clients, criteria, &session.windows, untracked);
    resolution(found)
}

/// What one look for the target gives: the one window found, with whether it
/// is tracked already; a retry when nothing matched and the caller waits; a
/// refusal naming the criteria otherwise.
pub open spec fn lookup_spec(
    found: Seq<Client>,
    windows: Seq<TrackedWindow>,
    criteria: Criteria,
    untracked: bool,
    wait: bool,
    r: Result<TargetLookup, Error>,
) -> bool {
    if found.len() == 1 {
        r matches Ok(TargetLookup::Ready { client, mode }) && *client == found[0] && mode == (if tracked_spec(
            windows,
            found[0].address@,
        ) {
            TargetMode::Switch
        } else {
            TargetMode::Adopt
        })
    } else if found.len() == 0 {
        if wait {
            r matches Ok(TargetLookup::Retry)
        } else {
            r matches Err(Error::WindowNotFound(label)) && label@ == target_label_spec(
                criteria,
                untracked,
            )
        }
    } else {
        r matches Err(Error::WindowAmbiguous { criteria: c, candidates: j }) && c@
            == target_label_spec(criteria, untracked) && j@ == candidates_json(found)
    }
}

/// One look for the window `target` means.
pub fn target_lookup<'a>(
    clients: &'a [Client],
    session: &Shared,
    criteria: &Criteria,
    untracked: bool,
    wait: bool,
) -> (r: Result<TargetLookup<'a>, Error>)
    ensures
        lookup_spec(
            candidates(clients@, *criteria, session.windows@, untracked),
            session.windows@,
            *criteria,
            untracked,
            wait,
            r,
        ),
{
    match resolve_target(clients, session, criteria, untracked) {
        Resolution::Unique(client) => {
            let mode = if is_tracked(&session.windows, client.address.as_str()) {
                TargetMode::Switch
            } else {
                TargetMode::Adopt
            };
            Ok(TargetLookup::Ready { client, mode })
        },
        Resolution::NoMatch => {
            if wait {
                Ok(TargetLookup::Retry)
            } else {
                Err(Error::WindowNotFound(target_criteria_label(criteria, untracked)))
            }
        },
        Resolution::Ambiguous(found) => Err(
            ambiguous_error_with_label(target_criteria_label(criteria, untracked), found),
        ),
    }
}

/// The disposition a target gets: a tracked window keeps the one it was
/// adopted with, so asking for another is refused; an adopted one gets what
/// was asked, `restore` by default.
pub fn target_disposition(address: &str, mode: TargetMode, requested: Option<Disposition>) -> (r:
    Result<Disposition, Error>)
    ensures
        match (mode, requested) {
            (TargetMode::Switch, Some(d)) => r matches Err(Error::Invalid { what, value, hint })
                && what@ == "target option"@ && value@ == "--on-teardown "@ + (if d
                == Disposition::Restore {
                "restore"@
            } else {
                "close"@
            }) && hint@ == "window "@ + address@
                + " is already tracked; omit --on-teardown when switching"@,
            (_, Some(d)) => r == Ok::<Disposition, Error>(d),
            (_, None) => r == Ok::<Disposition, Error>(Disposition::Restore),
        },
{
    match (mode, requested) {
        (TargetMode::Switch, Some(d)) => {
            let mut hint = cat("window ", address);
            hint.append(" is already tracked; omit --on-teardown when switching");
            Err(
                Error::Invalid {
                    what: String::from_str("target option"),
                    value: cat("--on-teardown ", d.label()),
                    hint,
                },
            )
        },
        (_, Some(d)) => Ok(d),
        (_, None) => Ok(Disposition::Restore),
    }
}

/// The output and workspace of the shared session.
#[derive(Debug)]
pub struct CurrentSession {
    pub output: String,
    pub workspace: String,
}

/// The shared session's active window as the compositor currently sees it,
/// given its windows.
pub fn shared_window_in(shared: &Shared, clients: Vec<Client>) -> (r: Result<
    (CurrentSession, Client),
    Error,
>)
    ensures
        match r {
            Ok((current, window)) => current.output@ == shared.output@ && current.workspace@
                == shared.active_workspace@ && exists|i: int|
                0 <= i < clients@.len() && clients@[i] == window && window.address@
                    == shared.active_address@,
            Err(e) => e matches Error::WindowGone(a) && a@ == shared.active_address@ && forall|
                i: int,
            | 0 <= i < clients@.len() ==> clients@[i].address@ != shared.active_address@,
        },
{
    match find_client(clients.as_slice(), shared.active_address.as_str()) {
        Some(window) => Ok(
            (
                CurrentSession {
                    output: own(shared.output.as_str()),
                    workspace: own(shared.active_workspace.as_str()),
                },
                window.duplicate(),
            ),
        ),
        None => Err(Error::WindowGone(own(shared.active_address.as_str()))),
    }
}

/// Whether a resize has taken: asked for the size it had, or the output no
/// longer reports the size it had before. A size read before the keyword took
/// is stale, not a refusal.
pub fn resize_has_applied(previous_size: [u32; 2], requested_size: [u32; 2], effective_size: [u32; 2]) -> (r:
    bool)
    ensures
        r == ((requested_size[0] == previous_size[0] && requested_size[1] == previous_size[1]) || (
        effective_size[0] != previous_size[0] || effective_size[1] != previous_size[1])),
{
    (requested_size[0] == previous_size[0] && requested_size[1] == previous_size[1]) || (
    effective_size[0] != previous_size[0] || effective_size[1] != previous_size[1])
}

/// The refusal of `session resize` on an agent desktop.
pub fn resize_unsupported() -> (e: Error)
    ensures
        e matches Error::IsolatedUnsupported { command, hint } && command@ == "session resize"@
            && hint@
            == "an agent desktop keeps the size it was started with; run `teardown` then `session start --isolated --size WxH`"@,
{
    Error::IsolatedUnsupported {
        command: String::from_str("session resize"),
        hint: String::from_str(
            "an agent desktop keeps the size it was started with; run `teardown` then `session start --isolated --size WxH`",
        ),
    }
}

/// What teardown does with one tracked window.
#[derive(Debug, Clone, Copy, PartialEq, Eq, Structural)]
pub enum WindowAction {
    Restore,
    Close,
    Kill(u32),
}

/// The refusal of a teardown flag that does not fit the session.
pub open spec fn flag_refusal(e: Error, what: Seq<char>, value: Seq<char>, hint: Seq<char>) -> bool {
    e matches Error::Invalid { what: w, value: v, hint: h } && w@ == what && v@ == value && h@
        == hint
}

/// `--kill` and `--close` exclude each other; `--kill` needs a process this
/// session spawned; `--close` only applies to a primary it attached to.
pub fn validate_teardown_flags(spawned_pid: Option<u32>, kill: bool, close: bool) -> (r: Result<
    (),
    Error,
>)
    ensures
        kill && close ==> (r matches Err(e) && flag_refusal(
            e,
            "teardown flags"@,
            "--kill --close"@,
            "--kill and --close are mutually exclusive"@,
        )),
        kill && !close && spawned_pid is None ==> (r matches Err(e) && flag_refusal(
            e,
            "teardown flag"@,
            "--kill"@,
            "--kill requires a spawned session with a spawned_pid"@,
        )),
        close && !kill && spawned_pid is Some ==> (r matches Err(e) && flag_refusal(
            e,
            "teardown flag"@,
            "--close"@,
            "--close only applies to an attached primary; spawned sessions close by default"@,
        )),
        r is Ok <==> !(kill && close) && !(kill && spawned_pid is None) && !(close
            && spawned_pid is Some),
{
    if kill && close {
        return Err(
            invalid(
                "teardown flags",
                String::from_str("--kill --close"),
                String::from_str("--kill and --close are mutually exclusive"),
            ),
        );
    }
    if kill && spawned_pid.is_none() {
        return Err(
            invalid(
                "teardown flag",
                String::from_str("--kill"),
                String::from_str("--kill requires a spawned session with a spawned_pid"),
            ),
        );
    }
    if close && spawned_pid.is_some() {
        return Err(
            invalid(
                "teardown flag",
                String::from_str("--close"),
                String::from_str(
                    "--close only applies to an attached primary; spawned sessions close by default",
                ),
            ),
        );
    }
    Ok(())
}

/// What teardown does with `window`: the primary is closed when `--close`
/// asks, killed when `--kill` asks, and otherwise, like every other window,
/// gets the disposition it was adopted with.
pub open spec fn action_spec(session: Shared, window: TrackedWindow, kill: bool, close: bool) -> WindowAction {
    let own_action = if window.teardown == Disposition::Restore {
        WindowAction::Restore
    } else {
        WindowAction::Close
    };
    if window.address@ == session.primary_address@ {
        if kill && session.spawned_pid is Some {
            WindowAction::Kill(session.spawned_pid->0)
        } else if close {
            WindowAction::Close
        } else {
            own_action
        }
    } else {
        own_action
    }
}

/// The teardown plan: every tracked window, last adopted first, with its
/// action.
pub open spec fn plan_spec(session: Shared, kill: bool, close: bool, plan: Seq<(&TrackedWindow, WindowAction)>) -> bool {
    let n = session.windows@.len();
    &&& plan.len() == n
    &&& forall|i: int|
        0 <= i < n ==> *(#[trigger] plan[i]).0 == session.windows@[n - 1 - i] && plan[i].1
            == action_spec(session, session.windows@[n - 1 - i], kill, close)
}

fn window_action(session: &Shared, window: &TrackedWindow, kill: bool, close: bool) -> (r:
    WindowAction)
    ensures
        r == action_spec(*session, *window, kill, close),
{
    let own_action = match window.teardown {
        Disposition::Restore => WindowAction::Restore,
        Disposition::Close => WindowAction::Close,
    };
    if str_eq(window.address.as_str(), session.primary_address.as_str()) {
        match (kill, session.spawned_pid) {
            (true, Some(pid)) => WindowAction::Kill(pid),
            _ => if close {
                WindowAction::Close
            } else {
                own_action
            },
        }
    } else {
        own_action
    }
}

/// What teardown does with each tracked window, in reverse order of adoption,
/// once the flags are known to fit the session.
pub fn teardown_plan<'s>(session: &'s Shared, kill: bool, close: bool) -> (r: Result<
    Vec<(&'s TrackedWindow, WindowAction)>,
    Error,
>)
    ensures
        match validate_flags_spec(session.spawned_pid, kill, close) {
            true => r matches Ok(plan) && plan_spec(*session, kill, close, plan@),
            false => r is Err,
        },
{
    validate_teardown_flags(session.spawned_pid, kill, close)?;
    let n = session.windows.len();
    let mut plan: Vec<(&TrackedWindow, WindowAction)> = Vec::new();
    let mut i: usize = 0;
    while i < n
        invariant
            n == session.windows@.len(),
            i <= n,
            plan@.len() == i,
            forall|j: int|
                0 <= j < i ==> *(#[trigger] plan@[j]).0 == session.windows@[n - 1 - j] && plan@[j].1
                    == action_spec(*session, session.windows@[n - 1 - j], kill, close),
        decreases n - i,
    {
        let window = &session.windows[n - 1 - i];
        plan.push((window, window_action(session, window, kill, close)));
        i += 1;
    }
    Ok(plan)
}

/// Whether the teardown flags fit a session with this spawned process.
pub open spec fn validate_flags_spec(spawned_pid: Option<u32>, kill: bool, close: bool) -> bool {
    !(kill && close) && !(kill && spawned_pid is None) && !(close && spawned_pid is Some)
}

/// An agent desktop has no window dispositions to choose from, so the shared
/// flags are refused rather than silently ignored.
pub fn refuse_teardown_flags(kill: bool, close: bool) -> (r: Result<(), Error>)
    ensures
        !kill && !close <==> r is Ok,
        r matches Err(e) ==> flag_refusal(
            e,
            "teardown flag"@,
            if kill {
                "--kill"@
            } else {
                "--close"@
            },
            "an agent desktop has no window dispositions: `dispatch exit` takes the whole desktop down anyway — run `teardown` without flags"@,
        ),
{
    let flag = if kill {
        "--kill"
    } else if close {
        "--close"
    } else {
        return Ok(());
    };
    Err(
        invalid(
            "teardown flag",
            String::from_str(flag),
            String::from_str(
                "an agent desktop has no window dispositions: `dispatch exit` takes the whole desktop down anyway — run `teardown` without flags",
            ),
        ),
    )
}

/// A teardown that could not restore everything still reports what it did.
pub fn report_teardown(summary: String, failures: Vec<RestoreFailure>) -> (r: Result<String, Error>)
    ensures
        failures@.len() == 0 ==> r == Ok::<String, Error>(summary),
        failures@.len() > 0 ==> (r matches Err(Error::TeardownIncomplete { summary: s, failures: f })
            && s == summary && f == failures),
{
    if failures.len() == 0 {
        Ok(summary)
    } else {
        Err(Error::TeardownIncomplete { summary, failures })
    }
}

/// The one window matching `criteria` among the host's, if any; several are
/// refused with the list of them.
pub fn find_window<R: FnOnce(Vec<String>) -> Result<ProcessOutput, String>, P: Fn(String) -> Result<
    Vec<Client>,
    String,
>>(run: R, parse: &P, criteria: &Criteria) -> (r: Result<Option<Client>, Error>)
    requires
        forall|v: Vec<String>| call_requires(run, (v,)),
        forall|s: String| call_requires(*parse, (s,)),
    ensures
        exists|q: Result<Vec<Client>, Error>|
            queried(run, *parse, Ctl::Host, seq!["clients"@], q) && match q {
                Err(e) => r == Err::<Option<Client>, Error>(e),
                Ok(clients) => {
                    let found = candidates(clients@, *criteria, Seq::empty(), false);
                    if found.len() == 0 {
                        r == Ok::<Option<Client>, Error>(None)
                    } else if found.len() == 1 {
                        r == Ok::<Option<Client>, Error>(Some(found[0]))
                    } else {
                        r matches Err(Error::WindowAmbiguous { criteria: c, candidates: j }) && c@
                            == criteria_label_spec(*criteria) && j@ == candidates_json(found)
                    }
                },
            },
{
    let q = clients(run, parse);
    let ghost gq = q;
    let r = match q {
        Err(e) => Err(e),
        Ok(list) => match resolve(list.as_slice(), criteria) {
            Resolution::Unique(client) => Ok(Some(client.duplicate())),
            Resolution::NoMatch => Ok(None),
            Resolution::Ambiguous(found) => Err(ambiguous_error(criteria, found)),
        },
    };
    assert(queried(run, *parse, Ctl::Host, seq!["clients"@], gq));
    r
}

/// What looking the output called `name` up among the host's gave.
pub open spec fn find_output_spec<R: FnOnce(Vec<String>) -> Result<ProcessOutput, String>, P: Fn(String) -> Result<
    Vec<Monitor>,
    String,
>>(run: R, parse: P, name: Seq<char>, r: Result<Option<Monitor>, Error>) -> bool {
    exists|q: Result<Vec<Monitor>, Error>|
        queried(run, parse, Ctl::Host, seq!["monitors"@], q) && match q {
            Err(e) => r == Err::<Option<Monitor>, Error>(e),
            Ok(monitors) => match r {
                Ok(Some(m)) => m.name@ == name && exists|i: int|
                    0 <= i < monitors@.len() && monitors@[i] == m && forall|j: int|
                        0 <= j < i ==> monitors@[j].name@ != name,
                Ok(None) => forall|i: int| 0 <= i < monitors@.len() ==> monitors@[i].name@ != name,
                Err(_) => false,
            },
        }
}

/// The output called `name` among the host's, if it exists.
pub fn find_output<R: FnOnce(Vec<String>) -> Result<ProcessOutput, String>, P: Fn(String) -> Result<
    Vec<Monitor>,
    String,
>>(run: R, parse: &P, name: &str) -> (r: Result<Option<Monitor>, Error>)
    requires
        forall|v: Vec<String>| call_requires(run, (v,)),
        forall|s: String| call_requires(*parse, (s,)),
    ensures
        find_output_spec(run, *parse, name@, r),
{
    let q = monitors(run, parse);
    let ghost gq = q;
    let r = match q {
        Err(e) => Err(e),
        Ok(list) => match find_monitor(list.as_slice(), name) {
            Some(m) => Ok(Some(m.duplicate())),
            None => Ok(None),
        },
    };
    assert(queried(run, *parse, Ctl::Host, seq!["monitors"@], gq));
    r
}

/// What reading the shared session's active window gave.
pub open spec fn shared_window_spec<R: FnOnce(Vec<String>) -> Result<ProcessOutput, String>, P: Fn(String) -> Result<
    Vec<Client>,
    String,
>>(run: R, parse: P, shared: Shared, r: Result<(CurrentSession, Client), Error>) -> bool {
    exists|q: Result<Vec<Client>, Error>|
        queried(run, parse, Ctl::Host, seq!["clients"@], q) && match q {
            Err(e) => r == Err::<(CurrentSession, Client), Error>(e),
            Ok(clients) => match r {
                Ok((current, window)) => current.output@ == shared.output@ && current.workspace@
                    == shared.active_workspace@ && exists|i: int|
                    0 <= i < clients@.len() && clients@[i] == window && window.address@
                        == shared.active_address@,
                Err(e) => e matches Error::WindowGone(a) && a@ == shared.active_address@ && forall|i: int|
                    0 <= i < clients@.len() ==> clients@[i].address@ != shared.active_address@,
            },
        }
}

/// The shared session's active window as the compositor currently sees it.
pub fn shared_window<R: FnOnce(Vec<String>) -> Result<ProcessOutput, String>, P: Fn(String) -> Result<
    Vec<Client>,
    String,
>>(run: R, parse: &P, shared: &Shared) -> (r: Result<(CurrentSession, Client), Error>)
    requires
        forall|v: Vec<String>| call_requires(run, (v,)),
        forall|s: String| call_requires(*parse, (s,)),
    ensures
        shared_window_spec(run, *parse, *shared, r),
{
    let q = clients(run, parse);
    let ghost gq = q;
    let r = match q {
        Err(e) => Err(e),
        Ok(list) => shared_window_in(shared, list),
    };
    assert(queried(run, *parse, Ctl::Host, seq!["clients"@], gq));
    r
}

/// What warping the cursor back and reading it again gave: nothing when it
/// landed within the warp tolerance, else the failure saying where it is.
pub open spec fn cursor_back_spec(
    cursor: (i32, i32),
    restored: Result<(), Error>,
    actual: Result<(i32, i32), Error>,
    r: Result<(), RestoreFailure>,
) -> bool {
    if restored is Ok && (actual matches Ok(p) && near(p, cursor)) {
        r is Ok
    } else {
        r matches Err(f) && f.what@ == "cursor"@ && f.expected@ == pair_text(cursor) && f.actual@
            == match (restored, actual) {
            (Err(e), _) => "restore failed: "@ + e.text(),
            (Ok(_), Ok(p)) => pair_text(p),
            (Ok(_), Err(e)) => "verification failed: "@ + e.text(),
        }
    }
}

/// Warps the cursor back with the pool's first runner and reads where it
/// landed with its second, within the warp tolerance, never an exact
/// compare. No other runner is taken.
pub fn restore_cursor_verified<R: FnOnce(Vec<String>) -> Result<ProcessOutput, String>>(
    runners: &mut Vec<R>,
    cursor: (i32, i32),
) -> (r: Result<(), RestoreFailure>)
    requires
        old(runners)@.len() >= 2,
        runnable(old(runners)@),
    ensures
        restore_back(old(runners)@, final(runners)@, cursor, r),
        runnable(final(runners)@),
{
    let ghost pool = runners@;
    let warp = take_runner(runners);
    assert forall|v: Vec<String>| call_requires(warp, (v,)) by {
        assert(call_requires(pool[pool.len() - 1], (v,)));
    }
    let restored = guard::restore_cursor(warp, cursor);
    let ghost gr = restored;
    let read = take_runner(runners);
    assert forall|v: Vec<String>| call_requires(read, (v,)) by {
        assert(call_requires(pool[pool.len() - 2], (v,)));
    }
    let actual = crate::hypr::cursor_pos(read);
    let ghost ga = actual;
    assert(cursor_read(nth_runner(pool, 1), Ctl::Host, ga));
    assert(runners@ =~= pool.subrange(0, pool.len() - 2));
    assert forall|i: int, v: Vec<String>| 0 <= i < runners@.len() implies #[trigger] call_requires(
        runners@[i],
        (v,),
    ) by {
        assert(runners@[i] == pool[i]);
    }
    let landed = match &actual {
        Ok(p) => cursor_near(*p, cursor),
        Err(_) => false,
    };
    let r = if restored.is_ok() && landed {
        Ok(())
    } else {
        let text = match (restored, actual) {
            (Err(e), _) => cat("restore failed: ", e.message().as_str()),
            (Ok(()), Ok(p)) => fmt_pair(p),
            (Ok(()), Err(e)) => cat("verification failed: ", e.message().as_str()),
        };
        Err(RestoreFailure::new("cursor", fmt_pair(cursor), text))
    };
    assert(cursor_back_spec(cursor, gr, ga, r));
    r
}

/// What removing an output gave once it was known to exist, from the pool
/// `pool` left after the monitors were listed: the cursor read with its
/// first runner, the removal with its second, then, unless the removal
/// failed or there is no position to go back to, the warp back and its
/// check with the next two. No other runner is taken.
pub open spec fn removal_spec<R: FnOnce(Vec<String>) -> Result<ProcessOutput, String>>(
    pool: Seq<R>,
    after: Seq<R>,
    output: Seq<char>,
    fallback: Option<(i32, i32)>,
    r: Result<OutputRemoval, Error>,
) -> bool {
    exists|c: Result<(i32, i32), Error>, removed: Result<(), Error>|
        cursor_read(nth_runner(pool, 0), Ctl::Host, c) && acked(nth_runner(pool, 1), remove_args(output), removed)
            && match removed {
            Err(e) => r == Err::<OutputRemoval, Error>(e) && spent(pool, after, 2),
            Ok(_) => r matches Ok(removal) && match (c, fallback) {
                (Err(e), None) => spent(pool, after, 2) && string_views(removal.notes@) == seq![
                    "removed output "@ + output,
                ] && (removal.failure matches Some(f) && f.what@ == "cursor"@ && f.expected@
                    == "the position held before `output remove`"@ && f.actual@
                    == "reading it failed: "@ + e.text()),
                _ => exists|back: Result<(), RestoreFailure>|
                        #[trigger] restore_back(
                            pool.subrange(0, pool.len() - 2),
                            after,
                            saved_cursor(c, fallback),
                            back,
                        ) && match back {
                            Ok(_) => string_views(removal.notes@) == seq![
                                "removed output "@ + output,
                                "cursor restored to "@ + pair_text(saved_cursor(c, fallback)),
                            ] && removal.failure is None,
                            Err(f) => string_views(removal.notes@) == seq![
                                "removed output "@ + output,
                            ] && removal.failure == Some(f),
                        },
            },
        }
}

/// The cursor an output removal warps back to: the one read just before, or
/// the fallback when it could not be read.
pub open spec fn saved_cursor(c: Result<(i32, i32), Error>, fallback: Option<(i32, i32)>) -> (i32, i32) {
    match c {
        Ok(p) => p,
        Err(_) => fallback->0,
    }
}

/// The contract of `restore_cursor_verified`, by name: the warp with the
/// pool's first runner, the read with its second, and nothing else.
pub open spec fn restore_back<R: FnOnce(Vec<String>) -> Result<ProcessOutput, String>>(
    pool: Seq<R>,
    after: Seq<R>,
    cursor: (i32, i32),
    r: Result<(), RestoreFailure>,
) -> bool {
    spent(pool, after, 2) && exists|restored: Result<(), Error>, actual: Result<(i32, i32), Error>|
        dispatched_on(nth_runner(pool, 0), Ctl::Host, movecursor_args(cursor), restored) && cursor_read(
            nth_runner(pool, 1),
            Ctl::Host,
            actual,
        ) && cursor_back_spec(cursor, restored, actual, r)
}

/// How many runners removing an output takes at most: the monitor list,
/// the cursor read, the removal, the warp back and its check.
pub const REMOVAL_RUNNERS: usize = 5;

/// Removes an output this crate created and puts the user's cursor back where
/// it was: `output remove` re-centres it, and reading it immediately before
/// the removal restores it to the pixel. An output already gone is an
/// idempotent success: the monitor list is the only command then. `fallback`
/// is the position to warp back to when the cursor cannot be read at the last
/// moment. Each command has its own runner of `runners`, taken in order.
pub fn remove_output_restoring_cursor<R: FnOnce(Vec<String>) -> Result<ProcessOutput, String>, P: Fn(
    String,
) -> Result<Vec<Monitor>, String>>(
    runners: &mut Vec<R>,
    parse: &P,
    output: &str,
    fallback: Option<(i32, i32)>,
) -> (r: Result<OutputRemoval, Error>)
    requires
        old(runners)@.len() >= REMOVAL_RUNNERS,
        runnable(old(runners)@),
        forall|s: String| call_requires(*parse, (s,)),
    ensures
        exists|q: Result<Vec<Monitor>, Error>|
            queried(nth_runner(old(runners)@, 0), *parse, Ctl::Host, seq!["monitors"@], q) && match q {
                Err(e) => r == Err::<OutputRemoval, Error>(e) && spent(old(runners)@, final(runners)@, 1),
                Ok(monitors) => if forall|i: int|
                    0 <= i < monitors@.len() ==> monitors@[i].name@ != output@ {
                    spent(old(runners)@, final(runners)@, 1) && (r matches Ok(removal) && string_views(
                        removal.notes@,
                    ) == seq!["output "@ + output@ + " already absent"@] && removal.failure is None)
                } else {
                    removal_spec(
                        old(runners)@.subrange(0, old(runners)@.len() - 1),
                        final(runners)@,
                        output@,
                        fallback,
                        r,
                    )
                },
            },
{
    let ghost pool = runners@;
    let list_run = take_runner(runners);
    assert forall|v: Vec<String>| call_requires(list_run, (v,)) by {
        assert(call_requires(pool[pool.len() - 1], (v,)));
    }
    let q = monitors(list_run, parse);
    let ghost gq = q;
    let list = match q {
        Err(e) => return Err(e),
        Ok(list) => list,
    };
    if find_monitor(list.as_slice(), output).is_none() {
        let mut notes: Vec<String> = Vec::new();
        notes.push(cat3("output ", output, " already absent"));
        assert(string_views(notes@) =~= seq!["output "@ + output@ + " already absent"@]);
        return Ok(OutputRemoval { notes, failure: None });
    }
    let ghost p1 = runners@;
    let read = take_runner(runners);
    assert forall|v: Vec<String>| call_requires(read, (v,)) by {
        assert(call_requires(pool[pool.len() - 2], (v,)));
    }
    let c = crate::hypr::cursor_pos(read);
    let ghost gc = c;
    assert(cursor_read(nth_runner(p1, 0), Ctl::Host, gc));
    let saved: Result<(i32, i32), Error> = match c {
        Ok(p) => Ok(p),
        Err(e) => match fallback {
            Some(p) => Ok(p),
            None => Err(e),
        },
    };
    let remove = take_runner(runners);
    assert forall|v: Vec<String>| call_requires(remove, (v,)) by {
        assert(call_requires(pool[pool.len() - 3], (v,)));
    }
    let removed = crate::hypr::output_remove(remove, output);
    let ghost grem = removed;
    assert(acked(nth_runner(p1, 1), remove_args(output@), grem));
    let ghost p3 = runners@;
    assert(p3 =~= p1.subrange(0, p1.len() - 2));
    assert forall|i: int, v: Vec<String>| 0 <= i < p3.len() implies #[trigger] call_requires(p3[i], (v,)) by {
        assert(p3[i] == pool[i]);
    }
    if let Err(e) = removed {
        return Err(e);
    }
    let mut notes: Vec<String> = Vec::new();
    notes.push(cat("removed output ", output));
    let ghost gsaved = saved;
    let ghost mut gback: Result<(), RestoreFailure> = Ok(());
    let r = match saved {
        Ok(cursor) => {
            let back = restore_cursor_verified(runners, cursor);
            let ghost gb = back;
            proof {
                gback = gb;
            }
            assert(restore_back(p3, runners@, cursor, gb));
            match back {
                Ok(()) => {
                    notes.push(cat("cursor restored to ", fmt_pair(cursor).as_str()));
                    assert(string_views(notes@) =~= seq![
                        "removed output "@ + output@,
                        "cursor restored to "@ + pair_text(cursor),
                    ]);
                    Ok(OutputRemoval { notes, failure: None })
                },
                Err(f) => {
                    assert(string_views(notes@) =~= seq!["removed output "@ + output@]);
                    Ok(OutputRemoval { notes, failure: Some(f) })
                },
            }
        },
        Err(error) => {
            assert(string_views(notes@) =~= seq!["removed output "@ + output@]);
            Ok(
                OutputRemoval {
                    notes,
                    failure: Some(
                        RestoreFailure::new(
                            "cursor",
                            String::from_str("the position held before `output remove`"),
                            cat("reading it failed: ", error.message().as_str()),
                        ),
                    ),
                },
            )
        },
    };
    proof {
        assert(grem is Ok);
        assert(r is Ok);
        match (gc, fallback) {
            (Err(e), None) => {
                assert(gsaved is Err);
            },
            _ => {
                let sv = saved_cursor(gc, fallback);
                assert(gsaved == Ok::<(i32, i32), Error>(sv));
                assert(restore_back(p3, runners@, sv, gback));
            },
        }
    }
    assert(removal_spec(p1, runners@, output@, fallback, r));
    r
}

/// A window's box in layout coordinates.
pub open spec fn client_rect_spec(c: Client) -> Rect {
    Rect { x: c.at[0], y: c.at[1], w: c.size[0], h: c.size[1] }
}

pub fn client_rect(client: &Client) -> (r: Rect)
    ensures
        r == client_rect_spec(*client),
{
    Rect { x: client.at[0], y: client.at[1], w: client.size[0], h: client.size[1] }
}

/// The refusal of a layout number that does not fit an `i32`.
pub open spec fn layout_refusal(name: Seq<char>, field: Seq<char>, value: int) -> Seq<char> {
    "output "@ + name + " reports non-integer "@ + field + " "@ + int_text(value)
}

pub open spec fn fits_i32(v: i64) -> bool {
    i32::MIN <= v <= i32::MAX
}

fn layout_integer(value: i64, field: &str, output: &str) -> (r: Result<i32, Error>)
    ensures
        fits_i32(value) ==> r == Ok::<i32, Error>(value as i32),
        !fits_i32(value) ==> (r matches Err(Error::Tool { command, message }) && command@
            == "hyprctl monitors"@ && message@ == layout_refusal(output@, field@, value as int)),
{
    if value < i32::MIN as i64 || value > i32::MAX as i64 {
        let mut m = cat3("output ", output, " reports non-integer ");
        m.append(field);
        m.append(" ");
        m.append(fmt_i64(value).as_str());
        return Err(Error::Tool { command: own("hyprctl monitors"), message: m });
    }
    Ok(value as i32)
}

/// An output's logical box, each number of which has to fit an `i32`.
pub open spec fn output_rect_spec(m: Monitor, r: Result<Rect, Error>) -> bool {
    let refusal = |field: Seq<char>, v: i64|
        r matches Err(Error::Tool { command, message }) && command@ == "hyprctl monitors"@ && message@
            == layout_refusal(m.name@, field, v as int);
    if !fits_i32(m.x) {
        refusal("x"@, m.x)
    } else if !fits_i32(m.y) {
        refusal("y"@, m.y)
    } else if !fits_i32(m.logical_width) {
        refusal("logical width"@, m.logical_width)
    } else if !fits_i32(m.logical_height) {
        refusal("logical height"@, m.logical_height)
    } else {
        r == Ok::<Rect, Error>(
            Rect {
                x: m.x as i32,
                y: m.y as i32,
                w: m.logical_width as i32,
                h: m.logical_height as i32,
            },
        )
    }
}

pub fn output_rect(output: &Monitor) -> (r: Result<Rect, Error>)
    ensures
        output_rect_spec(*output, r),
{
    let x = layout_integer(output.x, "x", output.name.as_str())?;
    let y = layout_integer(output.y, "y", output.name.as_str())?;
    let w = layout_integer(output.logical_width, "logical width", output.name.as_str())?;
    let h = layout_integer(output.logical_height, "logical height", output.name.as_str())?;
    Ok(Rect { x, y, w, h })
}

/// An oversized window pinned to the output's corner: its origin on the
/// output's, and each side at least as far as the output's on the axes it
/// is larger on, within it on the others.
pub open spec fn oversized_spec(window: Rect, output: Rect) -> bool {
    &&& window.x == output.x
    &&& window.y == output.y
    &&& if window.w > output.w {
        window.x + window.w >= output.x + output.w
    } else {
        window.x + window.w <= output.x + output.w
    }
    &&& if window.h > output.h {
        window.y + window.h >= output.y + output.h
    } else {
        window.y + window.h <= output.y + output.h
    }
}

pub fn oversized_overlap_is_verified(window: Rect, output: Rect) -> (r: bool)
    ensures
        r == oversized_spec(window, output),
{
    let right_w = window.x as i64 + window.w as i64;
    let right_o = output.x as i64 + output.w as i64;
    let bottom_w = window.y as i64 + window.h as i64;
    let bottom_o = output.y as i64 + output.h as i64;
    window.x == output.x && window.y == output.y && (if window.w > output.w {
        right_w >= right_o
    } else {
        right_w <= right_o
    }) && (if window.h > output.h {
        bottom_w >= bottom_o
    } else {
        bottom_w <= bottom_o
    })
}

/// Whether a parked window is where its placement put it: on the session
/// workspace, which its output shows with nothing over it, and, when it
/// floats, inside the output or pinned to its corner when oversized.
pub open spec fn placement_spec(window: Client, output: Monitor, workspace: Seq<char>, placement: Placement, r: Result<
    bool,
    Error,
>) -> bool {
    if window.workspace.name@ != workspace || output.active_workspace.name@ != workspace
        || output.special_workspace@.len() > 0 {
        r == Ok::<bool, Error>(false)
    } else if !window.floating {
        r == Ok::<bool, Error>(true)
    } else {
        exists|o: Result<Rect, Error>|
            output_rect_spec(output, o) && match o {
                Err(e) => r == Err::<bool, Error>(e),
                Ok(out) => r == Ok::<bool, Error>(
                    match placement {
                        Placement::Oversized(_, _) => oversized_spec(client_rect_spec(window), out),
                        _ => contains_spec(out, client_rect_spec(window)),
                    },
                ),
            }
    }
}

pub fn placement_is_verified(window: &Client, output: &Monitor, workspace: &str, placement: Placement) -> (r:
    Result<bool, Error>)
    ensures
        placement_spec(*window, *output, workspace@, placement, r),
{
    if !str_eq(window.workspace.name.as_str(), workspace) || !str_eq(
        output.active_workspace.name.as_str(),
        workspace,
    ) || output.special_workspace.unicode_len() > 0 {
        return Ok(false);
    }
    if !window.floating {
        return Ok(true);
    }
    let o = output_rect(output);
    let ghost go = o;
    let out = match o {
        Err(e) => return Err(e),
        Ok(r) => r,
    };
    let w = client_rect(window);
    let r = match placement {
        Placement::Oversized(_, _) => Ok(oversized_overlap_is_verified(w, out)),
        _ => Ok(contains(out, w)),
    };
    assert(output_rect_spec(*output, go));
    r
}

/// The refusal of an output whose size is not a positive `u32`.
pub open spec fn size_refusal(name: Seq<char>, field: Seq<char>, v: i64) -> Seq<char> {
    if v == 0 {
        "output "@ + name + " reports zero "@ + field
    } else {
        "output "@ + name + " reports invalid "@ + field + " "@ + int_text(v as int)
    }
}

pub open spec fn positive_u32(v: i64) -> bool {
    0 < v <= u32::MAX
}

fn dimension(value: i64, field: &str, output: &str) -> (r: Result<u32, Error>)
    ensures
        positive_u32(value) ==> r == Ok::<u32, Error>(value as u32),
        !positive_u32(value) ==> (r matches Err(Error::Tool { command, message }) && command@
            == "hyprctl monitors"@ && message@ == size_refusal(output@, field@, value)),
{
    if value < 0 || value > u32::MAX as i64 {
        let mut m = cat3("output ", output, " reports invalid ");
        m.append(field);
        m.append(" ");
        m.append(fmt_i64(value).as_str());
        return Err(Error::Tool { command: own("hyprctl monitors"), message: m });
    }
    if value == 0 {
        let mut m = cat3("output ", output, " reports zero ");
        m.append(field);
        return Err(Error::Tool { command: own("hyprctl monitors"), message: m });
    }
    Ok(value as u32)
}

/// The size the compositor actually gives an output, in pixels.
pub fn effective_output_size(output: &Monitor) -> (r: Result<[u32; 2], Error>)
    ensures
        positive_u32(output.width) && positive_u32(output.height) ==> r == Ok::<[u32; 2], Error>(
            [output.width as u32, output.height as u32],
        ),
        !positive_u32(output.width) ==> (r matches Err(Error::Tool { command, message }) && command@
            == "hyprctl monitors"@ && message@ == size_refusal(output.name@, "width"@, output.width)),
        positive_u32(output.width) && !positive_u32(output.height) ==> (r matches Err(
            Error::Tool { command, message },
        ) && command@ == "hyprctl monitors"@ && message@ == size_refusal(
            output.name@,
            "height"@,
            output.height,
        )),
{
    let w = dimension(output.width, "width", output.name.as_str())?;
    let h = dimension(output.height, "height", output.name.as_str())?;
    Ok([w, h])
}

/// An orphan output is only removed when no window of the host reports it,
/// and every window reports a monitor the host lists.
pub open spec fn sweep_spec(output: Monitor, monitors: Seq<Monitor>, clients: Seq<Client>, r: Result<(), Error>) -> bool {
    let refused = |reason: Seq<char>|
        r matches Err(Error::SweepRefused { output: o, reason: t }) && o@ == output.name@ && t@ == reason;
    let on_output = |c: Client| c.monitor == output.id;
    let stray = |c: Client|
        c.monitor < 0 || !(exists|k: int| 0 <= k < monitors.len() && monitors[k].id == c.monitor);
    let bad = |c: Client| on_output(c) || stray(c);
    if output.id < 0 {
        refused("output reports unexpected monitor id "@ + int_text(output.id as int))
    } else if exists|i: int| 0 <= i < clients.len() && bad(clients[i]) {
        let i = choose|i: int| 0 <= i < clients.len() && bad(clients[i]) && forall|j: int| 0 <= j < i ==> !bad(clients[j]);
        let c = clients[i];
        if on_output(c) {
            refused("client "@ + c.address@ + " (`"@ + c.title@ + "`) still reports monitor "@ + int_text(c.monitor as int))
        } else {
            refused("client "@ + c.address@ + " (`"@ + c.title@ + "`) reports unexpected monitor "@ + int_text(c.monitor as int))
        }
    } else {
        r is Ok
    }
}

fn lists_monitor(monitors: &[Monitor], id: i64) -> (r: bool)
    ensures
        r == exists|k: int| 0 <= k < monitors@.len() && monitors@[k].id == id,
{
    let mut k: usize = 0;
    while k < monitors.len()
        invariant
            k <= monitors@.len(),
            forall|j: int| 0 <= j < k ==> monitors@[j].id != id,
        decreases monitors@.len() - k,
    {
        if monitors[k].id == id {
            return true;
        }
        k += 1;
    }
    false
}

fn client_monitor_refusal(output: &str, c: &Client, what: &str) -> (r: Error)
    ensures
        r matches Error::SweepRefused { output: o, reason: t } && o@ == output@ && t@ == "client "@
            + c.address@ + " (`"@ + c.title@ + "`) "@ + what@ + " "@ + int_text(c.monitor as int),
{
    let mut m = cat3("client ", c.address.as_str(), " (`");
    m.append(c.title.as_str());
    m.append("`) ");
    m.append(what);
    m.append(" ");
    m.append(fmt_i64(c.monitor).as_str());
    Error::SweepRefused { output: own(output), reason: m }
}

pub fn ensure_output_empty_for_sweep(output: &Monitor, monitors: &[Monitor], clients: &[Client]) -> (r: Result<
    (),
    Error,
>)
    ensures
        sweep_spec(*output, monitors@, clients@, r),
{
    if output.id < 0 {
        return Err(
            Error::SweepRefused {
                output: own(output.name.as_str()),
                reason: cat("output reports unexpected monitor id ", fmt_i64(output.id).as_str()),
            },
        );
    }
    let ghost bad = |c: Client|
        c.monitor == output.id || (c.monitor < 0 || !(exists|k: int|
            0 <= k < monitors@.len() && monitors@[k].id == c.monitor));
    let mut i: usize = 0;
    while i < clients.len()
        invariant
            i <= clients@.len(),
            output.id >= 0,
            bad == (|c: Client|
                c.monitor == output.id || (c.monitor < 0 || !(exists|k: int|
                    0 <= k < monitors@.len() && monitors@[k].id == c.monitor))),
            forall|j: int| 0 <= j < i ==> !bad(#[trigger] clients@[j]),
        decreases clients@.len() - i,
    {
        let c = &clients[i];
        if c.monitor == output.id {
            assert(bad(clients@[i as int]));
            let e = client_monitor_refusal(output.name.as_str(), c, "still reports monitor");
            proof {
                reveal_strlit("still reports monitor");
                assert("client "@ + c.address@ + " (`"@ + c.title@ + "`) "@ + "still reports monitor"@ + " "@
                    =~= "client "@ + c.address@ + " (`"@ + c.title@ + "`) still reports monitor "@) by {
                    reveal_strlit("`) ");
                    reveal_strlit("`) still reports monitor ");
                    reveal_strlit(" ");
                }
            }
            return Err(e);
        }
        if c.monitor < 0 || !lists_monitor(monitors, c.monitor) {
            assert(bad(clients@[i as int]));
            let e = client_monitor_refusal(output.name.as_str(), c, "reports unexpected monitor");
            proof {
                assert("client "@ + c.address@ + " (`"@ + c.title@ + "`) "@ + "reports unexpected monitor"@ + " "@
                    =~= "client "@ + c.address@ + " (`"@ + c.title@ + "`) reports unexpected monitor "@) by {
                    reveal_strlit("`) ");
                    reveal_strlit("`) reports unexpected monitor ");
                    reveal_strlit(" ");
                    reveal_strlit("reports unexpected monitor");
                }
            }
            return Err(e);
        }
        i += 1;
    }
    Ok(())
}

/// Whether a tracked window other than the active one is where `target`
/// leaves it: parked, or no longer on the host.
pub open spec fn parked_or_gone(clients: Seq<Client>, address: Seq<char>, parking: Seq<char>) -> bool {
    match crate::isolated::first_at(clients, address) {
        Some(c) => clients[c].workspace.name@ == parking,
        None => true,
    }
}

/// The layout `target` leaves: the session output shows the session
/// workspace with no special workspace open anywhere on the parking one, the
/// active window sits on it, and every other tracked window is parked.
pub open spec fn target_layout_spec(session: Shared, clients: Seq<Client>, monitors: Seq<Monitor>, r: Result<
    bool,
    Error,
>) -> bool {
    match crate::isolated::first_named(monitors, session.output@) {
        None => r matches Err(Error::Tool { command, message }) && command@ == "hyprctl monitors"@
            && message@ == "session output "@ + session.output@ + " is missing"@,
        Some(o) => {
            let out = monitors[o];
            if out.active_workspace.name@ != session.active_workspace@ || out.special_workspace@.len()
                > 0 || exists|k: int|
                0 <= k < monitors.len() && monitors[k].special_workspace@ == session.parking_workspace@ {
                r == Ok::<bool, Error>(false)
            } else {
                match crate::isolated::first_at(clients, session.active_address@) {
                    None => r matches Err(Error::WindowGone(a)) && a@ == session.active_address@,
                    Some(a) => if clients[a].workspace.name@ != session.active_workspace@
                        || clients[a].monitor != out.id {
                        r == Ok::<bool, Error>(false)
                    } else {
                        r == Ok::<bool, Error>(
                            forall|t: int|
                                0 <= t < session.windows@.len() && session.windows@[t].address@
                                    != session.active_address@ ==> #[trigger] parked_or_gone(
                                    clients,
                                    session.windows@[t].address@,
                                    session.parking_workspace@,
                                ),
                        )
                    },
                }
            }
        },
    }
}

fn special_is_open(monitors: &[Monitor], name: &str) -> (r: bool)
    ensures
        r == exists|k: int| 0 <= k < monitors@.len() && monitors@[k].special_workspace@ == name@,
{
    let mut k: usize = 0;
    while k < monitors.len()
        invariant
            k <= monitors@.len(),
            forall|j: int| 0 <= j < k ==> monitors@[j].special_workspace@ != name@,
        decreases monitors@.len() - k,
    {
        if str_eq(monitors[k].special_workspace.as_str(), name) {
            return true;
        }
        k += 1;
    }
    false
}

fn is_parked_or_gone(clients: &[Client], address: &str, parking: &str) -> (r: bool)
    ensures
        r == parked_or_gone(clients@, address@, parking@),
{
    match find_client(clients, address) {
        None => {
            assert(crate::isolated::first_at(clients@, address@) is None);
            true
        },
        Some(c) => {
            proof {
                let i = choose|i: int|
                    0 <= i < clients@.len() && clients@[i] == *c && c.address@ == address@ && forall|j: int|
                        0 <= j < i ==> clients@[j].address@ != address@;
                crate::isolated::lemma_first_at(clients@, address@, i);
            }
            str_eq(c.workspace.name.as_str(), parking)
        },
    }
}

/// Whether the layout `target` asked for is what the compositor shows.
pub fn target_layout_is_verified(session: &Shared, clients: &[Client], monitors: &[Monitor]) -> (r: Result<
    bool,
    Error,
>)
    ensures
        target_layout_spec(*session, clients@, monitors@, r),
{
    let out = match find_monitor(monitors, session.output.as_str()) {
        None => {
            assert(crate::isolated::first_named(monitors@, session.output@) is None);
            return Err(
                Error::Tool {
                    command: own("hyprctl monitors"),
                    message: cat3("session output ", session.output.as_str(), " is missing"),
                },
            );
        },
        Some(m) => m,
    };
    let ghost oi = choose|i: int|
        0 <= i < monitors@.len() && monitors@[i] == *out && out.name@ == session.output@ && forall|j: int|
            0 <= j < i ==> monitors@[j].name@ != session.output@;
    proof {
        crate::isolated::lemma_first_named(monitors@, session.output@, oi);
    }
    if !str_eq(out.active_workspace.name.as_str(), session.active_workspace.as_str())
        || out.special_workspace.unicode_len() > 0 || special_is_open(
        monitors,
        session.parking_workspace.as_str(),
    ) {
        return Ok(false);
    }
    let active = match find_client(clients, session.active_address.as_str()) {
        None => {
            assert(crate::isolated::first_at(clients@, session.active_address@) is None);
            return Err(Error::WindowGone(session.active_address.clone()));
        },
        Some(c) => c,
    };
    let ghost ai = choose|i: int|
        0 <= i < clients@.len() && clients@[i] == *active && active.address@ == session.active_address@
            && forall|j: int| 0 <= j < i ==> clients@[j].address@ != session.active_address@;
    proof {
        crate::isolated::lemma_first_at(clients@, session.active_address@, ai);
    }
    if !str_eq(active.workspace.name.as_str(), session.active_workspace.as_str()) || active.monitor
        != out.id {
        return Ok(false);
    }
    let mut t: usize = 0;
    while t < session.windows.len()
        invariant
            t <= session.windows@.len(),
            crate::isolated::first_named(monitors@, session.output@) == Some(oi),
            monitors@[oi] == *out,
            out.active_workspace.name@ == session.active_workspace@,
            out.special_workspace@.len() == 0,
            !exists|k: int|
                0 <= k < monitors@.len() && monitors@[k].special_workspace@ == session.parking_workspace@,
            crate::isolated::first_at(clients@, session.active_address@) == Some(ai),
            clients@[ai] == *active,
            active.workspace.name@ == session.active_workspace@,
            active.monitor == out.id,
            forall|j: int|
                0 <= j < t && session.windows@[j].address@ != session.active_address@
                    ==> #[trigger] parked_or_gone(
                    clients@,
                    session.windows@[j].address@,
                    session.parking_workspace@,
                ),
        decreases session.windows@.len() - t,
    {
        let address = session.windows[t].address.as_str();
        if !str_eq(address, session.active_address.as_str()) && !is_parked_or_gone(
            clients,
            address,
            session.parking_workspace.as_str(),
        ) {
            assert(!parked_or_gone(
                clients@,
                session.windows@[t as int].address@,
                session.parking_workspace@,
            ));
            return Ok(false);
        }
        t += 1;
    }
    Ok(true)
}

/// The first monitor not called `name`.
pub open spec fn first_other(monitors: Seq<Monitor>, name: Seq<char>) -> Option<int> {
    if exists|i: int| 0 <= i < monitors.len() && monitors[i].name@ != name {
        Some(
            choose|i: int|
                0 <= i < monitors.len() && monitors[i].name@ != name && forall|j: int|
                    0 <= j < i ==> monitors[j].name@ == name,
        )
    } else {
        None
    }
}

fn find_other<'c>(monitors: &'c [Monitor], name: &str) -> (r: Option<&'c Monitor>)
    ensures
        match r {
            Some(m) => first_other(monitors@, name@) matches Some(i) && monitors@[i] == *m,
            None => first_other(monitors@, name@) is None,
        },
{
    let mut i: usize = 0;
    while i < monitors.len()
        invariant
            i <= monitors@.len(),
            forall|j: int| 0 <= j < i ==> monitors@[j].name@ == name@,
        decreases monitors@.len() - i,
    {
        if !str_eq(monitors[i].name.as_str(), name) {
            proof {
                let k = choose|k: int|
                    0 <= k < monitors@.len() && monitors@[k].name@ != name@ && forall|j: int|
                        0 <= j < k ==> monitors@[j].name@ == name@;
                assert(monitors@[i as int].name@ != name@);
                if k < i {
                    assert(monitors@[k].name@ == name@);
                }
                if (i as int) < k {
                    assert(monitors@[i as int].name@ == name@);
                }
            }
            return Some(&monitors[i]);
        }
        i += 1;
    }
    None
}

/// What a freshly created output needs so the session workspace is the one it
/// shows: nothing when it already does; else the workspace it came with goes
/// to the first other monitor, as the selector and the monitor to move it to.
pub open spec fn stray_spec(monitors: Seq<Monitor>, output: Seq<char>, workspace: Seq<char>, r: Result<
    Option<(Seq<char>, Seq<char>)>,
    Error,
>) -> bool {
    match crate::isolated::first_named(monitors, output) {
        None => r matches Err(Error::Tool { command, message }) && command@ == "hyprctl monitors"@
            && message@ == "output "@ + output + " missing right after creation"@,
        Some(o) => if monitors[o].active_workspace.name@ == workspace {
            r == Ok::<Option<(Seq<char>, Seq<char>)>, Error>(None)
        } else {
            match first_other(monitors, output) {
                None => r matches Err(Error::Tool { command, message }) && command@
                    == "hyprctl monitors"@ && message@
                    == "no other monitor to evacuate the stray workspace to"@,
                Some(k) => r == Ok::<Option<(Seq<char>, Seq<char>)>, Error>(
                    Some((selector_spec(monitors[o].active_workspace.name@), monitors[k].name@)),
                ),
            }
        },
    }
}

pub open spec fn pair_views(r: Result<Option<(String, String)>, Error>) -> Result<Option<(Seq<char>, Seq<char>)>, Error> {
    match r {
        Ok(Some((a, b))) => Ok(Some((a@, b@))),
        Ok(None) => Ok(None),
        Err(e) => Err(e),
    }
}

pub fn stray_move(monitors: &[Monitor], output: &str, workspace: &str) -> (r: Result<Option<(String, String)>, Error>)
    ensures
        stray_spec(monitors@, output@, workspace@, pair_views(r)),
{
    let ours = match find_monitor(monitors, output) {
        None => {
            assert(crate::isolated::first_named(monitors@, output@) is None);
            return Err(
                Error::Tool {
                    command: own("hyprctl monitors"),
                    message: cat3("output ", output, " missing right after creation"),
                },
            );
        },
        Some(m) => m,
    };
    proof {
        let i = choose|i: int|
            0 <= i < monitors@.len() && monitors@[i] == *ours && ours.name@ == output@ && forall|j: int|
                0 <= j < i ==> monitors@[j].name@ != output@;
        crate::isolated::lemma_first_named(monitors@, output@, i);
    }
    if str_eq(ours.active_workspace.name.as_str(), workspace) {
        return Ok(None);
    }
    match find_other(monitors, output) {
        None => Err(
            Error::Tool {
                command: own("hyprctl monitors"),
                message: own("no other monitor to evacuate the stray workspace to"),
            },
        ),
        Some(refuge) => Ok(Some((workspace_selector(ours.active_workspace.name.as_str()), refuge.name.clone()))),
    }
}

/// Moves the workspace a new output came with off it, so the session
/// workspace is what the output shows: the monitors are listed with the
/// pool's first runner, and only a stray workspace is moved, with the
/// second. No other runner is taken.
pub fn evacuate_stray_workspace<R: FnOnce(Vec<String>) -> Result<ProcessOutput, String>, P: Fn(String) -> Result<
    Vec<Monitor>,
    String,
>>(runners: &mut Vec<R>, parse: &P, output: &str, workspace: &str) -> (r: Result<(), Error>)
    requires
        old(runners)@.len() >= 2,
        runnable(old(runners)@),
        forall|s: String| call_requires(*parse, (s,)),
    ensures
        exists|q: Result<Vec<Monitor>, Error>|
            #[trigger] queried(nth_runner(old(runners)@, 0), *parse, Ctl::Host, seq!["monitors"@], q) && match q {
                Err(e) => r == Err::<(), Error>(e) && spent(old(runners)@, final(runners)@, 1),
                Ok(list) => exists|m: Result<Option<(Seq<char>, Seq<char>)>, Error>|
                    stray_spec(list@, output@, workspace@, m) && match m {
                        Err(e) => r == Err::<(), Error>(e) && spent(old(runners)@, final(runners)@, 1),
                        Ok(None) => r is Ok && spent(old(runners)@, final(runners)@, 1),
                        Ok(Some((selector, refuge))) => spent(old(runners)@, final(runners)@, 2) && dispatched_on(
                            nth_runner(old(runners)@, 1),
                            Ctl::Host,
                            seq!["moveworkspacetomonitor"@, selector, refuge],
                            r,
                        ),
                    },
            },
{
    let ghost pool = runners@;
    let list_run = take_runner(runners);
    assert forall|v: Vec<String>| call_requires(list_run, (v,)) by {
        assert(call_requires(pool[pool.len() - 1], (v,)));
    }
    let q = monitors(list_run, parse);
    let ghost gq = q;
    assert(queried(nth_runner(pool, 0), *parse, Ctl::Host, seq!["monitors"@], gq));
    let list = match q {
        Err(e) => return Err(e),
        Ok(l) => l,
    };
    let m = stray_move(list.as_slice(), output, workspace);
    let ghost gm = pair_views(m);
    assert(stray_spec(list@, output@, workspace@, gm));
    match m {
        Err(e) => Err(e),
        Ok(None) => Ok(()),
        Ok(Some((selector, refuge))) => {
            let move_run = take_runner(runners);
            assert forall|v: Vec<String>| call_requires(move_run, (v,)) by {
                assert(call_requires(pool[pool.len() - 2], (v,)));
            }
            let r = move_workspace(move_run, selector.as_str(), refuge.as_str());
            assert(gm == Ok::<Option<(Seq<char>, Seq<char>)>, Error>(Some((selector@, refuge@))));
            assert(runners@ =~= pool.subrange(0, pool.len() - 2));
            r
        },
    }
}

fn move_workspace<R: FnOnce(Vec<String>) -> Result<ProcessOutput, String>>(run: R, selector: &str, monitor: &str) -> (r:
    Result<(), Error>)
    requires
        forall|v: Vec<String>| call_requires(run, (v,)),
    ensures
        dispatched_on(run, Ctl::Host, seq!["moveworkspacetomonitor"@, selector@, monitor@], r),
{
    let words: [&str; 3] = ["moveworkspacetomonitor", selector, monitor];
    let r = crate::hypr::dispatch(run, &words);
    assert(crate::hypr::views(words@) =~= seq!["moveworkspacetomonitor"@, selector@, monitor@]);
    r
}

/// How many tracked windows have this address.
pub open spec fn count_tracked(windows: Seq<TrackedWindow>, address: Seq<char>) -> nat
    decreases windows.len(),
{
    if windows.len() == 0 {
        0
    } else {
        count_tracked(windows.drop_last(), address) + if windows.last().address@ == address {
            1nat
        } else {
            0nat
        }
    }
}

/// A shared state is only sound when its primary window is tracked exactly
/// once.
pub fn check_primary(shared: &Shared, path: &str) -> (r: Result<(), Error>)
    ensures
        count_tracked(shared.windows@, shared.primary_address@) == 1 ==> r is Ok,
        count_tracked(shared.windows@, shared.primary_address@) != 1 ==> (r matches Err(
            Error::CorruptSession { path: p, message },
        ) && p@ == path@ && message@ == "primary_address must identify exactly one tracked window"@),
{
    let mut count: usize = 0;
    let mut i: usize = 0;
    while i < shared.windows.len()
        invariant
            i <= shared.windows@.len(),
            count == count_tracked(shared.windows@.subrange(0, i as int), shared.primary_address@),
            count <= i,
        decreases shared.windows@.len() - i,
    {
        assert(shared.windows@.subrange(0, i + 1).drop_last() =~= shared.windows@.subrange(0, i as int));
        if str_eq(shared.windows[i].address.as_str(), shared.primary_address.as_str()) {
            count += 1;
        }
        i += 1;
    }
    assert(shared.windows@.subrange(0, shared.windows@.len() as int) =~= shared.windows@);
    if count == 1 {
        Ok(())
    } else {
        Err(
            Error::CorruptSession {
                path: own(path),
                message: own("primary_address must identify exactly one tracked window"),
            },
        )
    }
}

/// The refusal of a state file written in another schema version.
pub fn unsupported_version(path: &str, found: Option<u32>) -> (e: Error)
    ensures
        e matches Error::UnsupportedSessionVersion { path: p, found: f } && p@ == path@ && f == found,
{
    Error::UnsupportedSessionVersion { path: own(path), found }
}

/// A state file is read only in this build's schema version; any other,
/// or none, is refused.
pub fn require_current_version(path: &str, found: Option<u32>) -> (r: Result<(), Error>)
    ensures
        r is Ok <==> found == Some(SCHEMA_VERSION),
        r matches Err(e) ==> (e matches Error::UnsupportedSessionVersion { path: p, found: f } && p@ == path@ && f
            == found),
{
    if found != Some(SCHEMA_VERSION) {
        return Err(unsupported_version(path, found));
    }
    Ok(())
}

/// The two fields every state file is read by first.
#[derive(Debug, Clone, Copy)]
pub struct SessionHeader {
    pub schema_version: Option<u32>,
    pub mode: Option<Mode>,
}

/// What another session directory holds: no state file, or its header and
/// path.
pub open spec fn header_is_shared(path: Seq<char>, header: SessionHeader, r: Result<bool, Error>) -> bool {
    if header.schema_version != Some(SCHEMA_VERSION) {
        r matches Err(Error::UnsupportedSessionVersion { path: p, found }) && p@ == path && found
            == header.schema_version
    } else {
        match header.mode {
            Some(Mode::Shared) => r == Ok::<bool, Error>(true),
            Some(Mode::Isolated) => r == Ok::<bool, Error>(false),
            None => r matches Err(Error::CorruptSession { path: p, message }) && p@ == path
                && message@ == "missing mode"@,
        }
    }
}

/// Whether a session's header says it is a shared one; a header of another
/// version, or without a mode, is refused.
pub fn shared_header(path: &str, header: SessionHeader) -> (r: Result<bool, Error>)
    ensures
        header_is_shared(path@, header, r),
{
    if header.schema_version != Some(SCHEMA_VERSION) {
        return Err(unsupported_version(path, header.schema_version));
    }
    match header.mode {
        Some(Mode::Shared) => Ok(true),
        Some(Mode::Isolated) => Ok(false),
        None => Err(Error::CorruptSession { path: own(path), message: own("missing mode") }),
    }
}

/// What reading another session's state gave: its path and header, or
/// nothing when it has no state file.
pub type HeaderRead = Result<Option<(String, SessionHeader)>, Error>;

/// The sessions looked at in order, skipping `exclude`: `reads[k]` is what
/// reading the `k`-th one gave, and the search stops at the first shared one
/// or the first failure.
pub open spec fn shared_search(names: Seq<Seq<char>>, exclude: Seq<char>, reads: Seq<HeaderRead>, r: Result<
    Option<String>,
    Error,
>) -> bool
    decreases names.len(),
{
    if names.len() == 0 {
        r == Ok::<Option<String>, Error>(None) && reads.len() == 0
    } else if names[0] == exclude {
        shared_search(names.drop_first(), exclude, reads, r)
    } else if reads.len() == 0 {
        false
    } else {
        match reads[0] {
            Err(e) => r == Err::<Option<String>, Error>(e) && reads.len() == 1,
            Ok(None) => shared_search(names.drop_first(), exclude, reads.drop_first(), r),
            Ok(Some((path, header))) => exists|h: Result<bool, Error>|
                header_is_shared(path@, header, h) && match h {
                    Err(e) => r == Err::<Option<String>, Error>(e) && reads.len() == 1,
                    Ok(true) => (r matches Ok(Some(n)) && n@ == names[0]) && reads.len() == 1,
                    Ok(false) => shared_search(names.drop_first(), exclude, reads.drop_first(), r),
                },
        }
    }
}

/// The sessions read, each by its name.
pub open spec fn headers_read<F: Fn(String) -> HeaderRead>(read: F, asked: Seq<Seq<char>>, reads: Seq<HeaderRead>) -> bool {
    reads.len() == asked.len() && forall|k: int|
        0 <= k < asked.len() ==> #[trigger] header_read_of(read, asked[k], reads[k])
}

pub open spec fn header_read_of<F: Fn(String) -> HeaderRead>(read: F, name: Seq<char>, got: HeaderRead) -> bool {
    exists|n: String| n@ == name && call_ensures(read, (n,), got)
}

/// The names of `names` that are not `exclude`, in order.
pub open spec fn others(names: Seq<Seq<char>>, exclude: Seq<char>) -> Seq<Seq<char>>
    decreases names.len(),
{
    if names.len() == 0 {
        Seq::empty()
    } else if names[0] == exclude {
        others(names.drop_first(), exclude)
    } else {
        seq![names[0]] + others(names.drop_first(), exclude)
    }
}

/// The other shared session, if any: the shared output is a singleton, so a
/// second shared session is refused whatever its name. `read` reads a
/// session's state header by the session's name.
pub fn find_shared_session<F: Fn(String) -> HeaderRead>(names: &Vec<String>, exclude: &str, read: &F) -> (r: Result<
    Option<String>,
    Error,
>)
    requires
        forall|n: String| call_requires(*read, (n,)),
    ensures
        exists|reads: Seq<HeaderRead>|
            headers_read(*read, others(string_views(names@), exclude@).subrange(0, reads.len() as int), reads)
                && reads.len() <= others(string_views(names@), exclude@).len() && shared_search(
                string_views(names@),
                exclude@,
                reads,
                r,
            ),
{
    let r = find_from(names, 0, exclude, read);
    assert(string_views(names@).subrange(0, names@.len() as int) =~= string_views(names@));
    r
}

proof fn lemma_others_skip(names: Seq<Seq<char>>, exclude: Seq<char>)
    requires
        names.len() > 0,
    ensures
        names[0] == exclude ==> others(names, exclude) == others(names.drop_first(), exclude),
        names[0] != exclude ==> others(names, exclude) == seq![names[0]] + others(names.drop_first(), exclude),
{
}

fn find_from<F: Fn(String) -> HeaderRead>(names: &Vec<String>, from: usize, exclude: &str, read: &F) -> (r: Result<
    Option<String>,
    Error,
>)
    requires
        from <= names@.len(),
        forall|n: String| call_requires(*read, (n,)),
    ensures
        exists|reads: Seq<HeaderRead>|
            headers_read(
                *read,
                others(string_views(names@).subrange(from as int, names@.len() as int), exclude@).subrange(
                    0,
                    reads.len() as int,
                ),
                reads,
            ) && reads.len() <= others(
                string_views(names@).subrange(from as int, names@.len() as int),
                exclude@,
            ).len() && shared_search(
                string_views(names@).subrange(from as int, names@.len() as int),
                exclude@,
                reads,
                r,
            ),
    decreases names@.len() - from,
{
    let ghost rest = string_views(names@).subrange(from as int, names@.len() as int);
    if from == names.len() {
        assert(rest.len() == 0);
        let r = Ok(None);
        let ghost none: Seq<HeaderRead> = Seq::empty();
        assert(headers_read(*read, others(rest, exclude@).subrange(0, 0), none));
        assert(shared_search(rest, exclude@, none, r));
        return r;
    }
    let ghost tail = string_views(names@).subrange(from + 1, names@.len() as int);
    assert(rest.drop_first() =~= tail);
    assert(rest[0] == names@[from as int]@);
    proof {
        lemma_others_skip(rest, exclude@);
    }
    if str_eq(names[from].as_str(), exclude) {
        let r = find_from(names, from + 1, exclude, read);
        proof {
            let reads = choose|reads: Seq<HeaderRead>|
                headers_read(*read, others(tail, exclude@).subrange(0, reads.len() as int), reads)
                    && reads.len() <= others(tail, exclude@).len() && shared_search(
                    tail,
                    exclude@,
                    reads,
                    r,
                );
            assert(others(rest, exclude@) == others(tail, exclude@));
            assert(shared_search(rest, exclude@, reads, r));
        }
        return r;
    }
    let n = own(names[from].as_str());
    let ghost gn = n;
    let got = read(n);
    let ghost gg = got;
    let ghost first: Seq<HeaderRead> = seq![gg];
    assert(header_read_of(*read, rest[0], gg));
    match got {
        Err(e) => {
            let r = Err(e);
            assert(headers_read(*read, others(rest, exclude@).subrange(0, 1), first));
            assert(shared_search(rest, exclude@, first, r));
            r
        },
        Ok(None) => {
            let r = find_from(names, from + 1, exclude, read);
            proof {
                let reads = choose|reads: Seq<HeaderRead>|
                    headers_read(*read, others(tail, exclude@).subrange(0, reads.len() as int), reads)
                        && reads.len() <= others(tail, exclude@).len() && shared_search(
                        tail,
                        exclude@,
                        reads,
                        r,
                    );
                let all = first + reads;
                assert(all.drop_first() =~= reads);
                assert(others(rest, exclude@).subrange(0, all.len() as int) =~= seq![rest[0]] + others(
                    tail,
                    exclude@,
                ).subrange(0, reads.len() as int));
                assert forall|k: int| 0 <= k < all.len() implies #[trigger] header_read_of(
                    *read,
                    others(rest, exclude@).subrange(0, all.len() as int)[k],
                    all[k],
                ) by {
                    if k > 0 {
                        assert(all[k] == reads[k - 1]);
                        assert(others(rest, exclude@).subrange(0, all.len() as int)[k] == others(
                            tail,
                            exclude@,
                        ).subrange(0, reads.len() as int)[k - 1]);
                    }
                }
                assert(shared_search(rest, exclude@, all, r));
            }
            r
        },
        Ok(Some((path, header))) => {
            let h = shared_header(path.as_str(), header);
            let ghost gh = h;
            match h {
                Err(e) => {
                    let r = Err(e);
                    assert(headers_read(*read, others(rest, exclude@).subrange(0, 1), first));
                    assert(header_is_shared(path@, header, gh));
                    assert(shared_search(rest, exclude@, first, r));
                    r
                },
                Ok(true) => {
                    let r = Ok(Some(own(names[from].as_str())));
                    assert(headers_read(*read, others(rest, exclude@).subrange(0, 1), first));
                    assert(header_is_shared(path@, header, gh));
                    assert(shared_search(rest, exclude@, first, r));
                    r
                },
                Ok(false) => {
                    let r = find_from(names, from + 1, exclude, read);
                    proof {
                        let reads = choose|reads: Seq<HeaderRead>|
                            headers_read(*read, others(tail, exclude@).subrange(0, reads.len() as int), reads)
                                && reads.len() <= others(tail, exclude@).len() && shared_search(
                                tail,
                                exclude@,
                                reads,
                                r,
                            );
                        let all = first + reads;
                        assert(all.drop_first() =~= reads);
                        assert(others(rest, exclude@).subrange(0, all.len() as int) =~= seq![rest[0]]
                            + others(tail, exclude@).subrange(0, reads.len() as int));
                        assert forall|k: int| 0 <= k < all.len() implies #[trigger] header_read_of(
                            *read,
                            others(rest, exclude@).subrange(0, all.len() as int)[k],
                            all[k],
                        ) by {
                            if k > 0 {
                                assert(all[k] == reads[k - 1]);
                                assert(others(rest, exclude@).subrange(0, all.len() as int)[k] == others(
                                    tail,
                                    exclude@,
                                ).subrange(0, reads.len() as int)[k - 1]);
                            }
                        }
                        assert(header_is_shared(path@, header, gh));
                        assert(shared_search(rest, exclude@, all, r));
                    }
                    r
                },
            }
        },
    }
}

/// A tracked window as a session records it when it adopts `client`.
pub open spec fn adopted(t: TrackedWindow, client: Client, teardown: Disposition) -> bool {
    &&& t.address@ == client.address@
    &&& t.title_at_adoption@ == client.title@
    &&& t.origin_workspace@ == client.workspace.name@
    &&& t.origin_at == client.at
    &&& t.origin_size == client.size
    &&& t.origin_floating == client.floating
    &&& t.teardown == teardown
}

/// What a session remembers of a window it adopts: where it was, so that
/// teardown can put it back, and what teardown does to it.
pub fn adopt(client: &Client, teardown: Disposition) -> (r: TrackedWindow)
    ensures
        adopted(r, *client, teardown),
{
    TrackedWindow {
        address: client.address.clone(),
        title_at_adoption: client.title.clone(),
        origin_workspace: client.workspace.name.clone(),
        origin_at: client.at,
        origin_size: client.size,
        origin_floating: client.floating,
        teardown,
    }
}

/// A shared session adopts a window it can name, by title, by class or both.
pub fn require_match_criteria(match_title: Option<&str>, match_class: Option<&str>) -> (r: Result<(), Error>)
    ensures
        r is Err <==> (match_title is None && match_class is None),
        r matches Err(e) ==> (e matches Error::Invalid { what, value, hint } && what@ == "match criteria"@
            && value@ == "(none)"@ && hint@ == "pass --match-title and/or --match-class"@),
{
    if match_title.is_none() && match_class.is_none() {
        let value = String::from_str("(none)");
        let hint = String::from_str("pass --match-title and/or --match-class");
        proof {
            reveal_strlit("(none)");
            reveal_strlit("pass --match-title and/or --match-class");
        }
        return Err(invalid("match criteria", value, hint));
    }
    Ok(())
}

/// The teardown a window gets by default: one the session launched is closed,
/// one it found is put back.
pub open spec fn default_teardown(spawned_pid: Option<u32>) -> Disposition {
    if spawned_pid is Some {
        Disposition::Close
    } else {
        Disposition::Restore
    }
}

/// The state a shared session is saved with before the compositor is
/// touched: the window it adopted, on the output and workspace the session
/// owns.
pub fn shared_session(
    name: &str,
    window: &Client,
    spawned_pid: Option<u32>,
    output_created: bool,
    size: (u32, u32),
    initial_user_focus: Option<String>,
) -> (r: Session)
    ensures
        r.schema_version == SCHEMA_VERSION,
        r.name@ == name@,
        r.state matches ModeState::Shared(s) && {
            &&& s.output@ == OUTPUT_NAME@
            &&& s.output_created == output_created
            &&& s.active_workspace@ == WORKSPACE_NAME@
            &&& s.parking_workspace@ == PARKING_WORKSPACE_NAME@
            &&& s.size[0] == size.0 && s.size[1] == size.1
            &&& s.spawned_pid == spawned_pid
            &&& s.initial_user_focus == initial_user_focus
            &&& s.primary_address@ == window.address@
            &&& s.active_address@ == window.address@
            &&& s.windows@.len() == 1
            &&& adopted(s.windows@[0], *window, default_teardown(spawned_pid))
        },
{
    let teardown = if spawned_pid.is_some() {
        Disposition::Close
    } else {
        Disposition::Restore
    };
    let mut windows: Vec<TrackedWindow> = Vec::new();
    windows.push(adopt(window, teardown));
    Session {
        schema_version: SCHEMA_VERSION,
        name: own(name),
        state: ModeState::Shared(
            Shared {
                output: own(OUTPUT_NAME),
                output_created,
                active_workspace: own(WORKSPACE_NAME),
                parking_workspace: own(PARKING_WORKSPACE_NAME),
                size: [size.0, size.1],
                spawned_pid,
                initial_user_focus,
                primary_address: window.address.clone(),
                active_address: window.address.clone(),
                windows,
            },
        ),
    }
}

/// What a successful shared start reports.
pub open spec fn started_text(name: Seq<char>, window: Client, width: u32, height: u32) -> Seq<char> {
    "session `"@ + name + "` ready — window "@ + window.address@ + " (`"@ + window.title@
        + "`) parked on output "@ + OUTPUT_NAME@ + " ("@ + dec(width as nat) + "x"@ + dec(height as nat)
        + "), workspace "@ + WORKSPACE_NAME@
}

pub fn started_message(name: &str, window: &Client, width: u32, height: u32) -> (r: String)
    ensures
        r@ == started_text(name@, *window, width, height),
{
    let mut r = cat3("session `", name, "` ready — window ");
    r.append(window.address.as_str());
    r.append(" (`");
    r.append(window.title.as_str());
    r.append("`) parked on output ");
    r.append(OUTPUT_NAME);
    r.append(" (");
    r.append(fmt_u64(width as u64).as_str());
    r.append("x");
    r.append(fmt_u64(height as u64).as_str());
    r.append("), workspace ");
    r.append(WORKSPACE_NAME);
    r
}

/// Why a start that found no window gives up: nothing to launch, or the
/// launched app never showed a window within the timeout.
pub open spec fn missing_window_text(label: Seq<char>, app: Option<Seq<char>>) -> Seq<char> {
    match app {
        None => label + " — pass --app to launch it"@,
        Some(command) => label + " after launching `"@ + command + "` ("@ + dec(
            (WINDOW_APPEAR_TIMEOUT_MS / 1000) as nat,
        ) + "s timeout) — process killed"@,
    }
}

pub fn missing_window(criteria: &Criteria, app: Option<&str>) -> (e: Error)
    ensures
        e matches Error::WindowNotFound(t) && t@ == missing_window_text(
            criteria_label_spec(*criteria),
            match app {
                Some(a) => Some(a@),
                None => None,
            },
        ),
{
    let mut t = criteria_label(criteria);
    match app {
        None => t.append(" — pass --app to launch it"),
        Some(command) => {
            t.append(" after launching `");
            t.append(command);
            t.append("` (");
            t.append(fmt_u64(WINDOW_APPEAR_TIMEOUT_MS / 1000).as_str());
            t.append("s timeout) — process killed");
        },
    }
    Error::WindowNotFound(t)
}

/// Whether any selector of `target` is given.
pub open spec fn selects(criteria: Criteria, untracked: bool) -> bool {
    criteria.address is Some || criteria.title is Some || criteria.class is Some || criteria.pid is Some
        || untracked
}

/// `target` needs at least one selector.
pub fn require_target_selector(criteria: &Criteria, untracked: bool) -> (r: Result<(), Error>)
    ensures
        r is Ok <==> selects(*criteria, untracked),
        r matches Err(e) ==> (e matches Error::Invalid { what, value, hint } && what@ == "target selector"@
            && value@ == "(none)"@ && hint@
            == "pass --address, --match-title, --match-class, --pid and/or --untracked"@),
{
    if criteria.address.is_none() && criteria.title.is_none() && criteria.class.is_none()
        && criteria.pid.is_none() && !untracked {
        let value = String::from_str("(none)");
        let hint = String::from_str("pass --address, --match-title, --match-class, --pid and/or --untracked");
        proof {
            reveal_strlit("(none)");
            reveal_strlit("pass --address, --match-title, --match-class, --pid and/or --untracked");
        }
        return Err(invalid("target selector", value, hint));
    }
    Ok(())
}

/// What `target` does when no window matches yet: without `--wait` it gives
/// up at once; with it, it polls until the wait runs out, then times out.
/// `Ok` is how long to sleep before the next look.
pub fn target_retry(criteria: &Criteria, untracked: bool, wait_ms: Option<u64>, elapsed_ms: u64) -> (r: Result<
    u64,
    Error,
>)
    ensures
        match wait_ms {
            None => r matches Err(Error::WindowNotFound(t)) && t@ == target_label_spec(*criteria, untracked),
            Some(timeout) => if elapsed_ms >= timeout {
                r matches Err(Error::Timeout { what, after_ms }) && what@ == "a window matching "@
                    + target_label_spec(*criteria, untracked) && after_ms == timeout
            } else {
                r matches Ok(sleep) && sleep == (if POLL_INTERVAL_MS < timeout - elapsed_ms {
                    POLL_INTERVAL_MS as int
                } else {
                    timeout - elapsed_ms
                })
            },
        },
{
    match wait_ms {
        None => Err(Error::WindowNotFound(target_criteria_label(criteria, untracked))),
        Some(timeout) => {
            if elapsed_ms >= timeout {
                let label = target_criteria_label(criteria, untracked);
                Err(Error::Timeout { what: cat("a window matching ", label.as_str()), after_ms: timeout })
            } else {
                let left = timeout - elapsed_ms;
                Ok(
                    if POLL_INTERVAL_MS < left {
                        POLL_INTERVAL_MS
                    } else {
                        left
                    },
                )
            }
        },
    }
}

/// The session after `target` picked `client`: adopted first when it is new,
/// then made the active window. Nothing else changes.
pub fn retarget(shared: &mut Shared, client: &Client, mode: TargetMode, disposition: Disposition)
    ensures
        final(shared).active_address@ == client.address@,
        mode == TargetMode::Switch ==> final(shared).windows@ == old(shared).windows@,
        mode == TargetMode::Adopt ==> final(shared).windows@.len() == old(shared).windows@.len() + 1
            && final(shared).windows@.drop_last() == old(shared).windows@ && adopted(
            final(shared).windows@.last(),
            *client,
            disposition,
        ),
        final(shared).output == old(shared).output,
        final(shared).output_created == old(shared).output_created,
        final(shared).active_workspace == old(shared).active_workspace,
        final(shared).parking_workspace == old(shared).parking_workspace,
        final(shared).size == old(shared).size,
        final(shared).spawned_pid == old(shared).spawned_pid,
        final(shared).initial_user_focus == old(shared).initial_user_focus,
        final(shared).primary_address == old(shared).primary_address,
{
    if mode == TargetMode::Adopt {
        shared.windows.push(adopt(client, disposition));
        assert(shared.windows@.drop_last() =~= old(shared).windows@);
    }
    shared.active_address = client.address.clone();
}

/// What `target` reports once the window is active.
pub open spec fn target_text(mode: TargetMode, client: Client) -> Seq<char> {
    "target active — "@ + (match mode {
        TargetMode::Switch => "switched to"@,
        TargetMode::Adopt => "adopted"@,
    }) + " window "@ + client.address@ + " (`"@ + client.title@ + "`)"@
}

pub fn target_message(mode: TargetMode, client: &Client) -> (r: String)
    ensures
        r@ == target_text(mode, *client),
{
    let mut r = String::from_str("target active — ");
    match mode {
        TargetMode::Switch => r.append("switched to"),
        TargetMode::Adopt => r.append("adopted"),
    }
    r.append(" window ");
    r.append(client.address.as_str());
    r.append(" (`");
    r.append(client.title.as_str());
    r.append("`)");
    proof {
        reveal_strlit("target active — ");
    }
    r
}

/// Whether a tracked window has to be sent back to the parking workspace
/// before the target is activated: it is not the target, and the host shows
/// it somewhere else than parked.
pub open spec fn strays(session: Shared, clients: Seq<Client>, t: TrackedWindow) -> bool {
    t.address@ != session.active_address@ && exists|i: int|
        0 <= i < clients.len() && clients[i].address@ == t.address@ && (forall|j: int|
            0 <= j < i ==> clients[j].address@ != t.address@) && clients[i].workspace.name@
            != session.parking_workspace@
}

/// The tracked windows to park, in tracking order.
pub open spec fn strays_spec(session: Shared, clients: Seq<Client>, windows: Seq<TrackedWindow>) -> Seq<Seq<char>>
    decreases windows.len(),
{
    if windows.len() == 0 {
        Seq::empty()
    } else {
        let rest = strays_spec(session, clients, windows.drop_last());
        if strays(session, clients, windows.last()) {
            rest.push(windows.last().address@)
        } else {
            rest
        }
    }
}

/// The tracked windows `target` parks before activating the new one.
pub fn stray_windows(session: &Shared, clients: &[Client]) -> (r: Vec<String>)
    ensures
        string_views(r@) == strays_spec(*session, clients@, session.windows@),
{
    let mut r: Vec<String> = Vec::new();
    let mut i: usize = 0;
    while i < session.windows.len()
        invariant
            i <= session.windows@.len(),
            string_views(r@) == strays_spec(*session, clients@, session.windows@.subrange(0, i as int)),
        decreases session.windows@.len() - i,
    {
        assert(session.windows@.subrange(0, i + 1).drop_last() =~= session.windows@.subrange(0, i as int));
        let t = &session.windows[i];
        let mut stray = false;
        if !str_eq(t.address.as_str(), session.active_address.as_str()) {
            match find_client(clients, t.address.as_str()) {
                Some(c) => {
                    stray = !str_eq(c.workspace.name.as_str(), session.parking_workspace.as_str());
                },
                None => {},
            }
        }
        if stray {
            let ghost before = r@;
            r.push(t.address.clone());
            proof {
                crate::hypr::lemma_string_views_push(before, session.windows@[i as int].address);
            }
        }
        i += 1;
    }
    assert(session.windows@.subrange(0, session.windows@.len() as int) =~= session.windows@);
    r
}

/// The dispatcher that sends a window back to the workspace it came from.
pub open spec fn restore_move_args(w: TrackedWindow) -> Seq<Seq<char>> {
    seq!["movetoworkspacesilent"@, selector_spec(w.origin_workspace@) + ",address:"@ + w.address@]
}

/// `exact X Y,address:A`.
pub open spec fn exact_at(x: i32, y: i32, address: Seq<char>) -> Seq<char> {
    "exact "@ + int_text(x as int) + " "@ + int_text(y as int) + ",address:"@ + address
}

pub open spec fn restore_pixel_args(w: TrackedWindow) -> Seq<Seq<char>> {
    seq!["movewindowpixel"@, exact_at(w.origin_at[0], w.origin_at[1], w.address@)]
}

pub open spec fn restore_resize_args(w: TrackedWindow) -> Seq<Seq<char>> {
    seq!["resizewindowpixel"@, exact_at(w.origin_size[0], w.origin_size[1], w.address@)]
}

/// What putting a window back gave: it moves to its workspace and, when it
/// was floating, to its old position and size, each step only after the one
/// before succeeded.
pub open spec fn restored<R: FnOnce(Vec<String>) -> Result<ProcessOutput, String>>(
    pool: Seq<R>,
    after: Seq<R>,
    w: TrackedWindow,
    r: Result<(), Error>,
) -> bool {
    exists|moved: Result<(), Error>|
        #[trigger] dispatched_on(nth_runner(pool, 0), Ctl::Host, restore_move_args(w), moved) && if moved is Err
            || !w.origin_floating {
            r == moved && spent(pool, after, 1)
        } else {
            exists|placed: Result<(), Error>|
                #[trigger] dispatched_on(nth_runner(pool, 1), Ctl::Host, restore_pixel_args(w), placed) && if placed is Err {
                    r == placed && spent(pool, after, 2)
                } else {
                    spent(pool, after, 3) && dispatched_on(nth_runner(pool, 2), Ctl::Host, restore_resize_args(w), r)
                }
        }
}

pub fn exact_text(x: i32, y: i32, address: &str) -> (r: String)
    ensures
        r@ == exact_at(x, y, address@),
{
    let mut r = String::from_str("exact ");
    r.append(fmt_i64(x as i64).as_str());
    r.append(" ");
    r.append(fmt_i64(y as i64).as_str());
    r.append(",address:");
    r.append(address);
    proof {
        reveal_strlit("exact ");
    }
    r
}

/// Puts a window back where the session found it. Geometry follows the
/// workspace change, because a move across monitors recomputes the relative
/// position of a floating window.
pub fn restore_window<R: FnOnce(Vec<String>) -> Result<ProcessOutput, String>>(
    runners: &mut Vec<R>,
    window: &TrackedWindow,
) -> (r: Result<(), Error>)
    requires
        old(runners)@.len() >= 3,
        runnable(old(runners)@),
    ensures
        restored(old(runners)@, final(runners)@, *window, r),
{
    let ghost pool = runners@;
    let mut target = workspace_selector(window.origin_workspace.as_str());
    target.append(",address:");
    target.append(window.address.as_str());
    let words: [&str; 2] = ["movetoworkspacesilent", target.as_str()];
    let move_run = take_runner(runners);
    assert forall|v: Vec<String>| call_requires(move_run, (v,)) by {
        assert(call_requires(pool[pool.len() - 1], (v,)));
    }
    let moved = crate::hypr::dispatch_on(move_run, Ctl::Host, &words);
    proof {
        reveal_strlit("movetoworkspacesilent");
        assert(crate::hypr::views(words@) =~= restore_move_args(*window));
        assert(dispatched_on(nth_runner(pool, 0), Ctl::Host, restore_move_args(*window), moved));
    }
    if moved.is_err() || !window.origin_floating {
        return moved;
    }
    let at = exact_text(window.origin_at[0], window.origin_at[1], window.address.as_str());
    let words: [&str; 2] = ["movewindowpixel", at.as_str()];
    let place_run = take_runner(runners);
    assert forall|v: Vec<String>| call_requires(place_run, (v,)) by {
        assert(call_requires(pool[pool.len() - 2], (v,)));
    }
    let placed = crate::hypr::dispatch_on(place_run, Ctl::Host, &words);
    proof {
        reveal_strlit("movewindowpixel");
        assert(crate::hypr::views(words@) =~= restore_pixel_args(*window));
        assert(dispatched_on(nth_runner(pool, 1), Ctl::Host, restore_pixel_args(*window), placed));
        assert(runners@ =~= pool.subrange(0, pool.len() - 2));
    }
    if placed.is_err() {
        return placed;
    }
    let size = exact_text(window.origin_size[0], window.origin_size[1], window.address.as_str());
    let words: [&str; 2] = ["resizewindowpixel", size.as_str()];
    let size_run = take_runner(runners);
    assert forall|v: Vec<String>| call_requires(size_run, (v,)) by {
        assert(call_requires(pool[pool.len() - 3], (v,)));
    }
    let r = crate::hypr::dispatch_on(size_run, Ctl::Host, &words);
    proof {
        reveal_strlit("resizewindowpixel");
        assert(crate::hypr::views(words@) =~= restore_resize_args(*window));
        assert(dispatched_on(nth_runner(pool, 2), Ctl::Host, restore_resize_args(*window), r));
        assert(runners@ =~= pool.subrange(0, pool.len() - 3));
    }
    r
}

/// What the teardown message says of one window once its action is done.
pub open spec fn action_note(w: TrackedWindow, action: WindowAction) -> Seq<char> {
    match action {
        WindowAction::Restore => "restored window "@ + w.address@ + " to workspace "@ + w.origin_workspace@,
        WindowAction::Close => "closed window "@ + w.address@,
        WindowAction::Kill(pid) => "killed spawned process group "@ + dec(pid as nat),
    }
}

pub fn teardown_note(window: &TrackedWindow, action: WindowAction) -> (r: String)
    ensures
        r@ == action_note(*window, action),
{
    match action {
        WindowAction::Restore => {
            let mut r = cat("restored window ", window.address.as_str());
            r.append(" to workspace ");
            r.append(window.origin_workspace.as_str());
            r
        },
        WindowAction::Close => cat("closed window ", window.address.as_str()),
        WindowAction::Kill(pid) => cat("killed spawned process group ", fmt_u64(pid as u64).as_str()),
    }
}

/// The note for a window that was gone before teardown reached it.
pub fn gone_note(address: &str) -> (r: String)
    ensures
        r@ == "window "@ + address@ + " already gone"@,
{
    cat3("window ", address, " already gone")
}

/// The closing words of a teardown: every note, in order.
pub fn teardown_done(notes: &Vec<String>) -> (r: String)
    ensures
        r@ == "teardown done — "@ + joined_by(string_views(notes@), ", "@),
{
    cat("teardown done — ", join_with(notes, ", ").as_str())
}

/// The note for an output teardown leaves alone because it was there first.
pub fn kept_output_note(output: &str) -> (r: String)
    ensures
        r@ == "output "@ + output@ + " pre-existed — left in place"@,
{
    cat3("output ", output, " pre-existed — left in place")
}

/// State written by the first, unnamed format: one window, no tracking list.
#[derive(Debug)]
pub struct LegacySession {
    pub window_address: String,
    pub output: String,
    pub output_created: bool,
    pub origin_workspace: Option<String>,
    pub spawned_pid: Option<u32>,
}

/// What teardown does with the one window of a legacy session.
#[derive(Debug, PartialEq, Eq)]
pub enum LegacyAction {
    Kill(u32),
    Close,
    /// Back to this workspace, `1` when none was recorded.
    Move(String),
}

/// The window of a legacy session is killed when `--kill` asks, closed when
/// `--close` asks or the session launched it, and otherwise moved back.
pub fn legacy_action(legacy: &LegacySession, kill: bool, close: bool) -> (r: Result<LegacyAction, Error>)
    ensures
        r is Err <==> !validate_flags_spec(legacy.spawned_pid, kill, close),
        r matches Ok(a) ==> match a {
            LegacyAction::Kill(pid) => kill && legacy.spawned_pid == Some(pid),
            LegacyAction::Close => !kill && (close || legacy.spawned_pid is Some),
            LegacyAction::Move(origin) => !kill && !close && legacy.spawned_pid is None && origin@ == (
            match legacy.origin_workspace {
                Some(w) => w@,
                None => "1"@,
            }),
        },
{
    match validate_teardown_flags(legacy.spawned_pid, kill, close) {
        Err(e) => return Err(e),
        Ok(()) => {},
    }
    if kill {
        match legacy.spawned_pid {
            Some(pid) => return Ok(LegacyAction::Kill(pid)),
            None => {},
        }
    }
    if close || legacy.spawned_pid.is_some() {
        return Ok(LegacyAction::Close);
    }
    let origin = match &legacy.origin_workspace {
        Some(w) => w.clone(),
        None => {
            let one = String::from_str("1");
            proof {
                reveal_strlit("1");
            }
            one
        },
    };
    Ok(LegacyAction::Move(origin))
}

} // verus!
