//! Agent desktops: a nested Hyprland whose console window lives on the active
//! workspace of a host headless output. What is decided here is decided from
//! the state and from what the compositors answer; the processes, sockets and
//! files are the caller's.
use vstd::prelude::*;

use crate::error::{Error, RestoreFailure, invalid};
use crate::hypr::{Client, Ctl, Devices, FocusedWorkspace, InstanceInfo, Keyboard, Monitor,
    ProcessOutput, clients, clients_on, monitors, monitors_on, next_runner, nth_runner, queried, runnable, spent,
    string_views};
use crate::path::{join, join_spec};
use crate::session::{self, Criteria, Disposition, Instance, Isolated, OUTPUT_NAME, Resolution,
    candidates, candidates_json, criteria_label_spec, joined_by, join_with, resolve};
use crate::text::{cat, cat3, chars, contains, contains_seq, dec, fmt_i64, fmt_u64, has_char,
    int_text, own, str_eq};

verus! {

/// Marks every process of an agent desktop with its session name.
pub const AGENT_SESSION_ENV: &'static str = "HYPRPILOT_AGENT_SESSION";
/// Marks every process of an agent desktop with the nonce of the start that
/// spawned it.
pub const AGENT_INSTANCE_ENV: &'static str = "HYPRPILOT_AGENT_INSTANCE";
/// The class of the nested compositor's console window.
pub const CONSOLE_CLASS: &'static str = "aquamarine";
pub const CONSOLE_TITLE_PREFIX: &'static str = "aquamarine - WAYLAND-";
pub const NESTED_BINARY: &'static str = "Hyprland";
pub const NESTED_CONFIG_FILE: &'static str = "hyprland.conf";
pub const NESTED_LOG_FILE: &'static str = "hyprland.log";
/// The nested log, kept in the session directory when the runtime directory
/// goes.
pub const INSTANCE_LOG_FILE: &'static str = "instance.log";
/// The agent desktop, as `window_frame` names it for a window inside the
/// instance.
pub const AGENT_DESKTOP: &'static str = "the agent desktop";
/// The user's session, as `window_frame` names it for the console window of a
/// shown agent desktop.
pub const HOST: &'static str = "the host";
/// How long a start waits for the nested compositor to register itself.
pub const INSTANCE_APPEAR_TIMEOUT_MS: u64 = 15000;
/// How long a start waits for its window to become capturable.
pub const READY_TIMEOUT_MS: u64 = 5000;
/// How long an app inside the desktop gets to close before `dispatch exit`.
pub const POLITE_CLOSE_TIMEOUT_MS: u64 = 1000;
/// How much of the nested log a failed start shows before it goes.
pub const NESTED_LOG_TAIL_LINES: usize = 20;

/// The XKB settings the nested compositor inherits from the host.
#[derive(Debug)]
pub struct Keymap {
    pub rules: String,
    pub model: String,
    pub layout: String,
    pub variant: String,
    pub options: String,
}

/// The keymap of the host's main keyboard, or the refusal to start without
/// one.
pub fn keymap_of(devices: &Devices) -> (r: Result<Keymap, Error>)
    ensures
        match r {
            Ok(k) => exists|i: int|
                0 <= i < devices.keyboards@.len() && devices.keyboards@[i].main && (forall|j: int|
                    0 <= j < i ==> !devices.keyboards@[j].main) && k.rules@
                    == devices.keyboards@[i].rules@ && k.model@ == devices.keyboards@[i].model@
                    && k.layout@ == devices.keyboards@[i].layout@ && k.variant@
                    == devices.keyboards@[i].variant@ && k.options@
                    == devices.keyboards@[i].options@,
            Err(e) => (forall|i: int| 0 <= i < devices.keyboards@.len() ==> !devices.keyboards@[i].main)
                && (e matches Error::Tool { command, message } && command@ == "hyprctl devices"@
                && message@ == "no main keyboard reported — cannot inherit the host keymap"@),
        },
{
    let mut i: usize = 0;
    while i < devices.keyboards.len()
        invariant
            i <= devices.keyboards@.len(),
            forall|j: int| 0 <= j < i ==> !devices.keyboards@[j].main,
        decreases devices.keyboards@.len() - i,
    {
        let k = &devices.keyboards[i];
        if k.main {
            return Ok(
                Keymap {
                    rules: own(k.rules.as_str()),
                    model: own(k.model.as_str()),
                    layout: own(k.layout.as_str()),
                    variant: own(k.variant.as_str()),
                    options: own(k.options.as_str()),
                },
            );
        }
        i += 1;
    }
    Err(
        Error::Tool {
            command: String::from_str("hyprctl devices"),
            message: String::from_str("no main keyboard reported — cannot inherit the host keymap"),
        },
    )
}

/// `hyprpilot-<session>`: the host output of an agent desktop.
pub open spec fn output_name_spec(session: Seq<char>) -> Seq<char> {
    OUTPUT_NAME@ + "-"@ + session
}

/// `agent-<session>`: the workspace of an agent desktop.
pub open spec fn workspace_name_spec(session: Seq<char>) -> Seq<char> {
    "agent-"@ + session
}

pub fn output_name(session: &str) -> (r: String)
    ensures
        r@ == output_name_spec(session@),
{
    cat3(OUTPUT_NAME, "-", session)
}

pub fn workspace_name(session: &str) -> (r: String)
    ensures
        r@ == workspace_name_spec(session@),
{
    cat("agent-", session)
}

/// Session-independent half of the generated nested config.
pub const LAYOUT_BLOCKS: &'static str = "general {
    gaps_in = 0
    gaps_out = 0
    border_size = 0
}

decoration {
    rounding = 0
    blur {
        enabled = false
    }
    shadow {
        enabled = false
    }
}

animations {
    enabled = false
}

misc {
    disable_hyprland_logo = true
    disable_splash_rendering = true
    force_default_wallpaper = 0
    background_color = rgb(1e1e2e)
    disable_autoreload = true
    # Every on-screen notice lands in `--full` captures, and all three of these
    # are host concerns: the watchdog banner (started without start-hyprland),
    # the XDG environment check and the guiutils check.
    disable_watchdog_warning = true
    disable_xdg_env_checks = true
    disable_hyprland_guiutils_check = true
}
";

pub const DEBUG_BLOCK: &'static str = "debug {
    # The nested log is the only diagnostic a failed start leaves behind, and
    # Hyprland disables it by default.
    disable_logs = false
}
";

/// The head of the nested config: who it is for, and the one monitor pinned
/// at the configured size and scale 1.
pub open spec fn config_header(session: Seq<char>, size: [u32; 2]) -> Seq<char> {
    "# hyprpilot agent desktop `"@ + session
        + "` — generated at session start, do not edit.\n# It renders into the host output "@
        + output_name_spec(session) + ".\n\nmonitor = , "@ + dec(size[0] as nat) + "x"@ + dec(
        size[1] as nat,
    ) + "@60, 0x0, 1\n"@
}

/// The input block: the host keymap, field by field.
pub open spec fn config_input(k: Keymap) -> Seq<char> {
    "input {\n    kb_rules = "@ + k.rules@ + "\n    kb_model = "@ + k.model@ + "\n    kb_layout = "@
        + k.layout@ + "\n    kb_variant = "@ + k.variant@ + "\n    kb_options = "@ + k.options@
        + "\n}\n"@
}

/// The whole nested config: header, layout, input and debug blocks, one empty
/// line between each two. No `exec-once` and no portal rule.
pub open spec fn nested_config_spec(session: Seq<char>, size: [u32; 2], keymap: Keymap) -> Seq<char> {
    config_header(session, size) + "\n"@ + LAYOUT_BLOCKS@ + "\n"@ + config_input(keymap) + "\n"@
        + DEBUG_BLOCK@
}

/// The config of the nested compositor: animations off, a uniform wallpaper,
/// no gaps or borders, the host keymap.
pub fn nested_config(session: &str, size: [u32; 2], keymap: &Keymap) -> (r: String)
    ensures
        r@ == nested_config_spec(session@, size, *keymap),
{
    let mut r = String::from_str("# hyprpilot agent desktop `");
    r.append(session);
    r.append("` — generated at session start, do not edit.\n# It renders into the host output ");
    r.append(output_name(session).as_str());
    r.append(".\n\nmonitor = , ");
    r.append(fmt_u64(size[0] as u64).as_str());
    r.append("x");
    r.append(fmt_u64(size[1] as u64).as_str());
    r.append("@60, 0x0, 1\n");
    r.append("\n");
    r.append(LAYOUT_BLOCKS);
    r.append("\n");
    r.append("input {\n    kb_rules = ");
    r.append(keymap.rules.as_str());
    r.append("\n    kb_model = ");
    r.append(keymap.model.as_str());
    r.append("\n    kb_layout = ");
    r.append(keymap.layout.as_str());
    r.append("\n    kb_variant = ");
    r.append(keymap.variant.as_str());
    r.append("\n    kb_options = ");
    r.append(keymap.options.as_str());
    r.append("\n}\n");
    r.append("\n");
    r.append(DEBUG_BLOCK);
    r
}

/// Identity of a process of an agent desktop: the session marker every
/// process of the desktop inherits, and the nonce of the start that spawned
/// it. The session marker alone is inheritable, so it is never enough.
#[derive(Debug, Clone, Copy, PartialEq, Eq)]
pub struct Marker<'a> {
    pub session: &'a str,
    pub instance: &'a str,
}

impl<'a> Marker<'a> {
    /// How the marker pair reads in a message.
    pub fn label(&self) -> (r: String)
        ensures
            r@ == AGENT_SESSION_ENV@ + "="@ + self.session@ + " and "@ + AGENT_INSTANCE_ENV@ + "="@
                + self.instance@,
    {
        let mut r = cat3(AGENT_SESSION_ENV, "=", self.session);
        r.append(" and ");
        r.append(AGENT_INSTANCE_ENV);
        r.append("=");
        r.append(self.instance);
        r
    }
}

/// The NUL-separated fields of a process environment, as `split` on the NUL
/// byte cuts them: an empty blob is one empty field.
pub open spec fn nul_fields(s: Seq<u8>) -> Seq<Seq<u8>>
    decreases s.len(),
{
    if s.len() == 0 {
        seq![Seq::<u8>::empty()]
    } else if s.last() == 0u8 {
        nul_fields(s.drop_last()).push(Seq::empty())
    } else {
        let f = nul_fields(s.drop_last());
        f.update(f.len() - 1, f.last().push(s.last()))
    }
}

proof fn lemma_nul_fields_nonempty(s: Seq<u8>)
    ensures
        nul_fields(s).len() >= 1,
    decreases s.len(),
{
    if s.len() > 0 {
        lemma_nul_fields_nonempty(s.drop_last());
    }
}

/// `KEY=VALUE`, as the environment holds it.
pub open spec fn env_entry(key: Seq<char>, value: Seq<char>) -> Seq<u8> {
    vstd::utf8::encode_utf8(key + "="@ + value)
}

/// Whether an environment carries both markers of this start.
pub open spec fn carries_markers(environ: Seq<u8>, marker: Marker) -> bool {
    nul_fields(environ).contains(env_entry(AGENT_SESSION_ENV@, marker.session@)) && nul_fields(
        environ,
    ).contains(env_entry(AGENT_INSTANCE_ENV@, marker.instance@))
}

fn field_is(environ: &[u8], start: usize, end: usize, entry: &[u8]) -> (r: bool)
    requires
        start <= end <= environ@.len(),
    ensures
        r == (environ@.subrange(start as int, end as int) == entry@),
{
    if end - start != entry.len() {
        return false;
    }
    let mut k: usize = 0;
    while k < entry.len()
        invariant
            start <= end <= environ@.len(),
            end - start == entry@.len(),
            k <= entry@.len(),
            forall|j: int| 0 <= j < k ==> environ@[start + j] == entry@[j],
        decreases entry@.len() - k,
    {
        if environ[start + k] != entry[k] {
            assert(environ@.subrange(start as int, end as int)[k as int] != entry@[k as int]);
            return false;
        }
        k += 1;
    }
    assert(environ@.subrange(start as int, end as int) =~= entry@);
    true
}

/// Whether one of the fields is `entry`.
fn has_field(environ: &[u8], entry: &[u8]) -> (r: bool)
    ensures
        r == nul_fields(environ@).contains(entry@),
{
    let mut start: usize = 0;
    let mut found = false;
    let mut i: usize = 0;
    while i < environ.len()
        invariant
            start <= i <= environ@.len(),
            nul_fields(environ@.subrange(0, i as int)).last() == environ@.subrange(start as int, i as int),
            found == nul_fields(environ@.subrange(0, i as int)).drop_last().contains(entry@),
        decreases environ@.len() - i,
    {
        let ghost pre = environ@.subrange(0, i as int);
        assert(environ@.subrange(0, i + 1).drop_last() =~= pre);
        proof {
            lemma_nul_fields_nonempty(pre);
        }
        if environ[i] == 0 {
            let here = field_is(environ, start, i, entry);
            proof {
                let f = nul_fields(pre);
                let g = nul_fields(environ@.subrange(0, i + 1));
                assert(g == f.push(Seq::<u8>::empty()));
                assert(g.drop_last() =~= f);
                assert(f =~= f.drop_last().push(f.last()));
                assert(f.contains(entry@) == (f.drop_last().contains(entry@) || f.last() == entry@)) by {
                    if f.last() == entry@ {
                        assert(f[f.len() - 1] == entry@);
                    }
                    if f.contains(entry@) {
                        let j = choose|j: int| 0 <= j < f.len() && f[j] == entry@;
                        if j < f.len() - 1 {
                            assert(f.drop_last()[j] == entry@);
                        }
                    }
                    if f.drop_last().contains(entry@) {
                        let j = choose|j: int| 0 <= j < f.drop_last().len() && f.drop_last()[j] == entry@;
                        assert(f[j] == entry@);
                    }
                }
                assert(environ@.subrange(i + 1, i + 1) =~= Seq::<u8>::empty());
            }
            found = found || here;
            start = i + 1;
        } else {
            proof {
                let f = nul_fields(pre);
                let g = nul_fields(environ@.subrange(0, i + 1));
                assert(g == f.update(f.len() - 1, f.last().push(environ@[i as int])));
                assert(g.drop_last() =~= f.drop_last());
                assert(environ@.subrange(start as int, i + 1) =~= environ@.subrange(start as int, i as int).push(
                    environ@[i as int],
                ));
            }
        }
        i += 1;
    }
    let last = field_is(environ, start, environ.len(), entry);
    proof {
        let f = nul_fields(environ@.subrange(0, environ@.len() as int));
        assert(environ@.subrange(0, environ@.len() as int) =~= environ@);
        lemma_nul_fields_nonempty(environ@);
        assert(f =~= f.drop_last().push(f.last()));
        assert(f.contains(entry@) == (f.drop_last().contains(entry@) || f.last() == entry@)) by {
            if f.last() == entry@ {
                assert(f[f.len() - 1] == entry@);
            }
            if f.contains(entry@) {
                let j = choose|j: int| 0 <= j < f.len() && f[j] == entry@;
                if j < f.len() - 1 {
                    assert(f.drop_last()[j] == entry@);
                }
            }
            if f.drop_last().contains(entry@) {
                let j = choose|j: int| 0 <= j < f.drop_last().len() && f.drop_last()[j] == entry@;
                assert(f[j] == entry@);
            }
        }
    }
    found || last
}

/// Whether the environment of a process, as `/proc/PID/environ` holds it,
/// carries both markers of this start: one is inheritable, the pair is an
/// identity.
pub fn environ_carries_marker(environ: &[u8], marker: &Marker) -> (r: bool)
    ensures
        r == carries_markers(environ@, *marker),
{
    let session = cat3(AGENT_SESSION_ENV, "=", marker.session);
    let instance = cat3(AGENT_INSTANCE_ENV, "=", marker.instance);
    let sb = session.as_str().as_bytes_vec();
    let ib = instance.as_str().as_bytes_vec();
    has_field(environ, sb.as_slice()) && has_field(environ, ib.as_slice())
}

/// The pids of `/proc` whose environment carries both markers, the calling
/// process excepted: `entries` are the names under `/proc`, each with its
/// environment when it could be read.
pub open spec fn selected_pids(entries: Seq<(String, Option<Vec<u8>>)>, own: u32, marker: Marker) -> Seq<u32>
    decreases entries.len(),
{
    if entries.len() == 0 {
        Seq::empty()
    } else {
        let rest = selected_pids(entries.drop_last(), own, marker);
        let e = entries.last();
        match crate::text::parse_u32_spec(e.0@) {
            Some(pid) => if pid != own && (e.1 matches Some(env) && carries_markers(env@, marker)) {
                rest.push(pid)
            } else {
                rest
            },
            None => rest,
        }
    }
}

pub open spec fn ascending(s: Seq<u32>) -> bool {
    forall|i: int, j: int| 0 <= i < j < s.len() ==> s[i] <= s[j]
}

fn insert_sorted(v: &mut Vec<u32>, x: u32)
    requires
        ascending(old(v)@),
    ensures
        ascending(final(v)@),
        final(v)@.to_multiset() == old(v)@.to_multiset().insert(x),
{
    let mut k: usize = 0;
    while k < v.len() && v[k] <= x
        invariant
            k <= v@.len(),
            forall|j: int| 0 <= j < k ==> v@[j] <= x,
        decreases v@.len() - k,
    {
        k += 1;
    }
    let ghost before = v@;
    proof {
        vstd::seq_lib::to_multiset_insert(before, k as int, x);
    }
    v.insert(k, x);
    assert(v@ == before.insert(k as int, x));
    assert forall|i: int, j: int| 0 <= i < j < v@.len() implies v@[i] <= v@[j] by {
        if j < k {
            assert(v@[i] == before[i] && v@[j] == before[j]);
        } else if j == k {
            assert(v@[i] == before[i]);
        } else if i < k {
            assert(v@[i] == before[i] && v@[j] == before[j - 1]);
            assert(before[k as int] > x);
            if (k as int) < j - 1 {
                assert(before[k as int] <= before[j - 1]);
            }
        } else if i == k {
            assert(v@[j] == before[j - 1]);
            assert(before[k as int] > x);
            if (k as int) < j - 1 {
                assert(before[k as int] <= before[j - 1]);
            }
        } else {
            assert(v@[i] == before[i - 1] && v@[j] == before[j - 1]);
        }
    }
}

/// The pids a marker sweep signals, in ascending order.
pub fn marked_pids(entries: &Vec<(String, Option<Vec<u8>>)>, own: u32, marker: &Marker) -> (r: Vec<u32>)
    ensures
        ascending(r@),
        r@.to_multiset() == selected_pids(entries@, own, *marker).to_multiset(),
{
    let mut r: Vec<u32> = Vec::new();
    let mut i: usize = 0;
    while i < entries.len()
        invariant
            i <= entries@.len(),
            ascending(r@),
            r@.to_multiset() == selected_pids(entries@.subrange(0, i as int), own, *marker).to_multiset(),
        decreases entries@.len() - i,
    {
        assert(entries@.subrange(0, i + 1).drop_last() =~= entries@.subrange(0, i as int));
        let ghost sel = selected_pids(entries@.subrange(0, i as int), own, *marker);
        match crate::text::parse_u32(entries[i].0.as_str()) {
            Some(pid) => {
                let carries = match &entries[i].1 {
                    Some(env) => environ_carries_marker(env.as_slice(), marker),
                    None => false,
                };
                if pid != own && carries {
                    insert_sorted(&mut r, pid);
                    proof {
                        vstd::seq_lib::to_multiset_build(sel, pid);
                    }
                }
            },
            None => {},
        }
        i += 1;
    }
    assert(entries@.subrange(0, entries@.len() as int) =~= entries@);
    r
}

/// Whether a path may be put between single quotes in a `sh -c` command: no
/// quote and no newline in it.
pub open spec fn shell_safe(path: Seq<char>) -> bool {
    !path.contains('\'') && !path.contains('\n')
}

/// A path as it goes into `sh -c`: one that could close the quote is refused
/// rather than escaped.
pub fn shell_path(path: &str) -> (r: Result<String, Error>)
    ensures
        shell_safe(path@) ==> (r matches Ok(t) && t@ == path@),
        !shell_safe(path@) ==> (r matches Err(Error::Invalid { what, value, hint }) && what@
            == "agent desktop path"@ && value@ == path@ && hint@
            == "must not contain a quote or a newline"@),
{
    let cs = chars(path);
    if has_char(cs.as_slice(), '\'') || has_char(cs.as_slice(), '\n') {
        return Err(
            invalid(
                "agent desktop path",
                own(path),
                String::from_str("must not contain a quote or a newline"),
            ),
        );
    }
    Ok(own(path))
}

/// The command the host runs to spawn the nested compositor: one-shot rules
/// that keep it off the user's screen, both markers, and its config and log.
pub open spec fn spawn_command_spec(marker: Marker, workspace: Seq<char>, config: Seq<char>, log: Seq<
    char,
>) -> Seq<char> {
    "[workspace name:"@ + workspace + " silent; noinitialfocus; fullscreen] env "@
        + AGENT_SESSION_ENV@ + "="@ + marker.session@ + " "@ + AGENT_INSTANCE_ENV@ + "="@
        + marker.instance@ + " "@ + NESTED_BINARY@ + " -c '"@ + config + "' > '"@ + log + "' 2>&1"@
}

/// The spawn command, or the refusal of a path that cannot be quoted.
pub fn spawn_command(marker: &Marker, workspace: &str, config: &str, log: &str) -> (r: Result<
    String,
    Error,
>)
    ensures
        shell_safe(config@) && shell_safe(log@) ==> (r matches Ok(c) && c@ == spawn_command_spec(
            *marker,
            workspace@,
            config@,
            log@,
        )),
        !shell_safe(config@) || !shell_safe(log@) ==> r is Err,
{
    let config = shell_path(config)?;
    let log = shell_path(log)?;
    let mut r = cat3("[workspace name:", workspace, " silent; noinitialfocus; fullscreen] env ");
    r.append(AGENT_SESSION_ENV);
    r.append("=");
    r.append(marker.session);
    r.append(" ");
    r.append(AGENT_INSTANCE_ENV);
    r.append("=");
    r.append(marker.instance);
    r.append(" ");
    r.append(NESTED_BINARY);
    r.append(" -c '");
    r.append(config.as_str());
    r.append("' > '");
    r.append(log.as_str());
    r.append("' 2>&1");
    Ok(r)
}

/// A console window as the state knows it. The pid is part of the identity
/// because Hyprland addresses are recycled pointers.
#[derive(Debug, Clone, Copy, PartialEq, Eq)]
pub struct Console<'a> {
    pub address: &'a str,
    pub pid: u32,
}

/// The console of a start that got far enough to identify one.
pub fn console_of(instance: &Instance) -> (r: Option<Console<'_>>)
    ensures
        match instance {
            Instance::Live { pid, console_address, .. } => r matches Some(c) && c.address@
                == console_address@ && c.pid == pid,
            _ => r is None,
        },
{
    match instance {
        Instance::Live { pid, console_address, .. } => Some(
            Console { address: console_address.as_str(), pid: *pid },
        ),
        _ => None,
    }
}

/// The signature of a compositor that reached at least the `Spawned` stage:
/// the name of the runtime directory it leaves behind, and the only way to
/// address it.
pub fn instance_signature(instance: &Instance) -> (r: Option<&str>)
    ensures
        match instance {
            Instance::Pending => r is None,
            Instance::Spawned { signature } => r matches Some(s) && s@ == signature@,
            Instance::Live { signature, .. } => r matches Some(s) && s@ == signature@,
        },
{
    match instance {
        Instance::Pending => None,
        Instance::Spawned { signature } => Some(signature.as_str()),
        Instance::Live { signature, .. } => Some(signature.as_str()),
    }
}

/// What a teardown of an agent desktop brought down, and what it could not.
#[derive(Debug)]
pub struct Teardown {
    pub notes: Vec<String>,
    pub failures: Vec<RestoreFailure>,
}

/// The registered identity of a nested compositor: the only pid teardown ever
/// signals, its runtime directory, and the host window it maps.
#[derive(Debug, Clone, Copy, PartialEq, Eq)]
pub struct Registered<'a> {
    pub signature: &'a str,
    pub pid: u32,
    pub console: &'a str,
    pub display: &'a str,
}

/// The nested compositor as the state knows it, at the two stages that have
/// one.
#[derive(Debug, Clone, Copy, PartialEq, Eq)]
pub enum Compositor<'a> {
    /// Registered, its console not identified yet: a signature to exit and a
    /// runtime directory to clear, no pid to signal.
    Spawned { signature: &'a str },
    /// Fully identified.
    Live(Registered<'a>),
}

impl<'a> Compositor<'a> {
    pub fn signature(self) -> (r: &'a str)
        ensures
            r == match self {
                Compositor::Spawned { signature } => signature,
                Compositor::Live(registered) => registered.signature,
            },
    {
        match self {
            Compositor::Spawned { signature } => signature,
            Compositor::Live(registered) => registered.signature,
        }
    }

    /// The console whose reaping gates the output removal, when one was
    /// identified.
    pub fn console(self) -> (r: Option<Console<'a>>)
        ensures
            match self {
                Compositor::Spawned { .. } => r is None,
                Compositor::Live(registered) => r == Some(
                    Console { address: registered.console, pid: registered.pid },
                ),
            },
    {
        match self {
            Compositor::Spawned { .. } => None,
            Compositor::Live(registered) => Some(
                Console { address: registered.console, pid: registered.pid },
            ),
        }
    }
}

/// What a teardown has to undo, decided from the state alone.
#[derive(Debug, PartialEq, Eq)]
pub struct TeardownPlan<'a> {
    /// Window to close politely, inside the instance.
    pub close: Option<&'a str>,
    /// Compositor to exit, then whose runtime directory to clear.
    pub instance: Option<Compositor<'a>>,
}

/// The teardown plan follows the stage the start reached: nothing to exit
/// before a compositor was spawned, a signature once one registered, the whole
/// identity once its console was found; a recorded window is closed only
/// where there is a compositor to close it in.
pub open spec fn teardown_plan_spec(isolated: Isolated, plan: TeardownPlan) -> bool {
    &&& match isolated.instance {
        Instance::Pending => plan.instance is None,
        Instance::Spawned { signature } => plan.instance matches Some(
            Compositor::Spawned { signature: s },
        ) && s@ == signature@,
        Instance::Live { signature, wayland_display, pid, console_address } => plan.instance
            matches Some(Compositor::Live(r)) && r.signature@ == signature@ && r.pid == pid
            && r.console@ == console_address@ && r.display@ == wayland_display@,
    }
    &&& match (isolated.instance, isolated.active_address) {
        (Instance::Pending, _) => plan.close is None,
        (_, Some(a)) => plan.close matches Some(c) && c@ == a@,
        (_, None) => plan.close is None,
    }
}

pub fn teardown_plan(isolated: &Isolated) -> (r: TeardownPlan<'_>)
    ensures
        teardown_plan_spec(*isolated, r),
{
    let instance = match &isolated.instance {
        Instance::Pending => None,
        Instance::Spawned { signature } => Some(Compositor::Spawned { signature: signature.as_str() }),
        Instance::Live { signature, wayland_display, pid, console_address } => Some(
            Compositor::Live(
                Registered {
                    signature: signature.as_str(),
                    pid: *pid,
                    console: console_address.as_str(),
                    display: wayland_display.as_str(),
                },
            ),
        ),
    };
    let close = match (&instance, &isolated.active_address) {
        (Some(_), Some(address)) => Some(address.as_str()),
        _ => None,
    };
    TeardownPlan { close, instance }
}

/// A window as an occupant reads in a message: `ADDRESS (`TITLE`)`.
pub open spec fn occupant_text(c: Client) -> Seq<char> {
    c.address@ + " (`"@ + c.title@ + "`)"@
}

fn write_occupant(c: &Client) -> (r: String)
    ensures
        r@ == occupant_text(*c),
{
    let mut r = cat3(c.address.as_str(), " (`", c.title.as_str());
    r.append("`)");
    r
}

/// Whether a client is still a console to wait for: nothing of the desktop is
/// alive any more, so a window at the console's address whose pid is not the
/// compositor's is somebody else's, at a recycled address.
pub open spec fn console_reaped_spec(clients: Seq<Client>, console: Console, r: Result<String, String>) -> bool {
    match first_at(clients, console.address@) {
        None => r matches Ok(t) && t@ == "console window "@ + console.address@
            + " is gone from the host"@,
        Some(i) => {
            let c = clients[i];
            if c.pid < 0 || c.pid != console.pid {
                r matches Ok(t) && t@ == "address "@ + console.address@ + " now belongs to pid "@
                    + int_text(c.pid as int) + " (`"@ + c.title@
                    + "`), not the dead nested compositor (pid "@ + dec(console.pid as nat) + ")"@
            } else {
                r matches Err(t) && t@ == "still on workspace "@ + c.workspace.name@
            }
        },
    }
}

/// The index of the first client at `address`.
pub open spec fn first_at(clients: Seq<Client>, address: Seq<char>) -> Option<int> {
    if exists|i: int| 0 <= i < clients.len() && clients[i].address@ == address {
        Some(
            choose|i: int|
                0 <= i < clients.len() && clients[i].address@ == address && forall|j: int|
                    0 <= j < i ==> clients[j].address@ != address,
        )
    } else {
        None
    }
}

pub proof fn lemma_first_at(clients: Seq<Client>, address: Seq<char>, i: int)
    requires
        0 <= i < clients.len(),
        clients[i].address@ == address,
        forall|j: int| 0 <= j < i ==> clients[j].address@ != address,
    ensures
        first_at(clients, address) == Some(i),
{
    let k = choose|k: int|
        0 <= k < clients.len() && clients[k].address@ == address && forall|j: int|
            0 <= j < k ==> clients[j].address@ != address;
    assert(exists|k: int|
        0 <= k < clients.len() && clients[k].address@ == address && forall|j: int|
            0 <= j < k ==> clients[j].address@ != address);
    if k < i {
        assert(clients[k].address@ != address);
    }
    if i < k {
        assert(clients[i].address@ != address);
    }
}

/// Whether the console of a dead compositor has been reaped by the host.
pub fn console_reaped(clients: &[Client], console: Console) -> (r: Result<String, String>)
    ensures
        console_reaped_spec(clients@, console, r),
{
    match crate::hypr::find_client(clients, console.address) {
        None => {
            assert(first_at(clients@, console.address@) is None);
            Ok(cat3("console window ", console.address, " is gone from the host"))
        },
        Some(client) => {
            proof {
                let i = choose|i: int|
                    0 <= i < clients@.len() && clients@[i] == *client && client.address@
                        == console.address@ && forall|j: int|
                        0 <= j < i ==> clients@[j].address@ != console.address@;
                lemma_first_at(clients@, console.address@, i);
            }
            if client.pid < 0 || client.pid as u32 != console.pid {
                let mut t = cat3("address ", console.address, " now belongs to pid ");
                t.append(fmt_i64(client.pid as i64).as_str());
                t.append(" (`");
                t.append(client.title.as_str());
                t.append("`), not the dead nested compositor (pid ");
                t.append(fmt_u64(console.pid as u64).as_str());
                t.append(")");
                Ok(t)
            } else {
                Err(cat("still on workspace ", client.workspace.name.as_str()))
            }
        },
    }
}

/// The windows of `clients` that report monitor `id`, in order.
pub open spec fn on_monitor(clients: Seq<Client>, id: i64) -> Seq<Client>
    decreases clients.len(),
{
    if clients.len() == 0 {
        Seq::empty()
    } else if clients.last().monitor == id {
        on_monitor(clients.drop_last(), id).push(clients.last())
    } else {
        on_monitor(clients.drop_last(), id)
    }
}

/// The windows of `clients` on workspace `name`, in order.
pub open spec fn on_workspace(clients: Seq<Client>, name: Seq<char>) -> Seq<Client>
    decreases clients.len(),
{
    if clients.len() == 0 {
        Seq::empty()
    } else if clients.last().workspace.name@ == name {
        on_workspace(clients.drop_last(), name).push(clients.last())
    } else {
        on_workspace(clients.drop_last(), name)
    }
}

/// The occupants of a list of windows, as they read in a message.
pub open spec fn occupants(cs: Seq<Client>) -> Seq<Seq<char>> {
    cs.map_values(|c: Client| occupant_text(c))
}

/// The windows on workspace `workspace`, as they read in a message.
pub fn workspace_occupants(clients: &[Client], workspace: &str) -> (r: Vec<String>)
    ensures
        string_views(r@) == occupants(on_workspace(clients@, workspace@)),
{
    let mut r: Vec<String> = Vec::new();
    let mut i: usize = 0;
    while i < clients.len()
        invariant
            i <= clients@.len(),
            string_views(r@) == occupants(on_workspace(clients@.subrange(0, i as int), workspace@)),
        decreases clients@.len() - i,
    {
        assert(clients@.subrange(0, i + 1).drop_last() =~= clients@.subrange(0, i as int));
        if str_eq(clients[i].workspace.name.as_str(), workspace) {
            let ghost before = r@;
            r.push(write_occupant(&clients[i]));
            proof {
                crate::hypr::lemma_string_views_push(before, r@.last());
                assert(occupants(on_workspace(clients@.subrange(0, i + 1), workspace@)) =~= occupants(
                    on_workspace(clients@.subrange(0, i as int), workspace@),
                ).push(occupant_text(clients@[i as int])));
            }
        }
        i += 1;
    }
    assert(clients@.subrange(0, clients@.len() as int) =~= clients@);
    r
}

fn monitor_occupants(clients: &[Client], id: i64) -> (r: Vec<String>)
    ensures
        string_views(r@) == occupants(on_monitor(clients@, id)),
{
    let mut r: Vec<String> = Vec::new();
    let mut i: usize = 0;
    while i < clients.len()
        invariant
            i <= clients@.len(),
            string_views(r@) == occupants(on_monitor(clients@.subrange(0, i as int), id)),
        decreases clients@.len() - i,
    {
        assert(clients@.subrange(0, i + 1).drop_last() =~= clients@.subrange(0, i as int));
        if clients[i].monitor == id {
            let ghost before = r@;
            r.push(write_occupant(&clients[i]));
            proof {
                crate::hypr::lemma_string_views_push(before, r@.last());
                assert(occupants(on_monitor(clients@.subrange(0, i + 1), id)) =~= occupants(
                    on_monitor(clients@.subrange(0, i as int), id),
                ).push(occupant_text(clients@[i as int])));
            }
        }
        i += 1;
    }
    assert(clients@.subrange(0, clients@.len() as int) =~= clients@);
    r
}

/// The index of the first monitor called `name`.
pub open spec fn first_named(monitors: Seq<Monitor>, name: Seq<char>) -> Option<int> {
    if exists|i: int| 0 <= i < monitors.len() && monitors[i].name@ == name {
        Some(
            choose|i: int|
                0 <= i < monitors.len() && monitors[i].name@ == name && forall|j: int|
                    0 <= j < i ==> monitors[j].name@ != name,
        )
    } else {
        None
    }
}

pub proof fn lemma_first_named(monitors: Seq<Monitor>, name: Seq<char>, i: int)
    requires
        0 <= i < monitors.len(),
        monitors[i].name@ == name,
        forall|j: int| 0 <= j < i ==> monitors[j].name@ != name,
    ensures
        first_named(monitors, name) == Some(i),
{
    let k = choose|k: int|
        0 <= k < monitors.len() && monitors[k].name@ == name && forall|j: int|
            0 <= j < k ==> monitors[j].name@ != name;
    assert(exists|k: int|
        0 <= k < monitors.len() && monitors[k].name@ == name && forall|j: int|
            0 <= j < k ==> monitors[j].name@ != name);
    if k < i {
        assert(monitors[k].name@ != name);
    }
    if i < k {
        assert(monitors[i].name@ != name);
    }
}

/// The wait for the console of a state that never recorded one: the agent's
/// headless output has to be empty before it goes.
pub open spec fn output_vacated_spec(
    monitors: Seq<Monitor>,
    clients: Seq<Client>,
    output: Seq<char>,
    r: Result<String, String>,
) -> bool {
    match first_named(monitors, output) {
        None => r matches Ok(t) && t@ == "output "@ + output + " is already gone"@,
        Some(i) => {
            let left = occupants(on_monitor(clients, monitors[i].id));
            if left.len() == 0 {
                r matches Ok(t) && t@ == "no window is left on output "@ + output
            } else {
                r matches Err(t) && t@ == joined_by(left, ", "@) + " still there"@
            }
        },
    }
}

/// Whether the agent's headless output has been vacated.
pub fn output_vacated(monitors: &[Monitor], clients: &[Client], output: &str) -> (r: Result<
    String,
    String,
>)
    ensures
        output_vacated_spec(monitors@, clients@, output@, r),
{
    match crate::hypr::find_monitor(monitors, output) {
        None => {
            assert(first_named(monitors@, output@) is None);
            Ok(cat3("output ", output, " is already gone"))
        },
        Some(monitor) => {
            proof {
                let i = choose|i: int|
                    0 <= i < monitors@.len() && monitors@[i] == *monitor && monitor.name@
                        == output@ && forall|j: int| 0 <= j < i ==> monitors@[j].name@ != output@;
                lemma_first_named(monitors@, output@, i);
            }
            let left = monitor_occupants(clients, monitor.id);
            if left.len() == 0 {
                Ok(cat("no window is left on output ", output))
            } else {
                let joined = join_with(&left, ", ");
                Err(cat(joined.as_str(), " still there"))
            }
        },
    }
}

/// Whether a signature is a single directory name.
pub open spec fn plain_spec(signature: Seq<char>) -> bool {
    signature.len() > 0 && signature != "."@ && signature != ".."@ && !signature.contains('/')
        && !signature.contains('\0')
}

/// The signature is read back from a state file and ends up in a recursive
/// removal, so it has to be a single directory name.
pub fn plain_signature(signature: &str) -> (r: Result<&str, Error>)
    ensures
        plain_spec(signature@) ==> r == Ok::<&str, Error>(signature),
        !plain_spec(signature@) ==> (r matches Err(Error::Invalid { what, value, hint }) && what@
            == "instance signature"@ && value@ == signature@ && hint@
            == "expected a single directory name under $XDG_RUNTIME_DIR/hypr"@),
{
    let cs = chars(signature);
    if cs.len() == 0 || str_eq(signature, ".") || str_eq(signature, "..") || has_char(
        cs.as_slice(),
        '/',
    ) || has_char(cs.as_slice(), '\0') {
        return Err(
            invalid(
                "instance signature",
                own(signature),
                String::from_str("expected a single directory name under $XDG_RUNTIME_DIR/hypr"),
            ),
        );
    }
    Ok(signature)
}

/// The runtime directory a compositor leaves behind: `<instances>/<signature>`,
/// for a signature that is a single directory name.
pub fn instance_dir(instances: &str, signature: &str) -> (r: Result<String, Error>)
    ensures
        plain_spec(signature@) ==> (r matches Ok(d) && d@ == join_spec(instances@, signature@)),
        !plain_spec(signature@) ==> r is Err,
{
    let s = plain_signature(signature)?;
    Ok(join(instances, s))
}

/// The precondition of every command: inside an agent desktop `hyprctl`
/// answers for the nested compositor, so nothing may run there. `marker` is
/// the value of the session marker in this process's environment.
pub fn refuse_when_nested(marker: Option<&str>) -> (r: Result<(), Error>)
    ensures
        match marker {
            None => r is Ok,
            Some(s) => r matches Err(Error::NestedRefused { session }) && session@ == s@,
        },
{
    match marker {
        None => Ok(()),
        Some(s) => Err(Error::NestedRefused { session: own(s) }),
    }
}

/// An output named after this session is a leftover from an earlier agent
/// desktop, never a resource to reuse.
pub fn ensure_output_absent(monitors: &[Monitor], output: &str, session: &str) -> (r: Result<
    (),
    Error,
>)
    ensures
        (forall|i: int| 0 <= i < monitors@.len() ==> monitors@[i].name@ != output@) <==> r is Ok,
        r matches Err(e) ==> (e matches Error::AgentOutputExists { output: o, session: s } && o@
            == output@ && s@ == session@),
{
    match crate::hypr::find_monitor(monitors, output) {
        None => Ok(()),
        Some(_) => Err(Error::AgentOutputExists { output: own(output), session: own(session) }),
    }
}

/// The host as a start found it before its first mutation.
#[derive(Debug)]
pub struct HostSnapshot {
    /// Each output with its active workspace.
    pub workspaces: Vec<(String, String)>,
    /// Every workspace the host knew.
    pub workspace_names: Vec<String>,
    pub active_window: Option<String>,
    pub cursor: (i32, i32),
}

/// Each monitor with its active workspace, in order.
pub open spec fn active_pairs(monitors: Seq<Monitor>) -> Seq<(Seq<char>, Seq<char>)> {
    monitors.map_values(|m: Monitor| (m.name@, m.active_workspace.name@))
}

/// The views of output/workspace pairs.
pub open spec fn pair_views(v: Seq<(String, String)>) -> Seq<(Seq<char>, Seq<char>)> {
    v.map_values(|p: (String, String)| (p.0@, p.1@))
}

/// Each monitor with its active workspace.
pub fn active_workspaces(monitors: &[Monitor]) -> (r: Vec<(String, String)>)
    ensures
        pair_views(r@) == active_pairs(monitors@),
{
    let mut r: Vec<(String, String)> = Vec::new();
    let mut i: usize = 0;
    while i < monitors.len()
        invariant
            i <= monitors@.len(),
            pair_views(r@) == active_pairs(monitors@.subrange(0, i as int)),
        decreases monitors@.len() - i,
    {
        let ghost before = r@;
        r.push((own(monitors[i].name.as_str()), own(monitors[i].active_workspace.name.as_str())));
        assert(pair_views(r@) =~= pair_views(before).push(
            (monitors@[i as int].name@, monitors@[i as int].active_workspace.name@),
        ));
        assert(active_pairs(monitors@.subrange(0, i + 1)) =~= active_pairs(
            monitors@.subrange(0, i as int),
        ).push((monitors@[i as int].name@, monitors@[i as int].active_workspace.name@)));
        i += 1;
    }
    assert(monitors@.subrange(0, monitors@.len() as int) =~= monitors@);
    r
}

/// Whether a workspace is one a start may rename: only the one a fresh
/// headless output brought with it. Anything holding a window, visible a
/// moment ago, or existing before the start is the user's.
pub open spec fn renameable_spec(
    host: HostSnapshot,
    clients: Seq<Client>,
    workspace: Seq<char>,
    r: Result<(), String>,
) -> bool {
    let held = occupants(on_workspace(clients, workspace));
    if held.len() > 0 {
        r matches Err(t) && t@ == "holds "@ + joined_by(held, ", "@)
    } else if exists|i: int| 0 <= i < host.workspaces@.len() && host.workspaces@[i].1@ == workspace {
        r matches Err(t) && exists|i: int|
            0 <= i < host.workspaces@.len() && host.workspaces@[i].1@ == workspace && (forall|j: int|
                0 <= j < i ==> host.workspaces@[j].1@ != workspace) && t@
                == "it was visible on "@ + host.workspaces@[i].0@ + " a moment ago"@
    } else if exists|i: int|
        0 <= i < host.workspace_names@.len() && host.workspace_names@[i]@ == workspace {
        r matches Err(t) && t@
            == "it already existed before this start created its output, so it is the user's"@
    } else {
        r is Ok
    }
}

pub fn renameable(host: &HostSnapshot, clients: &[Client], workspace: &str) -> (r: Result<
    (),
    String,
>)
    ensures
        renameable_spec(*host, clients@, workspace@, r),
{
    let held = workspace_occupants(clients, workspace);
    if held.len() > 0 {
        return Err(cat("holds ", join_with(&held, ", ").as_str()));
    }
    let mut i: usize = 0;
    while i < host.workspaces.len()
        invariant
            i <= host.workspaces@.len(),
            forall|j: int| 0 <= j < i ==> host.workspaces@[j].1@ != workspace@,
            occupants(on_workspace(clients@, workspace@)).len() == 0,
        decreases host.workspaces@.len() - i,
    {
        if str_eq(host.workspaces[i].1.as_str(), workspace) {
            return Err(cat3("it was visible on ", host.workspaces[i].0.as_str(), " a moment ago"));
        }
        i += 1;
    }
    let mut k: usize = 0;
    while k < host.workspace_names.len()
        invariant
            k <= host.workspace_names@.len(),
            forall|j: int| 0 <= j < k ==> host.workspace_names@[j]@ != workspace@,
            forall|j: int| 0 <= j < host.workspaces@.len() ==> host.workspaces@[j].1@ != workspace@,
            occupants(on_workspace(clients@, workspace@)).len() == 0,
        decreases host.workspace_names@.len() - k,
    {
        if str_eq(host.workspace_names[k].as_str(), workspace) {
            return Err(
                String::from_str(
                    "it already existed before this start created its output, so it is the user's",
                ),
            );
        }
        k += 1;
    }
    Ok(())
}

/// Why the workspace active on `output` may not take the session's name.
pub open spec fn rename_refusal(workspace: Seq<char>, output: Seq<char>, reason: Seq<char>) -> Seq<char> {
    "workspace "@ + workspace + " is active on output "@ + output + " but "@ + reason
        + " — refusing to rename a workspace the user owns"@
}

/// Checks that `workspace`, active on `output`, may take the session's
/// name, and says why not as the error of the rename it holds back.
pub fn rename_allowed(host: &HostSnapshot, clients: &[Client], workspace: &str, output: &str) -> (r: Result<
    (),
    Error,
>)
    ensures
        exists|checked: Result<(), String>|
            renameable_spec(*host, clients@, workspace@, checked) && match checked {
                Ok(()) => r is Ok,
                Err(reason) => r matches Err(Error::Tool { command, message }) && command@
                    == "hyprctl dispatch renameworkspace"@ && message@ == rename_refusal(
                    workspace@,
                    output@,
                    reason@,
                ),
            },
{
    let checked = renameable(host, clients, workspace);
    let ghost gchecked = checked;
    match checked {
        Ok(()) => Ok(()),
        Err(reason) => {
            let mut message = cat3("workspace ", workspace, " is active on output ");
            message.append(output);
            message.append(" but ");
            message.append(reason.as_str());
            message.append(" — refusing to rename a workspace the user owns");
            let r = Err(Error::Tool { command: own("hyprctl dispatch renameworkspace"), message });
            assert(renameable_spec(*host, clients@, workspace@, gchecked));
            r
        },
    }
}

/// How a focus reads in a deviation: `address:A`, or that nothing was focused.
pub open spec fn focus_label_spec(address: Option<Seq<char>>) -> Seq<char> {
    match address {
        Some(a) => "address:"@ + a,
        None => "no focused window"@,
    }
}

pub fn focus_label(address: Option<&str>) -> (r: String)
    ensures
        r@ == focus_label_spec(session::opt_view(address)),
{
    match address {
        Some(a) => cat("address:", a),
        None => String::from_str("no focused window"),
    }
}

/// The views of an optional string.
pub open spec fn opt_string(s: Option<String>) -> Option<Seq<char>> {
    match s {
        Some(t) => Some(t@),
        None => None,
    }
}

/// The workspace active on `output` after, if the output is still there.
pub open spec fn active_after(after: Seq<(String, String)>, output: Seq<char>) -> Option<Seq<char>> {
    if exists|i: int| 0 <= i < after.len() && after[i].0@ == output {
        Some(
            after[choose|i: int|
                0 <= i < after.len() && after[i].0@ == output && forall|j: int|
                    0 <= j < i ==> after[j].0@ != output].1@,
        )
    } else {
        None
    }
}

/// Whether output `k` of the snapshot before kept its active workspace.
pub open spec fn output_kept(before: HostSnapshot, after: HostSnapshot, k: int) -> bool {
    active_after(after.workspaces@, before.workspaces@[k].0@) == Some(before.workspaces@[k].1@)
}

/// Any deviation of the user's desktop fails the start: an output gone, an
/// output showing another workspace, or the focus moved, the first one found
/// in that order. Outputs the start created are not in `before`, so they are
/// never compared.
pub open spec fn deviation_spec(before: HostSnapshot, after: HostSnapshot, r: Option<Error>) -> bool {
    if exists|k: int| 0 <= k < before.workspaces@.len() && !output_kept(before, after, k) {
        let k = choose|k: int|
            0 <= k < before.workspaces@.len() && !output_kept(before, after, k) && forall|j: int|
                0 <= j < k ==> output_kept(before, after, j);
        let output = before.workspaces@[k].0@;
        let workspace = before.workspaces@[k].1@;
        r matches Some(Error::HostDeviation { what, expected, actual }) && expected@ == workspace
            + " on "@ + output && match active_after(after.workspaces@, output) {
            None => what@ == "host output"@ && actual@ == output + " is gone"@,
            Some(current) => what@ == "active workspace"@ && actual@ == current + " on "@ + output,
        }
    } else if opt_string(before.active_window) == opt_string(after.active_window) {
        r is None
    } else {
        r matches Some(Error::HostDeviation { what, expected, actual }) && what@
            == "focused window"@ && expected@ == focus_label_spec(opt_string(before.active_window))
            && actual@ == focus_label_spec(opt_string(after.active_window))
    }
}

fn lookup_active<'b>(after: &'b Vec<(String, String)>, output: &str) -> (r: Option<&'b String>)
    ensures
        match r {
            Some(w) => active_after(after@, output@) == Some(w@),
            None => active_after(after@, output@) is None,
        },
{
    let mut i: usize = 0;
    while i < after.len()
        invariant
            i <= after@.len(),
            forall|j: int| 0 <= j < i ==> after@[j].0@ != output@,
        decreases after@.len() - i,
    {
        if str_eq(after[i].0.as_str(), output) {
            proof {
                let c = choose|c: int|
                    0 <= c < after@.len() && after@[c].0@ == output@ && forall|j: int|
                        0 <= j < c ==> after@[j].0@ != output@;
                assert(exists|c: int|
                    0 <= c < after@.len() && after@[c].0@ == output@ && forall|j: int|
                        0 <= j < c ==> after@[j].0@ != output@) by {
                    assert(after@[i as int].0@ == output@);
                }
                if c < i {
                    assert(after@[c].0@ != output@);
                }
                if (i as int) < c {
                    assert(after@[i as int].0@ != output@);
                }
            }
            return Some(&after[i].1);
        }
        i += 1;
    }
    None
}

fn opt_str_eq(a: &Option<String>, b: &Option<String>) -> (r: bool)
    ensures
        r == (opt_string(*a) == opt_string(*b)),
{
    match (a, b) {
        (Some(x), Some(y)) => str_eq(x.as_str(), y.as_str()),
        (None, None) => true,
        _ => false,
    }
}

/// Compares the host after the start's mutations with the snapshot before.
pub fn deviation(before: &HostSnapshot, after: &HostSnapshot) -> (r: Option<Error>)
    ensures
        deviation_spec(*before, *after, r),
{
    let mut k: usize = 0;
    while k < before.workspaces.len()
        invariant
            k <= before.workspaces@.len(),
            forall|j: int| 0 <= j < k ==> output_kept(*before, *after, j),
        decreases before.workspaces@.len() - k,
    {
        let output = &before.workspaces[k].0;
        let workspace = &before.workspaces[k].1;
        let expected = cat3(workspace.as_str(), " on ", output.as_str());
        match lookup_active(&after.workspaces, output.as_str()) {
            None => {
                proof {
                    assert(!output_kept(*before, *after, k as int));
                    let c = choose|c: int|
                        0 <= c < before.workspaces@.len() && !output_kept(*before, *after, c)
                            && forall|j: int| 0 <= j < c ==> output_kept(*before, *after, j);
                    if c < k {
                        assert(output_kept(*before, *after, c));
                    }
                    if (k as int) < c {
                        assert(output_kept(*before, *after, k as int));
                    }
                }
                return Some(
                    Error::HostDeviation {
                        what: String::from_str("host output"),
                        expected,
                        actual: cat(output.as_str(), " is gone"),
                    },
                );
            },
            Some(current) => {
                if !str_eq(current.as_str(), workspace.as_str()) {
                    proof {
                        assert(!output_kept(*before, *after, k as int));
                        let c = choose|c: int|
                            0 <= c < before.workspaces@.len() && !output_kept(*before, *after, c)
                                && forall|j: int| 0 <= j < c ==> output_kept(*before, *after, j);
                        if c < k {
                            assert(output_kept(*before, *after, c));
                        }
                        if (k as int) < c {
                            assert(output_kept(*before, *after, k as int));
                        }
                    }
                    return Some(
                        Error::HostDeviation {
                            what: String::from_str("active workspace"),
                            expected,
                            actual: cat3(current.as_str(), " on ", output.as_str()),
                        },
                    );
                }
            },
        }
        k += 1;
    }
    if opt_str_eq(&before.active_window, &after.active_window) {
        return None;
    }
    let b: Option<&str> = match &before.active_window {
        Some(a) => Some(a.as_str()),
        None => None,
    };
    let a: Option<&str> = match &after.active_window {
        Some(x) => Some(x.as_str()),
        None => None,
    };
    Some(
        Error::HostDeviation {
            what: String::from_str("focused window"),
            expected: focus_label(b),
            actual: focus_label(a),
        },
    )
}

/// Whether the headless output took the requested mode at scale 1; the
/// mode-set either applied or it did not.
pub fn output_is_configured(monitor: &Monitor, size: [u32; 2]) -> (r: bool)
    ensures
        r == (monitor.width == size[0] && monitor.height == size[1] && monitor.unit_scale),
{
    monitor.width == size[0] as i64 && monitor.height == size[1] as i64 && monitor.unit_scale
}

/// The pid owning the console window, which has to be a process id.
pub fn console_pid(console: &Client) -> (r: Result<u32, Error>)
    ensures
        console.pid >= 0 ==> r == Ok::<u32, Error>(console.pid as u32),
        console.pid < 0 ==> (r matches Err(Error::Tool { command, message }) && command@
            == "hyprctl clients"@ && message@ == "console window "@ + console.address@
            + " reports invalid pid "@ + int_text(console.pid as int)),
{
    if console.pid < 0 {
        let mut m = cat3("console window ", console.address.as_str(), " reports invalid pid ");
        m.append(fmt_i64(console.pid as i64).as_str());
        return Err(Error::Tool { command: String::from_str("hyprctl clients"), message: m });
    }
    Ok(console.pid as u32)
}

/// Whether a marker probe answered that the process is ours.
pub open spec fn answered_true(a: Result<bool, Error>) -> bool {
    a matches Ok(b) && b
}

/// How many probes answered that the process is ours.
pub open spec fn count_true(answers: Seq<Result<bool, Error>>) -> nat
    decreases answers.len(),
{
    if answers.len() == 0 {
        0
    } else {
        count_true(answers.drop_last()) + if answered_true(answers.last()) {
            1nat
        } else {
            0nat
        }
    }
}

pub proof fn lemma_count_true_zero(answers: Seq<Result<bool, Error>>, i: int)
    requires
        count_true(answers) == 0,
        0 <= i < answers.len(),
    ensures
        !answered_true(answers[i]),
    decreases answers.len(),
{
    if i < answers.len() - 1 {
        assert(answers.drop_last()[i] == answers[i]);
        lemma_count_true_zero(answers.drop_last(), i);
    }
}

/// The refusal of two instances that both carry the markers of this start.
pub open spec fn two_instances(first: InstanceInfo, second: InstanceInfo, e: Error) -> bool {
    e matches Error::Tool { command, message } && command@ == "hyprctl instances"@ && message@
        == "two live instances carry the markers of this start ("@ + first.instance@ + " pid "@
        + int_text(first.pid as int) + ", "@ + second.instance@ + " pid "@ + int_text(
        second.pid as int,
    ) + ") — refusing to guess which one it spawned; teardown and retry"@
}

/// Ours is the instance whose process carries both markers of this start,
/// asked of each instance in order as `answers`: the one that answered yes,
/// none when none did; a failed probe aborts the search, and a second yes is
/// refused rather than guessed between.
pub open spec fn marked_spec(
    instances: Seq<InstanceInfo>,
    answers: Seq<Result<bool, Error>>,
    r: Result<Option<&InstanceInfo>, Error>,
) -> bool {
    let k = answers.len();
    &&& k <= instances.len()
    &&& forall|j: int| 0 <= j < k - 1 ==> (#[trigger] answers[j]) is Ok
    &&& (k == 0 || count_true(answers.drop_last()) <= 1)
    &&& match r {
        Ok(None) => k == instances.len() && count_true(answers) == 0 && (k == 0 || answers[k - 1] is Ok),
        Ok(Some(x)) => k == instances.len() && count_true(answers) == 1 && (k == 0 || answers[k
            - 1] is Ok) && exists|i: int|
            0 <= i < k && answered_true(answers[i]) && *x == instances[i],
        Err(e) => k >= 1 && (answers[k - 1] == Err::<bool, Error>(e) || (answered_true(
            answers[k - 1],
        ) && exists|i: int|
            0 <= i < k - 1 && answered_true(answers[i]) && two_instances(
                instances[i],
                instances[k - 1],
                e,
            ))),
    }
}

/// The probes asked are the markers of each instance's pid, in order.
pub open spec fn probed_instances<F: Fn(i32) -> Result<bool, Error>>(
    ours: F,
    instances: Seq<InstanceInfo>,
    answers: Seq<Result<bool, Error>>,
) -> bool {
    forall|j: int| 0 <= j < answers.len() ==> call_ensures(ours, (instances[j].pid,), #[trigger] answers[j])
}

/// The one instance whose process carries both markers of this start.
pub fn marked_instance<'a, F: Fn(i32) -> Result<bool, Error>>(
    instances: &'a [InstanceInfo],
    ours: &F,
) -> (r: Result<Option<&'a InstanceInfo>, Error>)
    requires
        forall|pid: i32| call_requires(*ours, (pid,)),
    ensures
        exists|answers: Seq<Result<bool, Error>>|
            probed_instances(*ours, instances@, answers) && marked_spec(instances@, answers, r),
{
    let ghost mut answers: Seq<Result<bool, Error>> = Seq::empty();
    let mut found: Option<usize> = None;
    let mut i: usize = 0;
    while i < instances.len()
        invariant
            i <= instances@.len(),
            answers.len() == i,
            forall|pid: i32| call_requires(*ours, (pid,)),
            probed_instances(*ours, instances@, answers),
            forall|j: int| 0 <= j < i ==> (#[trigger] answers[j]) is Ok,
            match found {
                None => count_true(answers) == 0,
                Some(f) => f < i && count_true(answers) == 1 && answered_true(answers[f as int]),
            },
        decreases instances@.len() - i,
    {
        let answer = ours(instances[i].pid);
        let ghost before = answers;
        proof {
            answers = answers.push(answer);
            assert(answers.drop_last() =~= before);
            assert forall|j: int| 0 <= j < answers.len() implies call_ensures(
                *ours,
                (instances@[j].pid,),
                #[trigger] answers[j],
            ) by {
                if j < before.len() {
                    assert(answers[j] == before[j]);
                }
            }
        }
        match answer {
            Err(e) => {
                assert(marked_spec(instances@, answers, Err::<Option<&InstanceInfo>, Error>(e)));
                return Err(e);
            },
            Ok(false) => {},
            Ok(true) => {
                match found {
                    Some(f) => {
                        let first = &instances[f];
                        let current = &instances[i];
                        let mut m = cat3(
                            "two live instances carry the markers of this start (",
                            first.instance.as_str(),
                            " pid ",
                        );
                        m.append(fmt_i64(first.pid as i64).as_str());
                        m.append(", ");
                        m.append(current.instance.as_str());
                        m.append(" pid ");
                        m.append(fmt_i64(current.pid as i64).as_str());
                        m.append(") — refusing to guess which one it spawned; teardown and retry");
                        let e = Error::Tool { command: String::from_str("hyprctl instances"), message: m };
                        assert(two_instances(instances@[f as int], instances@[i as int], e));
                        assert(marked_spec(instances@, answers, Err::<Option<&InstanceInfo>, Error>(e)));
                        return Err(e);
                    },
                    None => {
                        found = Some(i);
                    },
                }
            },
        }
        i += 1;
    }
    proof {
        if answers.len() > 0 {
            assert(count_true(answers.drop_last()) <= count_true(answers));
        }
    }
    let r = match found {
        None => Ok(None),
        Some(f) => Ok(Some(&instances[f])),
    };
    let ghost k = answers.len();
    assert(k == instances@.len());
    assert(k == 0 || answers[k - 1] is Ok);
    assert(forall|j: int| 0 <= j < k - 1 ==> (#[trigger] answers[j]) is Ok);
    assert(marked_spec(instances@, answers, r));
    r
}

/// Whether a client is a console candidate: the nested compositor's class.
pub open spec fn console_class(c: Client) -> bool {
    c.class@ == CONSOLE_CLASS@
}

/// How a candidate console reads in the refusal of two of them.
pub open spec fn console_candidate_text(c: Client, before: Seq<String>) -> Seq<char> {
    c.address@ + " (pid "@ + int_text(c.pid as int) + (if exists|i: int|
        0 <= i < before.len() && before[i]@ == c.address@ {
        ", at an address that predates this start"@
    } else {
        ""@
    }) + ")"@
}

/// The refusal of two consoles that both carry the markers of this start.
pub open spec fn two_consoles(first: Client, second: Client, before: Seq<String>, e: Error) -> bool {
    e matches Error::Tool { command, message } && command@ == "hyprctl clients"@ && message@
        == "two console windows carry "@ + AGENT_SESSION_ENV@ + " and "@ + AGENT_INSTANCE_ENV@
        + " for this start: "@ + console_candidate_text(first, before) + " and "@
        + console_candidate_text(second, before) + " — teardown and retry"@
}

/// The console is the window of the nested compositor's class whose process
/// carries both markers of this start, the probes being asked of each such
/// window in order as `answers` (`asked` holds their indices). The title and
/// the address are never part of the identity; `before` only annotates an
/// ambiguity.
pub open spec fn console_spec(
    clients: Seq<Client>,
    before: Seq<String>,
    asked: Seq<int>,
    answers: Seq<Result<bool, Error>>,
    r: Result<Option<&Client>, Error>,
) -> bool {
    let k = answers.len();
    &&& asked.len() == k
    &&& forall|j: int|
        0 <= j < k ==> 0 <= #[trigger] asked[j] < clients.len() && console_class(clients[asked[j]])
    &&& forall|j: int, l: int| 0 <= j < l < k ==> asked[j] < asked[l]
    &&& forall|j: int| 0 <= j < k - 1 ==> (#[trigger] answers[j]) is Ok
    &&& (k == 0 || count_true(answers.drop_last()) <= 1)
    &&& match r {
        Ok(None) => count_true(answers) == 0 && (k == 0 || answers[k - 1] is Ok) && forall|i: int|
            0 <= i < clients.len() && console_class(clients[i]) ==> exists|j: int|
                0 <= j < k && asked[j] == i,
        Ok(Some(x)) => count_true(answers) == 1 && (k == 0 || answers[k - 1] is Ok) && (forall|
            i: int,
        |
            0 <= i < clients.len() && console_class(clients[i]) ==> exists|j: int|
                0 <= j < k && asked[j] == i) && exists|j: int|
            0 <= j < k && answered_true(answers[j]) && *x == clients[asked[j]],
        Err(e) => k >= 1 && (answers[k - 1] == Err::<bool, Error>(e) || (answered_true(
            answers[k - 1],
        ) && exists|j: int|
            0 <= j < k - 1 && answered_true(answers[j]) && two_consoles(
                clients[asked[j]],
                clients[asked[k - 1]],
                before,
                e,
            ))),
    }
}

/// The probes asked are the markers of each candidate's pid.
pub open spec fn probed_clients<F: Fn(i32) -> Result<bool, Error>>(
    ours: F,
    clients: Seq<Client>,
    asked: Seq<int>,
    answers: Seq<Result<bool, Error>>,
) -> bool {
    forall|j: int|
        0 <= j < answers.len() ==> call_ensures(ours, (clients[asked[j]].pid,), #[trigger] answers[j])
}

fn predates(before: &Vec<String>, address: &str) -> (r: bool)
    ensures
        r == exists|i: int| 0 <= i < before@.len() && before@[i]@ == address@,
{
    let mut i: usize = 0;
    while i < before.len()
        invariant
            i <= before@.len(),
            forall|j: int| 0 <= j < i ==> before@[j]@ != address@,
        decreases before@.len() - i,
    {
        if str_eq(before[i].as_str(), address) {
            return true;
        }
        i += 1;
    }
    false
}

fn console_candidate(c: &Client, before: &Vec<String>) -> (r: String)
    ensures
        r@ == console_candidate_text(*c, before@),
{
    let mut r = cat(c.address.as_str(), " (pid ");
    r.append(fmt_i64(c.pid as i64).as_str());
    let note = if predates(before, c.address.as_str()) {
        ", at an address that predates this start"
    } else {
        ""
    };
    proof {
        reveal_strlit("");
    }
    r.append(note);
    r.append(")");
    r
}

/// The console window of the nested compositor this start spawned.
pub fn select_console<'a, F: Fn(i32) -> Result<bool, Error>>(
    clients: &'a [Client],
    before: &Vec<String>,
    ours: &F,
) -> (r: Result<Option<&'a Client>, Error>)
    requires
        forall|pid: i32| call_requires(*ours, (pid,)),
    ensures
        exists|asked: Seq<int>, answers: Seq<Result<bool, Error>>|
            probed_clients(*ours, clients@, asked, answers) && console_spec(
                clients@,
                before@,
                asked,
                answers,
                r,
            ),
{
    let ghost mut answers: Seq<Result<bool, Error>> = Seq::empty();
    let ghost mut asked: Seq<int> = Seq::empty();
    let mut console: Option<usize> = None;
    let mut i: usize = 0;
    while i < clients.len()
        invariant
            i <= clients@.len(),
            answers.len() == asked.len(),
            forall|pid: i32| call_requires(*ours, (pid,)),
            probed_clients(*ours, clients@, asked, answers),
            forall|j: int|
                0 <= j < asked.len() ==> 0 <= #[trigger] asked[j] < i && console_class(
                    clients@[asked[j]],
                ),
            forall|j: int, l: int| 0 <= j < l < asked.len() ==> asked[j] < asked[l],
            forall|c: int|
                0 <= c < i && console_class(clients@[c]) ==> exists|j: int|
                    0 <= j < asked.len() && asked[j] == c,
            forall|j: int| 0 <= j < answers.len() ==> (#[trigger] answers[j]) is Ok,
            match console {
                None => count_true(answers) == 0,
                Some(f) => f < i && count_true(answers) == 1 && exists|j: int|
                    0 <= j < answers.len() && answered_true(answers[j]) && asked[j] == f,
            },
        decreases clients@.len() - i,
    {
        let client = &clients[i];
        if str_eq(client.class.as_str(), CONSOLE_CLASS) {
            let answer = ours(client.pid);
            let ghost before_answers = answers;
            let ghost before_asked = asked;
            proof {
                answers = answers.push(answer);
                asked = asked.push(i as int);
                assert(answers.drop_last() =~= before_answers);
                assert forall|j: int| 0 <= j < answers.len() implies call_ensures(
                    *ours,
                    (clients@[asked[j]].pid,),
                    #[trigger] answers[j],
                ) by {
                    if j < before_answers.len() {
                        assert(answers[j] == before_answers[j]);
                        assert(asked[j] == before_asked[j]);
                    }
                }
                assert forall|c: int|
                    0 <= c < i + 1 && console_class(clients@[c]) implies exists|j: int|
                        0 <= j < asked.len() && asked[j] == c by {
                    if c == i {
                        assert(asked[asked.len() - 1] == c);
                    } else {
                        let j = choose|j: int| 0 <= j < before_asked.len() && before_asked[j] == c;
                        assert(asked[j] == c);
                    }
                }
            }
            match answer {
                Err(e) => {
                    assert(console_spec(
                        clients@,
                        before@,
                        asked,
                        answers,
                        Err::<Option<&Client>, Error>(e),
                    ));
                    assert(probed_clients(*ours, clients@, asked, answers));
                    return Err(e);
                },
                Ok(false) => {},
                Ok(true) => {
                    match console {
                        Some(f) => {
                            let mut m = String::from_str("two console windows carry ");
                            m.append(AGENT_SESSION_ENV);
                            m.append(" and ");
                            m.append(AGENT_INSTANCE_ENV);
                            m.append(" for this start: ");
                            m.append(console_candidate(&clients[f], before).as_str());
                            m.append(" and ");
                            m.append(console_candidate(client, before).as_str());
                            m.append(" — teardown and retry");
                            let e = Error::Tool {
                                command: String::from_str("hyprctl clients"),
                                message: m,
                            };
                            assert(two_consoles(clients@[f as int], clients@[i as int], before@, e));
                            assert(console_spec(
                                clients@,
                                before@,
                                asked,
                                answers,
                                Err::<Option<&Client>, Error>(e),
                            ));
                            assert(probed_clients(*ours, clients@, asked, answers));
                            return Err(e);
                        },
                        None => {
                            console = Some(i);
                        },
                    }
                },
            }
        } else {
            proof {
                assert forall|c: int|
                    0 <= c < i + 1 && console_class(clients@[c]) implies exists|j: int|
                        0 <= j < asked.len() && asked[j] == c by {
                    if c < i {
                    } else {
                        assert(!console_class(clients@[c]));
                    }
                }
            }
        }
        i += 1;
    }
    proof {
        if answers.len() > 0 {
            assert(count_true(answers.drop_last()) <= count_true(answers));
        }
    }
    let r = match console {
        None => Ok(None),
        Some(f) => Ok(Some(&clients[f])),
    };
    assert(console_spec(clients@, before@, asked, answers, r));
    r
}

/// The host side of an agent desktop being able to produce frames: the
/// nested compositor only receives frame callbacks while the host composites
/// its console, which an active agent workspace on the headless output with
/// nothing special over it guarantees.
pub open spec fn host_frames_spec(host: Seq<Monitor>, output: Seq<char>, workspace: Seq<char>, r: Result<
    (),
    String,
>) -> bool {
    match first_named(host, output) {
        None => r matches Err(t) && t@ == "host output "@ + output + " is absent"@,
        Some(i) => {
            let m = host[i];
            if m.active_workspace.name@ != workspace {
                r matches Err(t) && t@ == "workspace "@ + m.active_workspace.name@ + " is active on "@
                    + output + ", not "@ + workspace
                    + " — the nested compositor would stop receiving frames"@
            } else if m.special_workspace@.len() > 0 {
                r matches Err(t) && t@ == "special workspace "@ + m.special_workspace@
                    + " occludes "@ + output
            } else {
                r is Ok
            }
        },
    }
}

pub fn host_frames(host: &[Monitor], output: &str, workspace: &str) -> (r: Result<(), String>)
    ensures
        host_frames_spec(host@, output@, workspace@, r),
{
    match crate::hypr::find_monitor(host, output) {
        None => {
            assert(first_named(host@, output@) is None);
            Err(cat3("host output ", output, " is absent"))
        },
        Some(headless) => {
            proof {
                let i = choose|i: int|
                    0 <= i < host@.len() && host@[i] == *headless && headless.name@ == output@
                        && forall|j: int| 0 <= j < i ==> host@[j].name@ != output@;
                lemma_first_named(host@, output@, i);
            }
            if !str_eq(headless.active_workspace.name.as_str(), workspace) {
                let mut t = cat3("workspace ", headless.active_workspace.name.as_str(), " is active on ");
                t.append(output);
                t.append(", not ");
                t.append(workspace);
                t.append(" — the nested compositor would stop receiving frames");
                return Err(t);
            }
            if headless.special_workspace.unicode_len() > 0 {
                let mut t = cat3("special workspace ", headless.special_workspace.as_str(), " occludes ");
                t.append(output);
                return Err(t);
            }
            Ok(())
        },
    }
}

/// The index of the first monitor with this id.
pub open spec fn first_id(monitors: Seq<Monitor>, id: i64) -> Option<int> {
    if exists|i: int| 0 <= i < monitors.len() && monitors[i].id == id {
        Some(
            choose|i: int|
                0 <= i < monitors.len() && monitors[i].id == id && forall|j: int|
                    0 <= j < i ==> monitors[j].id != id,
        )
    } else {
        None
    }
}

fn find_monitor_id<'c>(monitors: &'c [Monitor], id: i64) -> (r: Option<&'c Monitor>)
    ensures
        match r {
            Some(m) => first_id(monitors@, id) matches Some(i) && monitors@[i] == *m,
            None => first_id(monitors@, id) is None,
        },
{
    let mut i: usize = 0;
    while i < monitors.len()
        invariant
            i <= monitors@.len(),
            forall|j: int| 0 <= j < i ==> monitors@[j].id != id,
        decreases monitors@.len() - i,
    {
        if monitors[i].id == id {
            proof {
                let k = choose|k: int|
                    0 <= k < monitors@.len() && monitors@[k].id == id && forall|j: int|
                        0 <= j < k ==> monitors@[j].id != id;
                assert(exists|k: int|
                    0 <= k < monitors@.len() && monitors@[k].id == id && forall|j: int|
                        0 <= j < k ==> monitors@[j].id != id) by {
                    assert(monitors@[i as int].id == id);
                }
                if k < i {
                    assert(monitors@[k].id != id);
                }
                if (i as int) < k {
                    assert(monitors@[i as int].id != id);
                }
            }
            return Some(&monitors[i]);
        }
        i += 1;
    }
    None
}

/// Whether a compositor is actually showing window `address`: mapped, on the
/// active workspace of the output it reports, with no special workspace over
/// it. `place` names the compositor being asked.
pub open spec fn window_frame_spec(
    outputs: Seq<Monitor>,
    clients: Seq<Client>,
    address: Seq<char>,
    place: Seq<char>,
    r: Result<(&Client, &Monitor), String>,
) -> bool {
    match first_at(clients, address) {
        None => r matches Err(t) && t@ == "window "@ + address + " is gone from "@ + place,
        Some(i) => {
            let w = clients[i];
            if w.size[0] <= 0 || w.size[1] <= 0 {
                r matches Err(t) && t@ == "window "@ + address + " is not mapped (size "@
                    + crate::json::array_debug(w.size) + ")"@
            } else {
                match first_id(outputs, w.monitor) {
                    None => r matches Err(t) && t@ == "window "@ + address + " reports monitor "@
                        + int_text(w.monitor as int) + " which "@ + place + " does not have"@,
                    Some(m) => if outputs[m].active_workspace.name@ != w.workspace.name@ {
                        r matches Err(t) && t@ == "window "@ + address + " sits on workspace "@
                            + w.workspace.name@ + " while "@ + place + " shows "@
                            + outputs[m].active_workspace.name@
                    } else if outputs[m].special_workspace@.len() > 0 {
                        r matches Err(t) && t@ == "special workspace "@ + outputs[m].special_workspace@
                            + " occludes "@ + place
                    } else {
                        r matches Ok((c, mon)) && *c == w && *mon == outputs[m]
                    },
                }
            }
        },
    }
}

pub fn window_frame<'a>(outputs: &'a [Monitor], clients: &'a [Client], address: &str, place: &str) -> (r:
    Result<(&'a Client, &'a Monitor), String>)
    ensures
        window_frame_spec(outputs@, clients@, address@, place@, r),
{
    let window = match crate::hypr::find_client(clients, address) {
        None => {
            assert(first_at(clients@, address@) is None);
            let mut t = cat3("window ", address, " is gone from ");
            t.append(place);
            return Err(t);
        },
        Some(w) => w,
    };
    proof {
        let i = choose|i: int|
            0 <= i < clients@.len() && clients@[i] == *window && window.address@ == address@ && forall|
                j: int,
            | 0 <= j < i ==> clients@[j].address@ != address@;
        lemma_first_at(clients@, address@, i);
    }
    if window.size[0] <= 0 || window.size[1] <= 0 {
        let mut t = cat3("window ", address, " is not mapped (size ");
        t.append(crate::json::fmt_array_debug(window.size).as_str());
        t.append(")");
        return Err(t);
    }
    let monitor = match find_monitor_id(outputs, window.monitor) {
        None => {
            let mut t = cat3("window ", address, " reports monitor ");
            t.append(fmt_i64(window.monitor).as_str());
            t.append(" which ");
            t.append(place);
            t.append(" does not have");
            return Err(t);
        },
        Some(m) => m,
    };
    if !str_eq(monitor.active_workspace.name.as_str(), window.workspace.name.as_str()) {
        let mut t = cat3("window ", address, " sits on workspace ");
        t.append(window.workspace.name.as_str());
        t.append(" while ");
        t.append(place);
        t.append(" shows ");
        t.append(monitor.active_workspace.name.as_str());
        return Err(t);
    }
    if monitor.special_workspace.unicode_len() > 0 {
        let mut t = cat3("special workspace ", monitor.special_workspace.as_str(), " occludes ");
        t.append(place);
        return Err(t);
    }
    Ok((window, monitor))
}

/// Capturability of an agent desktop window, host side then instance side.
pub fn capturable(
    host: &[Monitor],
    outputs: &[Monitor],
    clients: &[Client],
    output: &str,
    workspace: &str,
    address: &str,
) -> (r: Result<(), String>)
    ensures
        exists|h: Result<(), String>|
            host_frames_spec(host@, output@, workspace@, h) && match h {
                Err(t) => r == Err::<(), String>(t),
                Ok(_) => exists|w: Result<(&Client, &Monitor), String>|
                    window_frame_spec(outputs@, clients@, address@, AGENT_DESKTOP@, w) && match w {
                        Err(t) => r == Err::<(), String>(t),
                        Ok(_) => r is Ok,
                    },
            },
{
    let h = host_frames(host, output, workspace);
    let ghost gh = h;
    match h {
        Err(t) => Err(t),
        Ok(()) => {
            let w = window_frame(outputs, clients, address, AGENT_DESKTOP);
            let ghost gw = w;
            let r = match w {
                Err(t) => Err(t),
                Ok(_) => Ok(()),
            };
            assert(window_frame_spec(outputs@, clients@, address@, AGENT_DESKTOP@, gw));
            r
        },
    }
}

/// The nested compositor an isolated command talks to, borrowed from the
/// state that recorded it.
#[derive(Debug, Clone, Copy, PartialEq, Eq)]
pub struct LiveInstance<'a> {
    pub signature: &'a str,
    pub wayland_display: &'a str,
    pub pid: u32,
    /// Host-side console window; only `show`, `hide` and teardown act on it.
    pub console: &'a str,
}

impl<'a> LiveInstance<'a> {
    /// The compositor to address: the instance, never the host.
    pub fn ctl(self) -> (r: Ctl<'a>)
        ensures
            r == Ctl::Instance(self.signature),
    {
        Ctl::Instance(self.signature)
    }
}

/// The reason an unfinished start gives: what stage it stopped at, and how to
/// clean up.
pub open spec fn unfinished_reason(what: Seq<char>, session: Seq<char>) -> Seq<char> {
    what + " (`session start --isolated` did not finish) — run `hyprpilot --session "@ + session
        + " teardown` and start it again"@
}

/// The one gate every isolated command goes through: a start that did not
/// finish, or a compositor whose pid no longer carries the markers of this
/// desktop (dead, or recycled), is refused. `carries` says whether a pid
/// carries both markers of this desktop.
pub open spec fn live_instance_spec<F: Fn(u32) -> bool>(
    session: Seq<char>,
    isolated: Isolated,
    carries: F,
    r: Result<LiveInstance, Error>,
) -> bool {
    match isolated.instance {
        Instance::Pending => r matches Err(Error::AgentDesktopUnready { session: s, reason }) && s@
            == session && reason@ == unfinished_reason(
            "its nested compositor was never spawned"@,
            session,
        ),
        Instance::Spawned { .. } => r matches Err(Error::AgentDesktopUnready { session: s, reason })
            && s@ == session && reason@ == unfinished_reason(
            "its nested compositor was spawned but never mapped a console window this start could identify"@,
            session,
        ),
        Instance::Live { signature, wayland_display, pid, console_address } => exists|alive: bool|
            call_ensures(carries, (pid,), alive) && if alive {
                r matches Ok(l) && l.signature@ == signature@ && l.wayland_display@
                    == wayland_display@ && l.pid == pid && l.console@ == console_address@
            } else {
                r matches Err(Error::AgentDesktopDead { session: s, signature: sig, pid: p }) && s@
                    == session && sig@ == signature@ && p == pid
            },
    }
}

pub fn live_instance<'a, F: Fn(u32) -> bool>(session: &str, isolated: &'a Isolated, carries: &F) -> (r:
    Result<LiveInstance<'a>, Error>)
    requires
        forall|pid: u32| call_requires(*carries, (pid,)),
    ensures
        live_instance_spec(session@, *isolated, *carries, r),
{
    match &isolated.instance {
        Instance::Pending => Err(
            Error::AgentDesktopUnready {
                session: own(session),
                reason: unfinished(session, "its nested compositor was never spawned"),
            },
        ),
        Instance::Spawned { .. } => Err(
            Error::AgentDesktopUnready {
                session: own(session),
                reason: unfinished(
                    session,
                    "its nested compositor was spawned but never mapped a console window this start could identify",
                ),
            },
        ),
        Instance::Live { signature, wayland_display, pid, console_address } => {
            let alive = carries(*pid);
            let r = if alive {
                Ok(
                    LiveInstance {
                        signature: signature.as_str(),
                        wayland_display: wayland_display.as_str(),
                        pid: *pid,
                        console: console_address.as_str(),
                    },
                )
            } else {
                Err(
                    Error::AgentDesktopDead {
                        session: own(session),
                        signature: own(signature.as_str()),
                        pid: *pid,
                    },
                )
            };
            assert(call_ensures(*carries, (*pid,), alive));
            r
        },
    }
}

fn unfinished(session: &str, what: &str) -> (r: String)
    ensures
        r@ == unfinished_reason(what@, session@),
{
    let mut r = cat(what, " (`session start --isolated` did not finish) — run `hyprpilot --session ");
    r.append(session);
    r.append(" teardown` and start it again");
    r
}

/// The window an isolated command acts on: the one the start recorded, or the
/// one `target` last selected.
pub fn recorded_window<'a>(session: &str, isolated: &'a Isolated) -> (r: Result<&'a str, Error>)
    ensures
        match isolated.active_address {
            Some(a) => r matches Ok(t) && t@ == a@,
            None => r matches Err(Error::AgentDesktopUnready { session: s, reason }) && s@
                == session@ && reason@
                == "no window is recorded for it, its app never appeared — run `hyprpilot --session "@
                + session@ + " teardown` and start it again"@,
        },
{
    match &isolated.active_address {
        Some(a) => Ok(a.as_str()),
        None => {
            let mut reason = cat(
                "no window is recorded for it, its app never appeared — run `hyprpilot --session ",
                session,
            );
            reason.append(" teardown` and start it again");
            Err(Error::AgentDesktopUnready { session: own(session), reason })
        },
    }
}

/// What a capture of an agent desktop acts on: the socket grim talks to, the
/// window inside the nested layout, the output that frames it, and the host
/// console whose compositing the frames depend on.
#[derive(Debug)]
pub struct AgentCapture {
    pub wayland_display: String,
    pub window: Client,
    pub monitor: Monitor,
    pub console: String,
}

/// Where the console window has to be composited for the nested compositor to
/// keep receiving frame callbacks.
#[derive(Debug, Clone, Copy, PartialEq, Eq)]
pub enum FrameSite<'a> {
    /// Hidden: on the agent workspace, the active one of the agent's own
    /// headless output.
    Headless { output: &'a str, workspace: &'a str },
    /// Shown: a host window among the user's, which the host has to be
    /// actually showing.
    Shown { console: &'a str },
}

/// Reads the site off the state, never the invariant: `shown` records where
/// the console was put.
pub fn frame_site<'a>(isolated: &'a Isolated, console: &'a str) -> (r: FrameSite<'a>)
    ensures
        isolated.shown ==> r == (FrameSite::Shown { console }),
        !isolated.shown ==> (r matches FrameSite::Headless { output, workspace } && output@
            == isolated.output@ && workspace@ == isolated.workspace@),
{
    if isolated.shown {
        FrameSite::Shown { console }
    } else {
        FrameSite::Headless {
            output: isolated.output.as_str(),
            workspace: isolated.workspace.as_str(),
        }
    }
}

/// The headless half of `frames_reason`, with the documented host-side
/// fallback.
pub open spec fn frozen_reason_spec(
    session: Seq<char>,
    host_output: Seq<char>,
    workspace: Seq<char>,
    observed: Seq<char>,
) -> Seq<char> {
    "the nested compositor only receives frame callbacks while workspace "@ + workspace
        + " is the active one on host output "@ + host_output
        + ", and every capture blocks once it stops ("@ + observed + ") — capture the host side with `grim -o "@
        + host_output + "` as a documented fallback, or run `hyprpilot --session "@ + session
        + " teardown` and start the agent desktop again"@
}

pub fn frozen_reason(session: &str, host_output: &str, workspace: &str, observed: &str) -> (r: String)
    ensures
        r@ == frozen_reason_spec(session@, host_output@, workspace@, observed@),
{
    let mut r = cat("the nested compositor only receives frame callbacks while workspace ", workspace);
    r.append(" is the active one on host output ");
    r.append(host_output);
    r.append(", and every capture blocks once it stops (");
    r.append(observed);
    r.append(") — capture the host side with `grim -o ");
    r.append(host_output);
    r.append("` as a documented fallback, or run `hyprpilot --session ");
    r.append(session);
    r.append(" teardown` and start the agent desktop again");
    r
}

/// Why an agent desktop cannot produce a frame, named where it applies.
pub open spec fn frames_reason_spec(session: Seq<char>, site: FrameSite, observed: Seq<char>) -> Seq<
    char,
> {
    match site {
        FrameSite::Headless { output, workspace } => frozen_reason_spec(
            session,
            output@,
            workspace@,
            observed,
        ),
        FrameSite::Shown { console } => "agent desktop `"@ + session
            + "` is shown, so its console window "@ + console@
            + " only receives frame callbacks while the host composites it where it stands, and every capture blocks once it stops ("@
            + observed
            + ") — switch back to the workspace it sits on, or run `hyprpilot --session "@ + session
            + " session hide` to put it back on its headless output"@,
    }
}

pub fn frames_reason(session: &str, site: &FrameSite, observed: &str) -> (r: String)
    ensures
        r@ == frames_reason_spec(session@, *site, observed@),
{
    match *site {
        FrameSite::Headless { output, workspace } => frozen_reason(session, output, workspace, observed),
        FrameSite::Shown { console } => {
            let mut r = cat3("agent desktop `", session, "` is shown, so its console window ");
            r.append(console);
            r.append(
                " only receives frame callbacks while the host composites it where it stands, and every capture blocks once it stops (",
            );
            r.append(observed);
            r.append(") — switch back to the workspace it sits on, or run `hyprpilot --session ");
            r.append(session);
            r.append(" session hide` to put it back on its headless output");
            r
        },
    }
}

/// An agent desktop is destroyed whole, so a window in it has no disposition
/// to choose between.
pub fn refuse_disposition(on_teardown: Option<Disposition>) -> (r: Result<(), Error>)
    ensures
        match on_teardown {
            None => r is Ok,
            Some(d) => r matches Err(Error::Invalid { what, value, hint }) && what@
                == "target option"@ && value@ == "--on-teardown "@ + (if d == Disposition::Restore {
                "restore"@
            } else {
                "close"@
            }) && hint@
                == "`teardown` takes the whole agent desktop down, so its windows have nothing to be restored to or closed for; omit --on-teardown"@,
        },
{
    match on_teardown {
        None => Ok(()),
        Some(d) => Err(
            invalid(
                "target option",
                cat("--on-teardown ", d.label()),
                String::from_str(
                    "`teardown` takes the whole agent desktop down, so its windows have nothing to be restored to or closed for; omit --on-teardown",
                ),
            ),
        ),
    }
}

/// `--untracked` filters against the windows a shared session adopted; an
/// agent desktop records one window at a time instead.
pub fn refuse_untracked(untracked: bool) -> (r: Result<(), Error>)
    ensures
        !untracked <==> r is Ok,
        untracked ==> (r matches Err(Error::Invalid { what, value, hint }) && what@
            == "target option"@ && value@ == "--untracked"@ && hint@
            == "an agent desktop records one window at a time, not a list of adopted ones; select the window with --match-title, --match-class, --pid or --address"@),
{
    if !untracked {
        return Ok(());
    }
    Err(
        invalid(
            "target option",
            String::from_str("--untracked"),
            String::from_str(
                "an agent desktop records one window at a time, not a list of adopted ones; select the window with --match-title, --match-class, --pid or --address",
            ),
        ),
    )
}

/// One look for a window among the clients of the instance: no match is a
/// retry, several are refused with the candidates as JSON.
pub fn instance_match<'a>(clients: &'a [Client], criteria: &Criteria) -> (r: Result<
    Option<&'a Client>,
    Error,
>)
    ensures
        ({
            let found = candidates(clients@, *criteria, Seq::empty(), false);
            if found.len() == 0 {
                r matches Ok(None)
            } else if found.len() == 1 {
                r matches Ok(Some(c)) && *c == found[0]
            } else {
                r matches Err(Error::WindowAmbiguous { criteria: c, candidates: j }) && c@
                    == criteria_label_spec(*criteria) && j@ == candidates_json(found)
            }
        }),
{
    match resolve(clients, criteria) {
        Resolution::Unique(client) => Ok(Some(client)),
        Resolution::NoMatch => Ok(None),
        Resolution::Ambiguous(found) => Err(session::ambiguous_error(criteria, found)),
    }
}

/// Where the console actually is: hidden on its agent workspace, or shown
/// anywhere else.
#[derive(Debug, Clone, Copy, PartialEq, Eq, Structural)]
pub enum Visibility {
    Shown,
    Hidden,
}

/// Whether the console is hidden: on the agent workspace itself, not on one
/// whose name merely starts the same.
pub fn visibility(console_workspace: &str, agent_workspace: &str) -> (r: Visibility)
    ensures
        r == (if console_workspace@ == agent_workspace@ {
            Visibility::Hidden
        } else {
            Visibility::Shown
        }),
{
    if str_eq(console_workspace, agent_workspace) {
        Visibility::Hidden
    } else {
        Visibility::Shown
    }
}

/// `show` is idempotent only while the console sits on the workspace the user
/// is actually looking at, on one of the user's own monitors.
pub fn shown_where_the_user_looks(
    console_workspace: &str,
    focused: &FocusedWorkspace,
    agent_output: &str,
) -> (r: bool)
    ensures
        r == (console_workspace@ == focused.name@ && focused.monitor@ != agent_output@),
{
    str_eq(console_workspace, focused.name.as_str()) && !str_eq(focused.monitor.as_str(), agent_output)
}

/// The workspace `session show` moves the console to: the one the user is
/// looking at, on a monitor `hyprctl monitors` lists and with no special
/// workspace open over it. A focus on the agent's own headless output is
/// refused.
pub open spec fn user_workspace_spec(
    focused: FocusedWorkspace,
    monitors: Seq<Monitor>,
    session: Seq<char>,
    isolated: Isolated,
    r: Result<String, Error>,
) -> bool {
    let value = focused.name@ + " on "@ + focused.monitor@;
    if focused.monitor@ == isolated.output@ || focused.name@ == isolated.workspace@ {
        r matches Err(Error::Invalid { what, value: v, hint }) && what@ == "user workspace"@ && v@
            == value && hint@ == "the focus is on the agent desktop's own headless output "@
            + isolated.output@
            + " (clicking its workspace in waybar does that); focus one of your own monitors, then run `hyprpilot --session "@
            + session + " session show` again"@
    } else {
        match first_named(monitors, focused.monitor@) {
            None => r matches Err(Error::Tool { command, message }) && command@
                == "hyprctl monitors"@ && message@
                == "`hyprctl activeworkspace` reports workspace "@ + focused.name@ + " on "@
                + focused.monitor@ + ", which `hyprctl monitors` does not list"@,
            Some(i) => if monitors[i].special_workspace@.len() > 0 {
                r matches Err(Error::Invalid { what, value: v, hint }) && what@ == "user workspace"@
                    && v@ == value && hint@ == "special workspace "@ + monitors[i].special_workspace@
                    + " covers "@ + focused.monitor@
                    + ", so the console would land under it and stop receiving frames; close it, then run `hyprpilot --session "@
                    + session + " session show` again"@
            } else {
                r matches Ok(n) && n@ == focused.name@
            },
        }
    }
}

pub fn user_workspace(
    focused: &FocusedWorkspace,
    monitors: &[Monitor],
    session: &str,
    isolated: &Isolated,
) -> (r: Result<String, Error>)
    ensures
        user_workspace_spec(*focused, monitors@, session@, *isolated, r),
{
    let value = cat3(focused.name.as_str(), " on ", focused.monitor.as_str());
    if str_eq(focused.monitor.as_str(), isolated.output.as_str()) || str_eq(
        focused.name.as_str(),
        isolated.workspace.as_str(),
    ) {
        let mut hint = cat(
            "the focus is on the agent desktop's own headless output ",
            isolated.output.as_str(),
        );
        hint.append(
            " (clicking its workspace in waybar does that); focus one of your own monitors, then run `hyprpilot --session ",
        );
        hint.append(session);
        hint.append(" session show` again");
        return Err(invalid("user workspace", value, hint));
    }
    match crate::hypr::find_monitor(monitors, focused.monitor.as_str()) {
        None => {
            assert(first_named(monitors@, focused.monitor@) is None);
            let mut m = cat3(
                "`hyprctl activeworkspace` reports workspace ",
                focused.name.as_str(),
                " on ",
            );
            m.append(focused.monitor.as_str());
            m.append(", which `hyprctl monitors` does not list");
            Err(Error::Tool { command: String::from_str("hyprctl monitors"), message: m })
        },
        Some(monitor) => {
            proof {
                let i = choose|i: int|
                    0 <= i < monitors@.len() && monitors@[i] == *monitor && monitor.name@
                        == focused.monitor@ && forall|j: int|
                        0 <= j < i ==> monitors@[j].name@ != focused.monitor@;
                lemma_first_named(monitors@, focused.monitor@, i);
            }
            if monitor.special_workspace.unicode_len() > 0 {
                let mut hint = cat3(
                    "special workspace ",
                    monitor.special_workspace.as_str(),
                    " covers ",
                );
                hint.append(focused.monitor.as_str());
                hint.append(
                    ", so the console would land under it and stop receiving frames; close it, then run `hyprpilot --session ",
                );
                hint.append(session);
                hint.append(" session show` again");
                return Err(invalid("user workspace", value, hint));
            }
            Ok(own(focused.name.as_str()))
        },
    }
}

/// `address:A`: how a dispatcher names a window.
pub fn window_arg(address: &str) -> (r: String)
    ensures
        r@ == "address:"@ + address@,
{
    cat("address:", address)
}

/// The configured size as window geometry, each dimension a signed pixel
/// count.
pub fn window_size(size: [u32; 2]) -> (r: Result<[i32; 2], Error>)
    ensures
        size[0] <= i32::MAX && size[1] <= i32::MAX ==> r == Ok::<[i32; 2], Error>(
            [size[0] as i32, size[1] as i32],
        ),
        !(size[0] <= i32::MAX && size[1] <= i32::MAX) ==> (r matches Err(
            Error::Invalid { what, value, hint },
        ) && what@ == "agent desktop size"@ && value@ == dec(size[0] as nat) + "x"@ + dec(
            size[1] as nat,
        ) && hint@ == "each dimension must fit a signed 32-bit pixel count"@),
{
    if size[0] > 2147483647 || size[1] > 2147483647 {
        let mut value = fmt_u64(size[0] as u64);
        value.append("x");
        value.append(fmt_u64(size[1] as u64).as_str());
        return Err(
            invalid(
                "agent desktop size",
                value,
                String::from_str("each dimension must fit a signed 32-bit pixel count"),
            ),
        );
    }
    let r: [i32; 2] = [size[0] as i32, size[1] as i32];
    assert(r =~= [size[0] as i32, size[1] as i32]);
    Ok(r)
}

/// What a console move has to end up as; `None` means not asked for.
#[derive(Debug, Clone, Copy)]
pub struct ConsoleWant<'a> {
    pub workspace: &'a str,
    pub floating: Option<bool>,
    pub at: Option<[i32; 2]>,
}

/// Whether the console is where a move wanted it, checking only what was
/// asked for; the first disagreement is what was observed.
pub open spec fn console_settled_spec(console: Client, want: ConsoleWant, r: Result<(), String>) -> bool {
    if console.workspace.name@ != want.workspace@ {
        r matches Err(t) && t@ == "on workspace "@ + console.workspace.name@
    } else if want.floating == Some(!console.floating) {
        r matches Err(t) && t@ == "floating is "@ + crate::json::json_bool(console.floating)
    } else if want.at matches Some(at) && (at[0] != console.at[0] || at[1] != console.at[1]) {
        r matches Err(t) && t@ == "at "@ + crate::json::array_debug(console.at)
    } else {
        r is Ok
    }
}

pub fn console_settled(console: &Client, want: &ConsoleWant) -> (r: Result<(), String>)
    ensures
        console_settled_spec(*console, *want, r),
{
    if !str_eq(console.workspace.name.as_str(), want.workspace) {
        return Err(cat("on workspace ", console.workspace.name.as_str()));
    }
    if want.floating == Some(!console.floating) {
        return Err(cat("floating is ", if console.floating { "true" } else { "false" }));
    }
    if let Some(at) = want.at {
        if at[0] != console.at[0] || at[1] != console.at[1] {
            return Err(cat("at ", crate::json::fmt_array_debug(console.at).as_str()));
        }
    }
    Ok(())
}

/// What the exit ladder of a nested compositor does next.
#[derive(Debug)]
pub enum ExitAction {
    /// The compositor is gone; the note says how.
    Exited(String),
    /// Send this signal, then wait.
    Signal(&'static str),
    /// Wait one poll interval.
    Wait,
    /// It survived the whole ladder: the teardown refuses to go on.
    GiveUp(Error),
}

/// The note a compositor that is gone leaves: it exited on the polite request,
/// or died after the last signal sent.
pub open spec fn exited_note(label: Seq<char>, sent: Option<&'static str>) -> Seq<char> {
    match sent {
        None => label + " exited on `dispatch exit`"@,
        Some(s) => label + " died after SIG"@ + s@,
    }
}

/// One step of the exit ladder `elapsed` milliseconds after `dispatch exit`
/// was sent, given whether the compositor is still alive and the last signal
/// sent: `SIGTERM` once the polite wait is over, `SIGKILL` once its wait is
/// over too, each sent once, then a refusal.
pub fn exit_step(
    label: &str,
    session: &str,
    ladder: session::Escalation,
    sent: Option<&'static str>,
    alive: bool,
    elapsed: u64,
) -> (r: ExitAction)
    ensures
        !alive ==> (r matches ExitAction::Exited(note) && note@ == exited_note(label@, sent)),
        alive && elapsed < ladder.polite ==> r is Wait,
        alive && ladder.polite <= elapsed < ladder.polite + ladder.term ==> if (sent matches Some(s)
            && s@ == "TERM"@) {
            r is Wait
        } else {
            r matches ExitAction::Signal(s) && s@ == "TERM"@
        },
        alive && ladder.polite + ladder.term <= elapsed < ladder.polite + ladder.term + ladder.kill
            ==> if (sent matches Some(s) && s@ == "KILL"@) {
            r is Wait
        } else {
            r matches ExitAction::Signal(s) && s@ == "KILL"@
        },
        alive && ladder.polite + ladder.term + ladder.kill <= elapsed ==> (r matches ExitAction::GiveUp(
            e,
        ) && e matches Error::AgentDesktopAlive { session: s, detail } && s@ == session@ && detail@
            == label@ + " survived `dispatch exit`, SIGTERM and SIGKILL"@),
{
    if !alive {
        return ExitAction::Exited(
            match sent {
                None => cat(label, " exited on `dispatch exit`"),
                Some(s) => cat3(label, " died after SIG", s),
            },
        );
    }
    match ladder.step(elapsed) {
        session::Step::Signal(signal) => {
            let repeated = match sent {
                Some(s) => str_eq(s, signal),
                None => false,
            };
            if repeated {
                ExitAction::Wait
            } else {
                ExitAction::Signal(signal)
            }
        },
        session::Step::Wait => ExitAction::Wait,
        session::Step::GiveUp => ExitAction::GiveUp(
            Error::AgentDesktopAlive {
                session: own(session),
                detail: cat(label, " survived `dispatch exit`, SIGTERM and SIGKILL"),
            },
        ),
    }
}

/// The note on sending one signal of the ladder.
pub fn signal_note(label: &str, signal: &str, result: &Result<(), Error>) -> (r: String)
    ensures
        r@ == match result {
            Ok(_) => label@ + ": SIG"@ + signal@ + " sent"@,
            Err(e) => label@ + ": SIG"@ + signal@ + " failed ("@ + e.text() + ")"@,
        },
{
    let mut r = cat3(label, ": SIG", signal);
    match result {
        Ok(()) => r.append(" sent"),
        Err(e) => {
            r.append(" failed (");
            r.append(e.message().as_str());
            r.append(")");
        },
    }
    r
}

/// The note on a compositor that refused the polite request.
pub fn refused_exit_note(label: &str, error: &Error) -> (r: String)
    ensures
        r@ == label@ + " refused `dispatch exit` ("@ + error.text() + ")"@,
{
    let mut r = cat(label, " refused `dispatch exit` (");
    r.append(error.message().as_str());
    r.append(")");
    r
}

/// How a list of pids reads in a note: `[1, 2, 3]`.
pub open spec fn pids_text(pids: Seq<u32>) -> Seq<char> {
    "["@ + joined_by(pids.map_values(|p: u32| dec(p as nat)), ", "@) + "]"@
}

pub fn fmt_pids(pids: &Vec<u32>) -> (r: String)
    ensures
        r@ == pids_text(pids@),
{
    let mut words: Vec<String> = Vec::new();
    let mut i: usize = 0;
    while i < pids.len()
        invariant
            i <= pids@.len(),
            string_views(words@) == pids@.subrange(0, i as int).map_values(|p: u32| dec(p as nat)),
        decreases pids@.len() - i,
    {
        let ghost before = words@;
        words.push(fmt_u64(pids[i] as u64));
        proof {
            crate::hypr::lemma_string_views_push(before, words@.last());
            assert(pids@.subrange(0, i + 1).map_values(|p: u32| dec(p as nat)) =~= pids@.subrange(
                0,
                i as int,
            ).map_values(|p: u32| dec(p as nat)).push(dec(pids@[i as int] as nat)));
        }
        i += 1;
    }
    assert(pids@.subrange(0, pids@.len() as int) =~= pids@);
    cat3("[", join_with(&words, ", ").as_str(), "]")
}

/// The rung of the marker sweep, and the pids already signalled on it.
#[derive(Debug)]
pub struct SweepState {
    pub rung: Option<&'static str>,
    pub signalled: Vec<u32>,
}

/// What one look at the marked processes decides.
#[derive(Debug)]
pub enum SweepAction {
    /// Nothing of the desktop is left.
    Done,
    /// Wait one poll interval.
    Wait,
    /// Send `signal` to each of `pids`, then wait; `note` reports it when
    /// there is anyone to signal.
    Signal { signal: &'static str, pids: Vec<u32>, note: Option<String> },
    /// Processes survived the whole ladder.
    GiveUp(RestoreFailure),
}

/// The pids of `pids` not in `signalled`, in order.
pub open spec fn fresh_pids(pids: Seq<u32>, signalled: Seq<u32>) -> Seq<u32>
    decreases pids.len(),
{
    if pids.len() == 0 {
        Seq::empty()
    } else if signalled.contains(pids.last()) {
        fresh_pids(pids.drop_last(), signalled)
    } else {
        fresh_pids(pids.drop_last(), signalled).push(pids.last())
    }
}

pub proof fn lemma_fresh_pids_are_fresh(pids: Seq<u32>, signalled: Seq<u32>)
    ensures
        forall|i: int|
            0 <= i < fresh_pids(pids, signalled).len() ==> !signalled.contains(
                #[trigger] fresh_pids(pids, signalled)[i],
            ) && pids.contains(fresh_pids(pids, signalled)[i]),
    decreases pids.len(),
{
    if pids.len() > 0 {
        lemma_fresh_pids_are_fresh(pids.drop_last(), signalled);
        assert forall|i: int|
            0 <= i < fresh_pids(pids, signalled).len() implies !signalled.contains(
                #[trigger] fresh_pids(pids, signalled)[i],
            ) && pids.contains(fresh_pids(pids, signalled)[i]) by {
            let f = fresh_pids(pids, signalled);
            if i < fresh_pids(pids.drop_last(), signalled).len() {
                let p = fresh_pids(pids.drop_last(), signalled)[i];
                assert(f[i] == p);
                let k = choose|k: int| 0 <= k < pids.drop_last().len() && pids.drop_last()[k] == p;
                assert(pids[k] == p);
            } else {
                assert(f[i] == pids.last());
                assert(pids[pids.len() - 1] == pids.last());
            }
        }
    }
}

fn u32_in(v: &Vec<u32>, x: u32) -> (r: bool)
    ensures
        r == v@.contains(x),
{
    let mut i: usize = 0;
    while i < v.len()
        invariant
            i <= v@.len(),
            forall|j: int| 0 <= j < i ==> v@[j] != x,
        decreases v@.len() - i,
    {
        if v[i] == x {
            return true;
        }
        i += 1;
    }
    false
}

/// One look at the processes of the desktop: nothing left is done; on a rung
/// of the ladder each pid is signalled once, one that appears later still
/// gets one, and a new rung starts over; past the ladder the sweep fails,
/// naming who is left.
pub fn sweep_step(
    state: &mut SweepState,
    ladder: session::Escalation,
    elapsed: u64,
    pids: &Vec<u32>,
    marker_label: &str,
) -> (r: SweepAction)
    ensures
        pids@.len() == 0 ==> r is Done && *final(state) == *old(state),
        pids@.len() > 0 && elapsed < ladder.polite ==> r is Wait && *final(state) == *old(state),
        pids@.len() > 0 && ladder.polite + ladder.term + ladder.kill <= elapsed ==> (r matches SweepAction::GiveUp(
            f,
        ) && f.what@ == "agent desktop"@ && f.expected@ == "no process left carrying "@
            + marker_label@ && f.actual@ == "pids "@ + pids_text(pids@) + " still alive"@),
        pids@.len() > 0 && ladder.polite <= elapsed < ladder.polite + ladder.term + ladder.kill ==> (
        r matches SweepAction::Signal { signal, pids: fresh, note } && ({
            let signal_name: Seq<char> = if elapsed < ladder.polite + ladder.term {
                "TERM"@
            } else {
                "KILL"@
            };
            let same_rung = old(state).rung matches Some(s) && s@ == signal_name;
            let before: Seq<u32> = if same_rung {
                old(state).signalled@
            } else {
                Seq::empty()
            };
            &&& signal@ == signal_name
            &&& fresh@ == fresh_pids(pids@, before)
            &&& final(state).rung == Some(signal)
            &&& final(state).signalled@ == before + fresh@
            &&& match note {
                Some(n) => fresh@.len() > 0 && n@ == "SIG"@ + signal_name + " sent to pids "@
                    + pids_text(fresh@) + " of the agent desktop"@,
                None => fresh@.len() == 0,
            }
        })),
{
    if pids.len() == 0 {
        return SweepAction::Done;
    }
    match ladder.step(elapsed) {
        session::Step::Wait => SweepAction::Wait,
        session::Step::GiveUp => {
            let mut expected = String::from_str("no process left carrying ");
            expected.append(marker_label);
            let mut actual = cat("pids ", fmt_pids(pids).as_str());
            actual.append(" still alive");
            SweepAction::GiveUp(RestoreFailure::new("agent desktop", expected, actual))
        },
        session::Step::Signal(signal) => {
            let same_rung = match state.rung {
                Some(s) => str_eq(s, signal),
                None => false,
            };
            state.rung = Some(signal);
            if !same_rung {
                state.signalled = Vec::new();
            }
            let ghost before = state.signalled@;
            let mut fresh: Vec<u32> = Vec::new();
            let mut i: usize = 0;
            while i < pids.len()
                invariant
                    i <= pids@.len(),
                    fresh@ == fresh_pids(pids@.subrange(0, i as int), before),
                    state.signalled@ == before,
                    state.rung == Some(signal),
                decreases pids@.len() - i,
            {
                assert(pids@.subrange(0, i + 1).drop_last() =~= pids@.subrange(0, i as int));
                if !u32_in(&state.signalled, pids[i]) {
                    fresh.push(pids[i]);
                }
                i += 1;
            }
            assert(pids@.subrange(0, pids@.len() as int) =~= pids@);
            let mut k: usize = 0;
            while k < fresh.len()
                invariant
                    k <= fresh@.len(),
                    state.signalled@ == before + fresh@.subrange(0, k as int),
                    state.rung == Some(signal),
                decreases fresh@.len() - k,
            {
                state.signalled.push(fresh[k]);
                assert(before + fresh@.subrange(0, k + 1) =~= (before + fresh@.subrange(
                    0,
                    k as int,
                )).push(fresh@[k as int]));
                k += 1;
            }
            assert(fresh@.subrange(0, fresh@.len() as int) =~= fresh@);
            let note = if fresh.len() > 0 {
                let mut n = cat3("SIG", signal, " sent to pids ");
                n.append(fmt_pids(&fresh).as_str());
                n.append(" of the agent desktop");
                Some(n)
            } else {
                None
            };
            SweepAction::Signal { signal, pids: fresh, note }
        },
    }
}

/// A sweep signals each pid at most once per rung: nobody in what a step
/// signals was signalled on that rung before, and everybody it signals is one
/// of the pids it was shown.
pub proof fn a_sweep_signals_each_pid_once_per_rung(pids: Seq<u32>, before: Seq<u32>)
    ensures
        forall|i: int|
            0 <= i < fresh_pids(pids, before).len() ==> !before.contains(
                #[trigger] fresh_pids(pids, before)[i],
            ) && pids.contains(fresh_pids(pids, before)[i]),
{
    lemma_fresh_pids_are_fresh(pids, before);
}

/// How many runners a probe of the frame invariant takes at most: the
/// monitors, then the clients when the console is shown.
pub const PROBE_RUNNERS: usize = 2;

/// What a probe of the frame invariant gave: the host's monitors read with
/// the pool's first runner, then, when the console is shown, its clients
/// with the second. No other runner is taken.
pub open spec fn probed_spec<R: FnOnce(Vec<String>) -> Result<ProcessOutput, String>, PM: Fn(String) -> Result<
    Vec<Monitor>,
    String,
>, PC: Fn(String) -> Result<Vec<Client>, String>>(
    pool: Seq<R>,
    after: Seq<R>,
    pm: PM,
    pc: PC,
    site: FrameSite,
    r: Result<Result<(), String>, Error>,
) -> bool {
    exists|m: Result<Vec<Monitor>, Error>|
        queried(nth_runner(pool, 0), pm, Ctl::Host, seq!["monitors"@], m) && match m {
            Err(e) => r == Err::<Result<(), String>, Error>(e) && spent(pool, after, 1),
            Ok(monitors) => match site {
                FrameSite::Headless { output, workspace } => spent(pool, after, 1) && (r matches Ok(h)
                    && host_frames_spec(monitors@, output@, workspace@, h)),
                FrameSite::Shown { console } => spent(pool, after, 2) && exists|c: Result<Vec<Client>, Error>|
                    queried(nth_runner(pool, 1), pc, Ctl::Host, seq!["clients"@], c) && match c {
                        Err(e) => r == Err::<Result<(), String>, Error>(e),
                        Ok(clients) => r matches Ok(h) && exists|
                            w: Result<(&Client, &Monitor), String>,
                        |
                            window_frame_spec(monitors@, clients@, console@, HOST@, w) && match w {
                                Ok(_) => h is Ok,
                                Err(t) => h == Err::<(), String>(t),
                            },
                    },
            },
        }
}

/// One host-side observation of the frame invariant, each read with its
/// own runner of `runners`.
pub fn frames_probe<R: FnOnce(Vec<String>) -> Result<ProcessOutput, String>, PM: Fn(String) -> Result<
    Vec<Monitor>,
    String,
>, PC: Fn(String) -> Result<Vec<Client>, String>>(runners: &mut Vec<R>, pm: &PM, pc: &PC, site: &FrameSite) -> (r:
    Result<Result<(), String>, Error>)
    requires
        old(runners)@.len() >= PROBE_RUNNERS,
        runnable(old(runners)@),
        forall|s: String| call_requires(*pm, (s,)),
        forall|s: String| call_requires(*pc, (s,)),
    ensures
        probed_spec(old(runners)@, final(runners)@, *pm, *pc, *site, r),
        runnable(final(runners)@),
{
    let ghost pool = runners@;
    let monitors_run = next_runner(runners);
    let m = monitors(monitors_run, pm);
    let ghost gm = m;
    assert(queried(nth_runner(pool, 0), *pm, Ctl::Host, seq!["monitors"@], gm));
    let monitors = match m {
        Err(e) => return Err(e),
        Ok(list) => list,
    };
    match *site {
        FrameSite::Headless { output, workspace } => Ok(
            host_frames(monitors.as_slice(), output, workspace),
        ),
        FrameSite::Shown { console } => {
            let ghost mid = runners@;
            let clients_run = next_runner(runners);
            assert(nth_runner(mid, 0) == nth_runner(pool, 1));
            assert(runners@ =~= pool.subrange(0, pool.len() - 2));
            let c = clients(clients_run, pc);
            let ghost gc = c;
            assert(queried(nth_runner(pool, 1), *pc, Ctl::Host, seq!["clients"@], gc));
            let list = match c {
                Err(e) => return Err(e),
                Ok(list) => list,
            };
            let w = window_frame(monitors.as_slice(), list.as_slice(), console, HOST);
            let ghost gw = w;
            let r = match w {
                Ok(_) => Ok(Ok(())),
                Err(t) => Ok(Err(t)),
            };
            assert(window_frame_spec(monitors@, list@, console@, HOST@, gw));
            r
        },
    }
}

/// What a blocked capture reports of the frame invariant: what was observed
/// when it is broken, that it holds when it does, or that the host could not
/// be read.
pub open spec fn observation_spec(site: FrameSite, probed: Result<Result<(), String>, Error>) -> Seq<
    char,
> {
    match probed {
        Ok(Err(observed)) => observed@,
        Ok(Ok(_)) => match site {
            FrameSite::Headless { output, workspace } => "workspace "@ + workspace@
                + " is still active on "@ + output@ + ", so the block is elsewhere"@,
            FrameSite::Shown { console } => "console window "@ + console@
                + " is still mapped on the workspace it was shown on, so the block is elsewhere"@,
        },
        Err(e) => "reading the host failed: "@ + e.text(),
    }
}

/// Reads the host side of the frame invariant, so a blocked capture reports
/// what was observed rather than what is likely. Each read has its own
/// runner of `runners`.
pub fn frames_observation<R: FnOnce(Vec<String>) -> Result<ProcessOutput, String>, PM: Fn(String) -> Result<
    Vec<Monitor>,
    String,
>, PC: Fn(String) -> Result<Vec<Client>, String>>(runners: &mut Vec<R>, pm: &PM, pc: &PC, site: &FrameSite) -> (r:
    String)
    requires
        old(runners)@.len() >= PROBE_RUNNERS,
        runnable(old(runners)@),
        forall|s: String| call_requires(*pm, (s,)),
        forall|s: String| call_requires(*pc, (s,)),
    ensures
        exists|p: Result<Result<(), String>, Error>|
            probed_spec(old(runners)@, final(runners)@, *pm, *pc, *site, p) && r@ == observation_spec(*site, p),
{
    let ghost pool = runners@;
    let p = frames_probe(runners, pm, pc, site);
    let ghost gp = p;
    let r = match p {
        Ok(Err(observed)) => observed,
        Ok(Ok(())) => match *site {
            FrameSite::Headless { output, workspace } => {
                let mut t = cat3("workspace ", workspace, " is still active on ");
                t.append(output);
                t.append(", so the block is elsewhere");
                t
            },
            FrameSite::Shown { console } => cat3(
                "console window ",
                console,
                " is still mapped on the workspace it was shown on, so the block is elsewhere",
            ),
        },
        Err(e) => cat("reading the host failed: ", e.message().as_str()),
    };
    assert(probed_spec(pool, runners@, *pm, *pc, *site, gp));
    assert(r@ == observation_spec(*site, gp));
    r
}

/// How many runners resolving a capture takes at most: the probe of the
/// frame invariant, then the instance's monitors and clients.
pub const CAPTURE_RUNNERS: usize = 4;

/// What a capture of an agent desktop resolves to: the live instance, the
/// recorded window, the frame invariant on the host from the pool's first
/// runners, then the window framed inside the instance, its monitors and
/// clients each read with the next runner. No other runner is taken.
pub open spec fn capture_target_spec<R: FnOnce(Vec<String>) -> Result<ProcessOutput, String>, PM: Fn(
    String,
) -> Result<Vec<Monitor>, String>, PC: Fn(String) -> Result<Vec<Client>, String>, F: Fn(u32) -> bool>(
    pool: Seq<R>,
    after: Seq<R>,
    pm: PM,
    pc: PC,
    carries: F,
    session: Seq<char>,
    isolated: Isolated,
    r: Result<AgentCapture, Error>,
) -> bool {
    exists|live: Result<LiveInstance, Error>|
        live_instance_spec(session, isolated, carries, live) && match live {
            Err(e) => r == Err::<AgentCapture, Error>(e) && after == pool,
            Ok(instance) => match isolated.active_address {
                None => after == pool && (r matches Err(Error::AgentDesktopUnready { session: s, reason }) && s@
                    == session && reason@
                    == "no window is recorded for it, its app never appeared — run `hyprpilot --session "@
                    + session + " teardown` and start it again"@),
                Some(address) => exists|site: FrameSite, p: Result<Result<(), String>, Error>, p1: Seq<R>|
                    (if isolated.shown {
                        site == FrameSite::Shown { console: instance.console }
                    } else {
                        site matches FrameSite::Headless { output, workspace } && output@
                            == isolated.output@ && workspace@ == isolated.workspace@
                    }) && probed_spec(pool, p1, pm, pc, site, p) && match p {
                        Err(e) => r == Err::<AgentCapture, Error>(e) && after == p1,
                        Ok(Err(observed)) => after == p1 && (r matches Err(
                            Error::AgentDesktopUnready { session: s, reason },
                        ) && s@ == session && reason@ == frames_reason_spec(
                            session,
                            site,
                            observed@,
                        )),
                        Ok(Ok(_)) => exists|m: Result<Vec<Monitor>, Error>|
                            #[trigger] queried(nth_runner(p1, 0), pm, instance.ctl_spec(), seq!["monitors"@], m)
                                && match m {
                                Err(e) => r == Err::<AgentCapture, Error>(e) && spent(p1, after, 1),
                                Ok(outputs) => spent(p1, after, 2) && exists|c: Result<Vec<Client>, Error>|
                                    #[trigger] queried(
                                    nth_runner(p1, 1),
                                    pc,
                                    instance.ctl_spec(),
                                    seq!["clients"@],
                                    c,
                                ) && match c {
                                    Err(e) => r == Err::<AgentCapture, Error>(e),
                                    Ok(clients) => exists|w: Result<(&Client, &Monitor), String>|
                                        window_frame_spec(
                                            outputs@,
                                            clients@,
                                            address@,
                                            AGENT_DESKTOP@,
                                            w,
                                        ) && match w {
                                            Err(t) => r matches Err(
                                                Error::AgentDesktopUnready { session: s, reason },
                                            ) && s@ == session && reason == t,
                                            Ok((window, monitor)) => r matches Ok(capture)
                                                && capture.wayland_display@
                                                == instance.wayland_display@ && capture.window
                                                == *window && capture.monitor == *monitor
                                                && capture.console@ == instance.console@,
                                        },
                                },
                            },
                    },
            },
        }
}

impl<'a> LiveInstance<'a> {
    /// The compositor to address, as a value.
    pub open spec fn ctl_spec(self) -> Ctl<'a> {
        Ctl::Instance(self.signature)
    }
}

/// Resolves a capture inside an agent desktop, refusing a desktop that cannot
/// produce a frame instead of letting grim block on screencopy. Each read
/// has its own runner of `runners`.
pub fn capture_target<R: FnOnce(Vec<String>) -> Result<ProcessOutput, String>, PM: Fn(String) -> Result<
    Vec<Monitor>,
    String,
>, PC: Fn(String) -> Result<Vec<Client>, String>, F: Fn(u32) -> bool>(
    runners: &mut Vec<R>,
    pm: &PM,
    pc: &PC,
    carries: &F,
    session: &str,
    isolated: &Isolated,
) -> (r: Result<AgentCapture, Error>)
    requires
        old(runners)@.len() >= CAPTURE_RUNNERS,
        runnable(old(runners)@),
        forall|s: String| call_requires(*pm, (s,)),
        forall|s: String| call_requires(*pc, (s,)),
        forall|pid: u32| call_requires(*carries, (pid,)),
    ensures
        capture_target_spec(old(runners)@, final(runners)@, *pm, *pc, *carries, session@, *isolated, r),
{
    let ghost pool = runners@;
    let live = live_instance(session, isolated, carries);
    let ghost glive = live;
    let instance = match live {
        Err(e) => return Err(e),
        Ok(instance) => instance,
    };
    let address = match recorded_window(session, isolated) {
        Err(e) => return Err(e),
        Ok(a) => a,
    };
    let site = frame_site(isolated, instance.console);
    let p = frames_probe(runners, pm, pc, &site);
    let ghost gp = p;
    let ghost p1 = runners@;
    match p {
        Err(e) => return Err(e),
        Ok(Err(observed)) => {
            let r = Err(
                Error::AgentDesktopUnready {
                    session: own(session),
                    reason: frames_reason(session, &site, observed.as_str()),
                },
            );
            assert(probed_spec(pool, p1, *pm, *pc, site, gp));
            return r;
        },
        Ok(Ok(())) => {},
    }
    assert(p1.len() >= 2);
    let ctl = instance.ctl();
    let monitors_run = next_runner(runners);
    let m = monitors_on(monitors_run, pm, ctl);
    let ghost gm = m;
    assert(queried(nth_runner(p1, 0), *pm, instance.ctl_spec(), seq!["monitors"@], gm));
    let outputs = match m {
        Err(e) => {
            assert(probed_spec(pool, p1, *pm, *pc, site, gp));
            return Err(e);
        },
        Ok(list) => list,
    };
    let ghost mid = runners@;
    let clients_run = next_runner(runners);
    assert(nth_runner(mid, 0) == nth_runner(p1, 1));
    assert(runners@ =~= p1.subrange(0, p1.len() - 2));
    let c = clients_on(clients_run, pc, ctl);
    let ghost gc = c;
    assert(queried(nth_runner(p1, 1), *pc, instance.ctl_spec(), seq!["clients"@], gc));
    let list = match c {
        Err(e) => {
            assert(probed_spec(pool, p1, *pm, *pc, site, gp));
            return Err(e);
        },
        Ok(list) => list,
    };
    let w = window_frame(outputs.as_slice(), list.as_slice(), address, AGENT_DESKTOP);
    let ghost gw = w;
    let r = match w {
        Err(t) => Err(Error::AgentDesktopUnready { session: own(session), reason: t }),
        Ok((window, monitor)) => Ok(
            AgentCapture {
                wayland_display: own(instance.wayland_display),
                window: window.duplicate(),
                monitor: monitor.duplicate(),
                console: own(instance.console),
            },
        ),
    };
    assert(window_frame_spec(outputs@, list@, address@, AGENT_DESKTOP@, gw));
    assert(probed_spec(pool, p1, *pm, *pc, site, gp));
    r
}

/// An agent desktop starts empty, so `--isolated` needs the app to launch in
/// it.
pub fn require_app<'a>(app: Option<&'a str>) -> (r: Result<&'a str, Error>)
    ensures
        match app {
            Some(a) => r == Ok::<&str, Error>(a),
            None => r matches Err(Error::Invalid { what, value, hint }) && what@
                == "session start --isolated"@ && value@ == "(no --app)"@ && hint@
                == "an agent desktop starts empty; pass --app CMD to launch the app inside it"@,
        },
{
    match app {
        Some(a) => Ok(a),
        None => {
            let value = String::from_str("(no --app)");
            let hint = String::from_str(
                "an agent desktop starts empty; pass --app CMD to launch the app inside it",
            );
            proof {
                reveal_strlit("(no --app)");
                reveal_strlit("an agent desktop starts empty; pass --app CMD to launch the app inside it");
            }
            Err(invalid("session start --isolated", value, hint))
        },
    }
}

/// The state a start publishes with its claim: every resource named, none
/// acquired yet.
pub fn initial_payload(output: &str, workspace: &str, nonce: &str, size: [u32; 2]) -> (r: Isolated)
    ensures
        r.output@ == output@,
        r.workspace@ == workspace@,
        r.instance_nonce@ == nonce@,
        r.size == size,
        !r.shown,
        r.active_address is None,
        r.instance is Pending,
        r.host@.len() == 0,
{
    Isolated {
        output: own(output),
        workspace: own(workspace),
        size,
        instance_nonce: own(nonce),
        shown: false,
        active_address: None,
        instance: Instance::Pending,
        host: Vec::new(),
    }
}

/// What one look for the launched app found: the window, or how many other
/// windows the desktop shows; two matching windows end the wait.
pub open spec fn launched_spec(clients: Seq<Client>, criteria: Criteria, r: Result<Result<Client, String>, Error>) -> bool {
    let found = candidates(clients, criteria, Seq::empty(), false);
    if found.len() == 0 {
        r matches Ok(Err(t)) && t@ == dec(clients.len()) + " windows in the agent desktop"@
    } else if found.len() == 1 {
        r matches Ok(Ok(c)) && c == found[0]
    } else {
        r matches Err(Error::WindowAmbiguous { criteria: c, candidates: j }) && c@ == criteria_label_spec(criteria)
            && j@ == candidates_json(found)
    }
}

pub fn launched_window(clients: &[Client], criteria: &Criteria) -> (r: Result<Result<Client, String>, Error>)
    ensures
        launched_spec(clients@, *criteria, r),
{
    match resolve(clients, criteria) {
        Resolution::Unique(c) => Ok(Ok(c.duplicate())),
        Resolution::NoMatch => Ok(Err(cat(fmt_u64(clients.len() as u64).as_str(), " windows in the agent desktop"))),
        Resolution::Ambiguous(found) => Err(session::ambiguous_error(criteria, found)),
    }
}

/// What a finished start reports.
pub open spec fn ready_text(
    name: Seq<char>,
    window: Client,
    live: LiveInstance,
    workspace: Seq<char>,
    output: Seq<char>,
    size: [u32; 2],
) -> Seq<char> {
    "agent desktop `"@ + name + "` ready — window "@ + window.address@ + " (`"@ + window.title@
        + "`) in nested instance "@ + live.signature@ + " ("@ + live.wayland_display@ + ", pid "@ + dec(
        live.pid as nat,
    ) + ") on workspace "@ + workspace + " of output "@ + output + " ("@ + dec(size[0] as nat) + "x"@
        + dec(size[1] as nat) + ")"@
}

pub fn ready_message(
    name: &str,
    window: &Client,
    live: LiveInstance,
    workspace: &str,
    output: &str,
    size: [u32; 2],
) -> (r: String)
    ensures
        r@ == ready_text(name@, *window, live, workspace@, output@, size),
{
    let mut r = cat3("agent desktop `", name, "` ready — window ");
    r.append(window.address.as_str());
    r.append(" (`");
    r.append(window.title.as_str());
    r.append("`) in nested instance ");
    r.append(live.signature);
    r.append(" (");
    r.append(live.wayland_display);
    r.append(", pid ");
    r.append(fmt_u64(live.pid as u64).as_str());
    r.append(") on workspace ");
    r.append(workspace);
    r.append(" of output ");
    r.append(output);
    r.append(" (");
    r.append(fmt_u64(size[0] as u64).as_str());
    r.append("x");
    r.append(fmt_u64(size[1] as u64).as_str());
    r.append(")");
    r
}

/// The error a failed start reports: its own, with whatever the rollback
/// could not undo beside it.
pub fn rolled_back(error: Error, restore: Vec<RestoreFailure>) -> (r: Error)
    ensures
        restore@.len() == 0 ==> r == error,
        restore@.len() > 0 ==> (r matches Error::Guarded { action: Some(a), restore: f } && *a == error && f@
            == restore@),
{
    if restore.len() == 0 {
        error
    } else {
        Error::Guarded { action: Some(Box::new(error)), restore }
    }
}

/// Why a rollback stopped short of removing the output: the console window
/// it renders was not reaped by the host.
pub fn unreaped_console(output: &str, detail: String) -> (r: RestoreFailure)
    ensures
        r.what@ == "agent console window"@,
        r.expected@ == "reaped by the host before output "@ + output@ + " is removed"@,
        r.actual@ == detail@,
{
    RestoreFailure::new("agent console window", cat3("reaped by the host before output ", output, " is removed"), detail)
}

/// The words of a step, by view.
pub open spec fn words(w: Seq<String>) -> Seq<Seq<char>> {
    string_views(w)
}

fn step2(a: &str, b: String) -> (r: Vec<String>)
    ensures
        string_views(r@) == seq![a@, b@],
{
    let mut r: Vec<String> = Vec::new();
    r.push(own(a));
    r.push(b);
    assert(string_views(r@) =~= seq![a@, b@]);
    r
}

/// What `session show` dispatches on the host, in order: the console leaves
/// fullscreen, floats, keeps the size the agent desktop renders at, and moves
/// to the user's workspace.
pub open spec fn show_steps_spec(console: Seq<char>, size: [i32; 2], destination: Seq<char>) -> Seq<Seq<Seq<char>>> {
    seq![
        seq!["fullscreenstate"@, "0"@, "0"@],
        seq!["setfloating"@, "address:"@ + console],
        seq!["resizewindowpixel"@, session::exact_at(size[0], size[1], console)],
        seq!["movetoworkspacesilent"@, session::selector_spec(destination) + ",address:"@ + console],
    ]
}

pub fn show_steps(console: &str, size: [i32; 2], destination: &str) -> (r: Vec<Vec<String>>)
    ensures
        crate::hypr::steps_view(r@) == show_steps_spec(console@, size, destination@),
{
    let mut r: Vec<Vec<String>> = Vec::new();
    let mut first: Vec<String> = Vec::new();
    first.push(own("fullscreenstate"));
    first.push(own("0"));
    first.push(own("0"));
    assert(string_views(first@) =~= seq!["fullscreenstate"@, "0"@, "0"@]);
    r.push(first);
    r.push(step2("setfloating", window_arg(console)));
    r.push(step2("resizewindowpixel", session::exact_text(size[0], size[1], console)));
    let mut target = session::workspace_selector(destination);
    target.append(",address:");
    target.append(console);
    r.push(step2("movetoworkspacesilent", target));
    assert(crate::hypr::steps_view(r@) =~= show_steps_spec(console@, size, destination@));
    r
}

/// What `session hide` dispatches on the host, in order: the console goes
/// back to the agent workspace, at the configured size, at the origin of the
/// headless output.
pub open spec fn hide_steps_spec(console: Seq<char>, workspace: Seq<char>, size: [i32; 2], origin: [i32; 2]) -> Seq<
    Seq<Seq<char>>,
> {
    seq![
        seq!["movetoworkspacesilent"@, session::selector_spec(workspace) + ",address:"@ + console],
        seq!["resizewindowpixel"@, session::exact_at(size[0], size[1], console)],
        seq!["movewindowpixel"@, session::exact_at(origin[0], origin[1], console)],
    ]
}

pub fn hide_steps(console: &str, workspace: &str, size: [i32; 2], origin: [i32; 2]) -> (r: Vec<Vec<String>>)
    ensures
        crate::hypr::steps_view(r@) == hide_steps_spec(console@, workspace@, size, origin),
{
    let mut r: Vec<Vec<String>> = Vec::new();
    let mut target = session::workspace_selector(workspace);
    target.append(",address:");
    target.append(console);
    r.push(step2("movetoworkspacesilent", target));
    r.push(step2("resizewindowpixel", session::exact_text(size[0], size[1], console)));
    r.push(step2("movewindowpixel", session::exact_text(origin[0], origin[1], console)));
    assert(crate::hypr::steps_view(r@) =~= hide_steps_spec(console@, workspace@, size, origin));
    r
}

/// The console as the host lists it, identified by the address recorded at
/// spawn; gone means the nested compositor is mapped nowhere.
pub fn host_console_in<'c>(clients: &'c [Client], address: &str, session: &str) -> (r: Result<&'c Client, Error>)
    ensures
        match r {
            Ok(c) => crate::cli::first_client(clients@, address@, Some(c)),
            Err(e) => crate::cli::first_client(clients@, address@, None) && (e matches Error::AgentDesktopUnready {
                session: s,
                reason,
            } && s@ == session@ && reason@ == "its console window "@ + address@
                + " is gone from the host, so its nested compositor is no longer mapped anywhere — run `hyprpilot --session "@
                + session@ + " teardown`"@),
        },
{
    match crate::hypr::find_client(clients, address) {
        Some(c) => Ok(c),
        None => {
            let mut reason = cat3("its console window ", address, " is gone from the host, so its nested compositor is no longer mapped anywhere — run `hyprpilot --session ");
            reason.append(session);
            reason.append(" teardown`");
            Err(Error::AgentDesktopUnready { session: own(session), reason })
        },
    }
}

/// Where a hidden console lands: the origin of its headless output, which
/// has to still exist and to sit at a pixel position.
pub fn headless_origin_in(monitors: &[Monitor], session: &str, output: &str) -> (r: Result<[i32; 2], Error>)
    ensures
        match first_named(monitors@, output@) {
            None => r matches Err(Error::AgentDesktopUnready { session: s, reason }) && s@ == session@
                && reason@ == "its headless output "@ + output@ + " is gone — run `hyprpilot --session "@
                + session@ + " teardown`"@,
            Some(i) => {
                let m = monitors@[i];
                if i32::MIN <= m.x <= i32::MAX && i32::MIN <= m.y <= i32::MAX {
                    r matches Ok(o) && o[0] == m.x && o[1] == m.y
                } else {
                    r matches Err(Error::Tool { command, message }) && command@ == "hyprctl monitors"@
                        && message@ == "output "@ + output@ + " reports unusable "@ + (if i32::MIN <= m.x
                        <= i32::MAX {
                        "y "@ + int_text(m.y as int)
                    } else {
                        "x "@ + int_text(m.x as int)
                    })
                }
            },
        },
{
    let m = match crate::hypr::find_monitor(monitors, output) {
        Some(m) => {
            proof {
                let i = choose|i: int|
                    0 <= i < monitors@.len() && monitors@[i] == *m && m.name@ == output@ && forall|j: int|
                        0 <= j < i ==> monitors@[j].name@ != output@;
                lemma_first_named(monitors@, output@, i);
            }
            m
        },
        None => {
            let mut reason = cat3("its headless output ", output, " is gone — run `hyprpilot --session ");
            reason.append(session);
            reason.append(" teardown`");
            return Err(Error::AgentDesktopUnready { session: own(session), reason });
        },
    };
    if m.x < -2147483648 || m.x > 2147483647 {
        let mut message = cat3("output ", output, " reports unusable ");
        message.append("x ");
        message.append(fmt_i64(m.x).as_str());
        assert(message@ =~= "output "@ + output@ + " reports unusable "@ + ("x "@ + int_text(m.x as int)));
        return Err(Error::Tool { command: own("hyprctl monitors"), message });
    }
    if m.y < -2147483648 || m.y > 2147483647 {
        let mut message = cat3("output ", output, " reports unusable ");
        message.append("y ");
        message.append(fmt_i64(m.y).as_str());
        assert(message@ =~= "output "@ + output@ + " reports unusable "@ + ("y "@ + int_text(m.y as int)));
        return Err(Error::Tool { command: own("hyprctl monitors"), message });
    }
    let o: [i32; 2] = [m.x as i32, m.y as i32];
    Ok(o)
}

/// The warning a moved console earns when it did not keep the size the
/// agent desktop renders at.
pub fn console_size_warning(session: &str, console: &Client, expected: [i32; 2]) -> (r: Option<String>)
    ensures
        (console.size[0] == expected[0] && console.size[1] == expected[1]) <==> r is None,
        r matches Some(t) ==> t@ == "console window "@ + console.address@ + " of agent desktop `"@ + session@
            + "` is "@ + int_text(console.size[0] as int) + "x"@ + int_text(console.size[1] as int)
            + " instead of "@ + int_text(expected[0] as int) + "x"@ + int_text(expected[1] as int)
            + " — the agent desktop now renders at that size; check `hyprpilot --session "@ + session@
            + " status`"@,
{
    if console.size[0] == expected[0] && console.size[1] == expected[1] {
        return None;
    }
    let mut t = cat3("console window ", console.address.as_str(), " of agent desktop `");
    t.append(session);
    t.append("` is ");
    t.append(fmt_i64(console.size[0] as i64).as_str());
    t.append("x");
    t.append(fmt_i64(console.size[1] as i64).as_str());
    t.append(" instead of ");
    t.append(fmt_i64(expected[0] as i64).as_str());
    t.append("x");
    t.append(fmt_i64(expected[1] as i64).as_str());
    t.append(" — the agent desktop now renders at that size; check `hyprpilot --session ");
    t.append(session);
    t.append(" status`");
    Some(t)
}

/// Records where the console is; `true` when that changed what the state
/// says, so that only a change is saved.
pub fn record_visibility(isolated: &mut Isolated, visibility: Visibility) -> (changed: bool)
    ensures
        final(isolated).shown == (visibility == Visibility::Shown),
        changed == (old(isolated).shown != (visibility == Visibility::Shown)),
        final(isolated).output == old(isolated).output,
        final(isolated).workspace == old(isolated).workspace,
        final(isolated).size == old(isolated).size,
        final(isolated).instance_nonce == old(isolated).instance_nonce,
        final(isolated).active_address == old(isolated).active_address,
        final(isolated).instance == old(isolated).instance,
        final(isolated).host == old(isolated).host,
{
    let shown = visibility == Visibility::Shown;
    if isolated.shown != shown {
        isolated.shown = shown;
        true
    } else {
        false
    }
}

/// What `show` reports of a console already in front of the user.
pub fn already_shown_message(session: &str, console: &str, workspace: &str) -> (r: String)
    ensures
        r@ == "agent desktop `"@ + session@ + "` is already shown — console window "@ + console@
            + " sits on workspace "@ + workspace@ + ", the one in front of you"@,
{
    let mut r = cat3("agent desktop `", session, "` is already shown — console window ");
    r.append(console);
    r.append(" sits on workspace ");
    r.append(workspace);
    r.append(", the one in front of you");
    r
}

/// What `show` reports once the console moved.
pub fn shown_message(session: &str, console: &Client, destination: &str, agent_workspace: &str) -> (r: String)
    ensures
        r@ == "agent desktop `"@ + session@ + "` shown — console window "@ + console.address@
            + " is floating on workspace "@ + destination@ + " ("@ + int_text(console.size[0] as int) + "x"@
            + int_text(console.size[1] as int) + "); `hyprpilot --session "@ + session@
            + " session hide` puts it back on "@ + agent_workspace@,
{
    let mut r = cat3("agent desktop `", session, "` shown — console window ");
    r.append(console.address.as_str());
    r.append(" is floating on workspace ");
    r.append(destination);
    r.append(" (");
    r.append(fmt_i64(console.size[0] as i64).as_str());
    r.append("x");
    r.append(fmt_i64(console.size[1] as i64).as_str());
    r.append("); `hyprpilot --session ");
    r.append(session);
    r.append(" session hide` puts it back on ");
    r.append(agent_workspace);
    r
}

/// What `hide` reports.
pub fn hidden_message(session: &str, already: bool, console: &str, workspace: &str, output: &str) -> (r: String)
    ensures
        r@ == "agent desktop `"@ + session@ + "` "@ + (if already {
            "is already hidden"@
        } else {
            "hidden"@
        }) + " — console window "@ + console@ + " sits on workspace "@ + workspace@ + ", active on output "@
            + output@,
{
    let mut r = cat3("agent desktop `", session, "` ");
    if already {
        r.append("is already hidden");
    } else {
        r.append("hidden");
    }
    r.append(" — console window ");
    r.append(console);
    r.append(" sits on workspace ");
    r.append(workspace);
    r.append(", active on output ");
    r.append(output);
    r
}

/// One look at the focus of an instance after `focuswindow`: done when the
/// window is the focused one, otherwise what is focused instead.
pub fn focus_observation(active: Option<&Client>, address: &str) -> (r: Result<(), String>)
    ensures
        match active {
            Some(w) => if w.address@ == address@ {
                r is Ok
            } else {
                r matches Err(t) && t@ == w.address@ + " (`"@ + w.title@ + "`) is focused"@
            },
            None => r matches Err(t) && t@ == "no window is focused"@,
        },
{
    match active {
        Some(w) => if str_eq(w.address.as_str(), address) {
            Ok(())
        } else {
            let mut t = cat3(w.address.as_str(), " (`", w.title.as_str());
            t.append("`) is focused");
            Err(t)
        },
        None => {
            let t = own("no window is focused");
            proof {
                reveal_strlit("no window is focused");
            }
            Err(t)
        },
    }
}

/// `WHAT (last observed: SEEN)`: how a wait that ran out describes itself.
pub fn last_observed(what: &str, observed: &str) -> (r: String)
    ensures
        r@ == what@ + " (last observed: "@ + observed@ + ")"@,
{
    let mut r = cat3(what, " (last observed: ", observed);
    r.append(")");
    r
}

/// The ladder a nested compositor and the processes of its desktop are
/// taken down by: `dispatch exit`, a grace, `SIGTERM`, then `SIGKILL`.
pub fn exit_escalation() -> (r: session::Escalation)
    ensures
        r.polite == 2000 && r.term == 2000 && r.kill == 1000 && r.poll == session::POLL_INTERVAL_MS,
{
    session::Escalation { polite: 2000, term: 2000, kill: 1000, poll: session::POLL_INTERVAL_MS }
}

/// What `target` on an agent desktop reports.
pub fn agent_target_message(session: &str, window: &Client, signature: &str) -> (r: String)
    ensures
        r@ == "target active — window "@ + window.address@ + " (`"@ + window.title@
            + "`) focused in agent desktop `"@ + session@ + "` (instance "@ + signature@ + ")"@,
{
    let mut r = cat3("target active — window ", window.address.as_str(), " (`");
    r.append(window.title.as_str());
    r.append("`) focused in agent desktop `");
    r.append(session);
    r.append("` (instance ");
    r.append(signature);
    r.append(")");
    r
}

/// What a teardown has to do with the nested compositor.
#[derive(Debug, Clone, Copy, PartialEq, Eq, Structural)]
pub enum CompositorKind {
    /// Never spawned.
    Absent,
    /// Registered, its console never named: asked to exit, no pid to signal.
    Spawned,
    /// Fully identified: its console is parked, then the exit ladder runs.
    Live,
}

/// How far a teardown got.
#[derive(Debug, Clone, Copy, PartialEq, Eq, Structural)]
pub enum TeardownStage {
    Begun,
    ConsoleParked,
    AppClosed,
    CompositorStopped,
    SocketCleared,
    RuntimeCleared,
    Swept,
    Reaped,
}

/// The shape of a teardown and how far it got.
#[derive(Debug, Clone, Copy, PartialEq, Eq, Structural)]
pub struct TeardownState {
    pub compositor: CompositorKind,
    pub close_app: bool,
    pub stage: TeardownStage,
}

/// What came of the last action.
#[derive(Debug)]
pub enum TeardownEvent {
    /// It is done (its notes are the caller's to keep).
    Done,
    /// The sweep gave up with marked processes still alive.
    StillAlive(String),
    /// It failed, and the teardown stops with this error.
    Failed(Error),
}

/// What to do next.
#[derive(Debug)]
pub enum TeardownAction {
    /// Move the console window off the user's desktop before its
    /// compositor dies.
    ParkConsole,
    /// Close the recorded app window inside the desktop.
    CloseApp,
    /// Ask the registered compositor to exit, then escalate by signal.
    RunExitLadder,
    /// Ask a compositor that never named its console to exit.
    AskToExit,
    /// Unlink the compositor's Wayland socket if it is stale.
    ClearSocket,
    /// Remove the compositor's runtime directory, keeping its log.
    ClearRuntime,
    /// Signal every process carrying the desktop's markers until none is left.
    SweepMarked,
    /// Wait until the host reaps the console window.
    WaitReaped,
    /// The teardown is complete.
    Finish,
    /// Refused: processes of the desktop are still alive, so its output
    /// stays.
    RefuseAlive(String),
    /// Stopped by a failed step.
    Stop(Error),
}

/// Where a teardown starts, from its plan.
pub open spec fn teardown_begins(plan: TeardownPlan) -> TeardownState {
    TeardownState {
        compositor: match plan.instance {
            None => CompositorKind::Absent,
            Some(Compositor::Spawned { .. }) => CompositorKind::Spawned,
            Some(Compositor::Live(_)) => CompositorKind::Live,
        },
        close_app: plan.close is Some && plan.instance is Some,
        stage: TeardownStage::Begun,
    }
}

pub fn teardown_begin(plan: &TeardownPlan) -> (r: TeardownState)
    ensures
        r == teardown_begins(*plan),
{
    let compositor = match plan.instance {
        None => CompositorKind::Absent,
        Some(Compositor::Spawned { .. }) => CompositorKind::Spawned,
        Some(Compositor::Live(_)) => CompositorKind::Live,
    };
    TeardownState { compositor, close_app: plan.close.is_some() && plan.instance.is_some(), stage: TeardownStage::Begun }
}

/// The rank of a stage in the order a teardown goes through them.
pub open spec fn stage_rank(s: TeardownStage) -> int {
    match s {
        TeardownStage::Begun => 0,
        TeardownStage::ConsoleParked => 1,
        TeardownStage::AppClosed => 2,
        TeardownStage::CompositorStopped => 3,
        TeardownStage::SocketCleared => 4,
        TeardownStage::RuntimeCleared => 5,
        TeardownStage::Swept => 6,
        TeardownStage::Reaped => 7,
    }
}

/// Whether a teardown of this shape performs the step that ends in `s`.
pub open spec fn performs(compositor: CompositorKind, close_app: bool, s: TeardownStage) -> bool {
    match s {
        TeardownStage::Begun => false,
        TeardownStage::ConsoleParked => compositor == CompositorKind::Live,
        TeardownStage::AppClosed => close_app && compositor != CompositorKind::Absent,
        TeardownStage::CompositorStopped => compositor != CompositorKind::Absent,
        TeardownStage::SocketCleared => compositor == CompositorKind::Live,
        TeardownStage::RuntimeCleared => compositor != CompositorKind::Absent,
        TeardownStage::Swept => true,
        TeardownStage::Reaped => true,
    }
}

/// The action that brings a teardown to stage `s`.
pub open spec fn action_to(compositor: CompositorKind, s: TeardownStage) -> TeardownAction {
    match s {
        TeardownStage::ConsoleParked => TeardownAction::ParkConsole,
        TeardownStage::AppClosed => TeardownAction::CloseApp,
        TeardownStage::CompositorStopped => if compositor == CompositorKind::Live {
            TeardownAction::RunExitLadder
        } else {
            TeardownAction::AskToExit
        },
        TeardownStage::SocketCleared => TeardownAction::ClearSocket,
        TeardownStage::RuntimeCleared => TeardownAction::ClearRuntime,
        TeardownStage::Swept => TeardownAction::SweepMarked,
        _ => TeardownAction::WaitReaped,
    }
}

/// The first stage after `s` whose step a teardown of this shape performs;
/// `None` once every step is done.
pub open spec fn next_stage(compositor: CompositorKind, close_app: bool, s: TeardownStage) -> Option<TeardownStage>
    decreases 7 - stage_rank(s),
{
    let following = match s {
        TeardownStage::Begun => Some(TeardownStage::ConsoleParked),
        TeardownStage::ConsoleParked => Some(TeardownStage::AppClosed),
        TeardownStage::AppClosed => Some(TeardownStage::CompositorStopped),
        TeardownStage::CompositorStopped => Some(TeardownStage::SocketCleared),
        TeardownStage::SocketCleared => Some(TeardownStage::RuntimeCleared),
        TeardownStage::RuntimeCleared => Some(TeardownStage::Swept),
        TeardownStage::Swept => Some(TeardownStage::Reaped),
        TeardownStage::Reaped => None,
    };
    match following {
        None => None,
        Some(t) => if performs(compositor, close_app, t) {
            Some(t)
        } else {
            next_stage(compositor, close_app, t)
        },
    }
}

/// The teardown's next move. A failed step stops it with its error; a sweep
/// that leaves marked processes alive refuses it; otherwise it goes on to
/// the next step its shape performs, in the order console, app, compositor
/// (exit ladder, or a plain exit request), socket, runtime directory,
/// sweep, reap, and then finishes.
pub open spec fn teardown_next(state: TeardownState, event: TeardownEvent) -> (TeardownState, TeardownAction) {
    match event {
        TeardownEvent::Failed(e) => (state, TeardownAction::Stop(e)),
        TeardownEvent::StillAlive(detail) => (state, TeardownAction::RefuseAlive(detail)),
        TeardownEvent::Done => match next_stage(state.compositor, state.close_app, state.stage) {
            Some(t) => (TeardownState { stage: t, ..state }, action_to(state.compositor, t)),
            None => (state, TeardownAction::Finish),
        },
    }
}

fn performs_step(compositor: CompositorKind, close_app: bool, s: TeardownStage) -> (r: bool)
    ensures
        r == performs(compositor, close_app, s),
{
    match s {
        TeardownStage::Begun => false,
        TeardownStage::ConsoleParked => compositor == CompositorKind::Live,
        TeardownStage::AppClosed => close_app && compositor != CompositorKind::Absent,
        TeardownStage::CompositorStopped => compositor != CompositorKind::Absent,
        TeardownStage::SocketCleared => compositor == CompositorKind::Live,
        TeardownStage::RuntimeCleared => compositor != CompositorKind::Absent,
        TeardownStage::Swept => true,
        TeardownStage::Reaped => true,
    }
}

fn following_stage(s: TeardownStage) -> (r: Option<TeardownStage>)
    ensures
        r == (match s {
            TeardownStage::Begun => Some(TeardownStage::ConsoleParked),
            TeardownStage::ConsoleParked => Some(TeardownStage::AppClosed),
            TeardownStage::AppClosed => Some(TeardownStage::CompositorStopped),
            TeardownStage::CompositorStopped => Some(TeardownStage::SocketCleared),
            TeardownStage::SocketCleared => Some(TeardownStage::RuntimeCleared),
            TeardownStage::RuntimeCleared => Some(TeardownStage::Swept),
            TeardownStage::Swept => Some(TeardownStage::Reaped),
            TeardownStage::Reaped => None::<TeardownStage>,
        }),
        r matches Some(t) ==> stage_rank(t) == stage_rank(s) + 1,
{
    match s {
        TeardownStage::Begun => Some(TeardownStage::ConsoleParked),
        TeardownStage::ConsoleParked => Some(TeardownStage::AppClosed),
        TeardownStage::AppClosed => Some(TeardownStage::CompositorStopped),
        TeardownStage::CompositorStopped => Some(TeardownStage::SocketCleared),
        TeardownStage::SocketCleared => Some(TeardownStage::RuntimeCleared),
        TeardownStage::RuntimeCleared => Some(TeardownStage::Swept),
        TeardownStage::Swept => Some(TeardownStage::Reaped),
        TeardownStage::Reaped => None,
    }
}

fn upcoming_stage(compositor: CompositorKind, close_app: bool, s: TeardownStage) -> (r: Option<TeardownStage>)
    ensures
        r == next_stage(compositor, close_app, s),
    decreases 7 - stage_rank(s),
{
    match following_stage(s) {
        None => None,
        Some(t) => if performs_step(compositor, close_app, t) {
            Some(t)
        } else {
            upcoming_stage(compositor, close_app, t)
        },
    }
}

fn action_for(compositor: CompositorKind, s: TeardownStage) -> (r: TeardownAction)
    ensures
        r == action_to(compositor, s),
{
    match s {
        TeardownStage::ConsoleParked => TeardownAction::ParkConsole,
        TeardownStage::AppClosed => TeardownAction::CloseApp,
        TeardownStage::CompositorStopped => if compositor == CompositorKind::Live {
            TeardownAction::RunExitLadder
        } else {
            TeardownAction::AskToExit
        },
        TeardownStage::SocketCleared => TeardownAction::ClearSocket,
        TeardownStage::RuntimeCleared => TeardownAction::ClearRuntime,
        TeardownStage::Swept => TeardownAction::SweepMarked,
        _ => TeardownAction::WaitReaped,
    }
}

/// One move of an agent desktop teardown: from where it is and what came
/// of the last action, where it goes and what to do.
pub fn teardown_step(state: TeardownState, event: TeardownEvent) -> (r: (TeardownState, TeardownAction))
    ensures
        r == teardown_next(state, event),
{
    match event {
        TeardownEvent::Failed(e) => (state, TeardownAction::Stop(e)),
        TeardownEvent::StillAlive(detail) => (state, TeardownAction::RefuseAlive(detail)),
        TeardownEvent::Done => match upcoming_stage(state.compositor, state.close_app, state.stage) {
            Some(t) => (TeardownState { stage: t, ..state }, action_for(state.compositor, t)),
            None => (state, TeardownAction::Finish),
        },
    }
}

/// A teardown finishes only after the reap, and the reap only after the
/// sweep: whatever the shape, the sweep and the wait for the reap are the
/// last two steps, and a sweep that leaves marked processes alive is
/// answered with a refusal, never with a finish.
pub proof fn a_teardown_finishes_only_after_sweep_and_reap(state: TeardownState, detail: String)
    ensures
        teardown_next(state, TeardownEvent::Done).1 is Finish ==> state.stage == TeardownStage::Reaped,
        state.stage == TeardownStage::Swept ==> teardown_next(state, TeardownEvent::Done) == (
            TeardownState { stage: TeardownStage::Reaped, ..state },
            TeardownAction::WaitReaped,
        ),
        stage_rank(state.stage) < stage_rank(TeardownStage::Swept) ==> stage_rank(state.stage) < stage_rank(
            teardown_next(state, TeardownEvent::Done).0.stage,
        ) <= stage_rank(TeardownStage::Swept),
        teardown_next(state, TeardownEvent::StillAlive(detail)) == (state, TeardownAction::RefuseAlive(detail)),
{
    lemma_next_stage_bounds(state.compositor, state.close_app, state.stage);
}

proof fn lemma_next_stage_bounds(compositor: CompositorKind, close_app: bool, s: TeardownStage)
    ensures
        next_stage(compositor, close_app, s) is None <==> s == TeardownStage::Reaped,
        next_stage(compositor, close_app, s) matches Some(t) ==> stage_rank(s) < stage_rank(t) && (stage_rank(s)
            < stage_rank(TeardownStage::Swept) ==> stage_rank(t) <= stage_rank(TeardownStage::Swept)),
    decreases 7 - stage_rank(s),
{
    let following = match s {
        TeardownStage::Begun => Some(TeardownStage::ConsoleParked),
        TeardownStage::ConsoleParked => Some(TeardownStage::AppClosed),
        TeardownStage::AppClosed => Some(TeardownStage::CompositorStopped),
        TeardownStage::CompositorStopped => Some(TeardownStage::SocketCleared),
        TeardownStage::SocketCleared => Some(TeardownStage::RuntimeCleared),
        TeardownStage::RuntimeCleared => Some(TeardownStage::Swept),
        TeardownStage::Swept => Some(TeardownStage::Reaped),
        TeardownStage::Reaped => None::<TeardownStage>,
    };
    if let Some(t) = following {
        if !performs(compositor, close_app, t) {
            lemma_next_stage_bounds(compositor, close_app, t);
        }
    }
}

} // verus!
