//! The one error type of the crate, and the text each error reads as.
use vstd::prelude::*;

use crate::text::{dec, fmt_u64, push_char};

verus! {

/// Something a command was meant to leave as it found it, and did not.
#[derive(Debug, Clone)]
pub struct RestoreFailure {
    pub what: String,
    pub expected: String,
    pub actual: String,
}

impl RestoreFailure {
    pub fn new(what: &str, expected: String, actual: String) -> (r: Self)
        ensures
            r.what@ == what@,
            r.expected@ == expected@,
            r.actual@ == actual@,
    {
        RestoreFailure { what: String::from_str(what), expected, actual }
    }
}

#[derive(Debug)]
pub enum Error {
    /// A file or process operation failed; `message` is what the system said.
    Io { context: String, message: String },
    Json { context: String, message: String },
    Png { context: String, message: String },
    /// An external tool (hyprctl, grim, kill) failed.
    Tool { command: String, message: String },
    Env(String),
    NoSession,
    SessionExists { name: String, path: String },
    /// The shared output is a singleton, so a second shared session is refused
    /// whatever its name.
    SharedSessionExists { name: String },
    CorruptSession { path: String, message: String },
    /// `found` is `None` for the unversioned pre-v2 format, or when the file
    /// cannot be parsed far enough to tell.
    UnsupportedSessionVersion { path: String, found: Option<u32> },
    /// A command routed an isolated session into the shared code path.
    ModeRouting { command: String },
    SharedUnsupported { command: String, hint: String },
    IsolatedUnsupported { command: String, hint: String },
    SweepRefused { output: String, reason: String },
    /// `candidates` is the JSON array of the windows that matched.
    WindowAmbiguous { criteria: String, candidates: String },
    WindowNotFound(String),
    WindowGone(String),
    UnmappedChar(char),
    InvalidChord(String),
    Invalid { what: String, value: String, hint: String },
    Pointer(String),
    Guarded { action: Option<Box<Error>>, restore: Vec<RestoreFailure> },
    Timeout { what: String, after_ms: u64 },
    DoctorFailed { report: String, failures: u64 },
    CaptureTimeout { command: String, after_ms: u64, signal: String, diagnosis: String },
    AgentDesktopUnready { session: String, reason: String },
    AgentDesktopDead { session: String, signature: String, pid: u32 },
    AgentDesktopAlive { session: String, detail: String },
    TeardownIncomplete { summary: String, failures: Vec<RestoreFailure> },
    NestedRefused { session: String },
    HostDeviation { what: String, expected: String, actual: String },
    AgentOutputExists { output: String, session: String },
}

/// Shorthand for `Error::Invalid`.
pub fn invalid(what: &str, value: String, hint: String) -> (e: Error)
    ensures
        e matches Error::Invalid { what: w, value: v, hint: h } && w@ == what@ && v@ == value@
            && h@ == hint@,
{
    Error::Invalid { what: String::from_str(what), value, hint }
}

/// Shorthand for `Error::Tool`.
pub fn tool(command: &str, message: String) -> (e: Error)
    ensures
        e matches Error::Tool { command: c, message: m } && c@ == command@ && m@ == message@,
{
    Error::Tool { command: String::from_str(command), message }
}

/// How `{:?}` writes a character: in single quotes, with std's escapes
/// (`\'`, `\\`, `\n`, `\r`, `\t`, `\0`, and `\u{..}` for characters it does
/// not print as they are).
pub uninterp spec fn char_debug(c: char) -> Seq<char>;

/// `format!("{:?}", c)`. Which characters std prints as they are is its own
/// table; the contract names the result.
#[verifier::external_body]
fn fmt_char_debug(c: char) -> (r: String)
    ensures
        r@ == char_debug(c),
{
    format!("{:?}", c)
}

pub open spec fn session_recovery() -> Seq<char> {
    "recover with `hyprpilot windows`, `hyprctl dispatch movetoworkspacesilent ...`, `hyprctl dispatch closewindow ...`, then `hyprctl output remove hyprpilot`"@
}

/// The schema version this build reads and writes.
pub const SCHEMA_VERSION: u32 = 3;

pub open spec fn unsupported_version_text(path: Seq<char>, found: Option<u32>) -> Seq<char> {
    let head = match found {
        Some(v) => "session state "@ + path + " has schema version "@ + dec(v as nat)
            + ", this build expects "@ + dec(SCHEMA_VERSION as nat),
        None => "session state "@ + path
            + " is unversioned (pre-v2 format), this build expects schema version "@ + dec(
            SCHEMA_VERSION as nat,
        ),
    };
    head
        + " — no output was removed. `hyprpilot teardown` still clears a pre-v3 session left at $XDG_RUNTIME_DIR/hyprpilot/session.json; a state file anywhere else has to be removed by hand, once no window depends on it. "@
        + session_recovery()
}

/// One `- what: expected E, actual A` line per failure, each preceded by a newline.
pub open spec fn failure_lines(failures: Seq<RestoreFailure>) -> Seq<char>
    decreases failures.len(),
{
    if failures.len() == 0 {
        Seq::empty()
    } else {
        let f = failures.last();
        failure_lines(failures.drop_last()) + "\n- "@ + f.what@ + ": expected "@ + f.expected@
            + ", actual "@ + f.actual@
    }
}

pub fn fmt_failure_lines(failures: &Vec<RestoreFailure>) -> (r: String)
    ensures
        r@ == failure_lines(failures@),
{
    let mut r = String::new();
    let mut i: usize = 0;
    while i < failures.len()
        invariant
            i <= failures@.len(),
            r@ == failure_lines(failures@.subrange(0, i as int)),
        decreases failures@.len() - i,
    {
        let f = &failures[i];
        r.append("\n- ");
        r.append(f.what.as_str());
        r.append(": expected ");
        r.append(f.expected.as_str());
        r.append(", actual ");
        r.append(f.actual.as_str());
        assert(failures@.subrange(0, i + 1).drop_last() =~= failures@.subrange(0, i as int));
        i += 1;
    }
    assert(failures@.subrange(0, failures@.len() as int) =~= failures@);
    r
}

impl Error {
    /// The text the error reads as.
    pub open spec fn text(&self) -> Seq<char>
        decreases self,
    {
        match self {
            Error::Io { context, message } => context@ + ": "@ + message@,
            Error::Json { context, message } => context@ + ": invalid JSON: "@ + message@,
            Error::Png { context, message } => context@ + ": "@ + message@,
            Error::Tool { command, message } => "`"@ + command@ + "` failed: "@ + message@,
            Error::Env(name) => "environment variable "@ + name@
                + " is not set — is this a Hyprland session?"@,
            Error::NoSession => "no active session — run `hyprpilot session start` first"@,
            Error::SessionExists { name, path } => "session `"@ + name@ + "` is already active ("@
                + path@ + ") — run `hyprpilot --session "@ + name@ + " teardown` first"@,
            Error::SharedSessionExists { name } => "shared session `"@ + name@
                + "` is already active and the shared output `hyprpilot` is a singleton — run `hyprpilot --session "@
                + name@ + " teardown` first, or start an agent desktop with `--isolated`"@,
            Error::CorruptSession { path, message } => "session file "@ + path@ + " is corrupt ("@
                + message@ + "); no output was removed. "@ + session_recovery(),
            Error::UnsupportedSessionVersion { path, found } => unsupported_version_text(
                path@,
                *found,
            ),
            Error::ModeRouting { command } => "`"@ + command@
                + "` fell through to the shared path with an isolated session; no compositor state was touched"@,
            Error::SharedUnsupported { command, hint } => "`"@ + command@
                + "` is not supported for shared sessions — "@ + hint@,
            Error::IsolatedUnsupported { command, hint } => "`"@ + command@
                + "` is not supported for isolated sessions — "@ + hint@,
            Error::SweepRefused { output, reason } => "refusing to remove orphan output "@
                + output@ + ": "@ + reason@ + "; no output was removed"@,
            Error::WindowAmbiguous { criteria, candidates } => "multiple windows match "@
                + criteria@ + "; refine the match criteria\n"@ + candidates@,
            Error::WindowNotFound(criteria) => "no window matches "@ + criteria@,
            Error::WindowGone(address) => "session window "@ + address@
                + " no longer exists — run `hyprpilot teardown`"@,
            Error::UnmappedChar(c) => "character "@ + char_debug(*c)
                + " has no keysym mapping — send it as a raw keysym with `hyprpilot key <keysym>`"@,
            Error::InvalidChord(chord) => "invalid key chord `"@ + chord@
                + "` — expected e.g. `a`, `Down`, `Ctrl+c`, `Ctrl+Shift+Escape`"@,
            Error::Invalid { what, value, hint } => "invalid "@ + what@ + " `"@ + value@ + "` — "@
                + hint@,
            Error::Pointer(message) => "virtual pointer: "@ + message@,
            Error::Guarded { action, restore } => {
                let head = match action {
                    Some(inner) => "action failed: "@ + inner.text(),
                    None => "action executed but desktop invariant violated"@,
                };
                if restore.len() == 0 {
                    head
                } else {
                    head + "\nrestoration failed:"@ + failure_lines(restore@)
                }
            },
            Error::Timeout { what, after_ms } => "timed out waiting for "@ + what@ + " after "@
                + dec(*after_ms as nat) + "ms"@,
            Error::DoctorFailed { report, failures } => report@ + "\n"@ + dec(*failures as nat)
                + " check(s) failed"@,
            Error::CaptureTimeout { command, after_ms, signal, diagnosis } => "`"@ + command@
                + "` produced no frame within "@ + dec(*after_ms as nat)
                + "ms and was stopped with SIG"@ + signal@ + ": "@ + diagnosis@,
            Error::AgentDesktopUnready { session, reason } => "agent desktop `"@ + session@
                + "` is not ready: "@ + reason@,
            Error::AgentDesktopDead { session, signature, pid } => "agent desktop `"@ + session@
                + "` is dead: its nested compositor "@ + signature@ + " (pid "@ + dec(
                *pid as nat,
            ) + ") no longer carries the markers of this session — run `hyprpilot --session "@
                + session@ + " teardown`"@,
            Error::AgentDesktopAlive { session, detail } => "agent desktop `"@ + session@
                + "` is still alive ("@ + detail@
                + "); its output stays, because its console window would land on the user's desktop once the output is removed — run `hyprpilot --session "@
                + session@ + " teardown` again"@,
            Error::TeardownIncomplete { summary, failures } => summary@
                + "; the desktop was not fully restored:"@ + failure_lines(failures@),
            Error::NestedRefused { session } =>
                "refusing to run inside agent desktop `"@ + session@
                + "`: HYPRPILOT_AGENT_SESSION is set in the shell this command was typed in, and hyprctl would answer for the nested compositor (a start would build a 0x0 output) — run hyprpilot from the user's own session"@,
            Error::HostDeviation { what, expected, actual } =>
                "the user's desktop changed during the start: "@ + what@ + " expected "@
                + expected@ + ", observed "@ + actual@ + "; the start was rolled back"@,
            Error::AgentOutputExists { output, session } => "output "@ + output@
                + " already exists, a leftover of an earlier agent desktop `"@ + session@
                + "` — run `hyprpilot --session "@ + session@
                + " teardown`, or `hyprctl output remove "@ + output@ + "` if no session owns it"@,
        }
    }

    /// The text of the error, as `Display` would write it.
    pub fn message(&self) -> (r: String)
        ensures
            r@ == self.text(),
        decreases self,
    {
        let mut m = String::new();
        match self {
            Error::Io { context, message } => {
                m.append(context.as_str());
                m.append(": ");
                m.append(message.as_str());
            },
            Error::Json { context, message } => {
                m.append(context.as_str());
                m.append(": invalid JSON: ");
                m.append(message.as_str());
            },
            Error::Png { context, message } => {
                m.append(context.as_str());
                m.append(": ");
                m.append(message.as_str());
            },
            Error::Tool { command, message } => {
                m.append("`");
                m.append(command.as_str());
                m.append("` failed: ");
                m.append(message.as_str());
            },
            Error::Env(name) => {
                m.append("environment variable ");
                m.append(name.as_str());
                m.append(" is not set — is this a Hyprland session?");
            },
            Error::NoSession => {
                m.append("no active session — run `hyprpilot session start` first");
            },
            Error::SessionExists { name, path } => {
                m.append("session `");
                m.append(name.as_str());
                m.append("` is already active (");
                m.append(path.as_str());
                m.append(") — run `hyprpilot --session ");
                m.append(name.as_str());
                m.append(" teardown` first");
            },
            Error::SharedSessionExists { name } => {
                m.append("shared session `");
                m.append(name.as_str());
                m.append(
                    "` is already active and the shared output `hyprpilot` is a singleton — run `hyprpilot --session ",
                );
                m.append(name.as_str());
                m.append(" teardown` first, or start an agent desktop with `--isolated`");
            },
            Error::CorruptSession { path, message } => {
                m.append("session file ");
                m.append(path.as_str());
                m.append(" is corrupt (");
                m.append(message.as_str());
                m.append("); no output was removed. ");
                m.append(
                    "recover with `hyprpilot windows`, `hyprctl dispatch movetoworkspacesilent ...`, `hyprctl dispatch closewindow ...`, then `hyprctl output remove hyprpilot`",
                );
            },
            Error::UnsupportedSessionVersion { path, found } => {
                m.append("session state ");
                m.append(path.as_str());
                match found {
                    Some(v) => {
                        m.append(" has schema version ");
                        m.append(fmt_u64(*v as u64).as_str());
                        m.append(", this build expects ");
                        m.append(fmt_u64(SCHEMA_VERSION as u64).as_str());
                    },
                    None => {
                        m.append(
                            " is unversioned (pre-v2 format), this build expects schema version ",
                        );
                        m.append(fmt_u64(SCHEMA_VERSION as u64).as_str());
                    },
                }
                m.append(
                    " — no output was removed. `hyprpilot teardown` still clears a pre-v3 session left at $XDG_RUNTIME_DIR/hyprpilot/session.json; a state file anywhere else has to be removed by hand, once no window depends on it. ",
                );
                m.append(
                    "recover with `hyprpilot windows`, `hyprctl dispatch movetoworkspacesilent ...`, `hyprctl dispatch closewindow ...`, then `hyprctl output remove hyprpilot`",
                );
            },
            Error::ModeRouting { command } => {
                m.append("`");
                m.append(command.as_str());
                m.append(
                    "` fell through to the shared path with an isolated session; no compositor state was touched",
                );
            },
            Error::SharedUnsupported { command, hint } => {
                m.append("`");
                m.append(command.as_str());
                m.append("` is not supported for shared sessions — ");
                m.append(hint.as_str());
            },
            Error::IsolatedUnsupported { command, hint } => {
                m.append("`");
                m.append(command.as_str());
                m.append("` is not supported for isolated sessions — ");
                m.append(hint.as_str());
            },
            Error::SweepRefused { output, reason } => {
                m.append("refusing to remove orphan output ");
                m.append(output.as_str());
                m.append(": ");
                m.append(reason.as_str());
                m.append("; no output was removed");
            },
            Error::WindowAmbiguous { criteria, candidates } => {
                m.append("multiple windows match ");
                m.append(criteria.as_str());
                m.append("; refine the match criteria\n");
                m.append(candidates.as_str());
            },
            Error::WindowNotFound(criteria) => {
                m.append("no window matches ");
                m.append(criteria.as_str());
            },
            Error::WindowGone(address) => {
                m.append("session window ");
                m.append(address.as_str());
                m.append(" no longer exists — run `hyprpilot teardown`");
            },
            Error::UnmappedChar(c) => {
                m.append("character ");
                m.append(fmt_char_debug(*c).as_str());
                m.append(
                    " has no keysym mapping — send it as a raw keysym with `hyprpilot key <keysym>`",
                );
            },
            Error::InvalidChord(chord) => {
                m.append("invalid key chord `");
                m.append(chord.as_str());
                m.append("` — expected e.g. `a`, `Down`, `Ctrl+c`, `Ctrl+Shift+Escape`");
            },
            Error::Invalid { what, value, hint } => {
                m.append("invalid ");
                m.append(what.as_str());
                m.append(" `");
                m.append(value.as_str());
                m.append("` — ");
                m.append(hint.as_str());
            },
            Error::Pointer(message) => {
                m.append("virtual pointer: ");
                m.append(message.as_str());
            },
            Error::Guarded { action, restore } => {
                match action {
                    Some(inner) => {
                        m.append("action failed: ");
                        let t = inner.message();
                        m.append(t.as_str());
                    },
                    None => {
                        m.append("action executed but desktop invariant violated");
                    },
                }
                if restore.len() > 0 {
                    m.append("\nrestoration failed:");
                    m.append(fmt_failure_lines(restore).as_str());
                }
            },
            Error::Timeout { what, after_ms } => {
                m.append("timed out waiting for ");
                m.append(what.as_str());
                m.append(" after ");
                m.append(fmt_u64(*after_ms).as_str());
                m.append("ms");
            },
            Error::DoctorFailed { report, failures } => {
                m.append(report.as_str());
                m.append("\n");
                m.append(fmt_u64(*failures).as_str());
                m.append(" check(s) failed");
            },
            Error::CaptureTimeout { command, after_ms, signal, diagnosis } => {
                m.append("`");
                m.append(command.as_str());
                m.append("` produced no frame within ");
                m.append(fmt_u64(*after_ms).as_str());
                m.append("ms and was stopped with SIG");
                m.append(signal.as_str());
                m.append(": ");
                m.append(diagnosis.as_str());
            },
            Error::AgentDesktopUnready { session, reason } => {
                m.append("agent desktop `");
                m.append(session.as_str());
                m.append("` is not ready: ");
                m.append(reason.as_str());
            },
            Error::AgentDesktopDead { session, signature, pid } => {
                m.append("agent desktop `");
                m.append(session.as_str());
                m.append("` is dead: its nested compositor ");
                m.append(signature.as_str());
                m.append(" (pid ");
                m.append(fmt_u64(*pid as u64).as_str());
                m.append(
                    ") no longer carries the markers of this session — run `hyprpilot --session ",
                );
                m.append(session.as_str());
                m.append(" teardown`");
            },
            Error::AgentDesktopAlive { session, detail } => {
                m.append("agent desktop `");
                m.append(session.as_str());
                m.append("` is still alive (");
                m.append(detail.as_str());
                m.append(
                    "); its output stays, because its console window would land on the user's desktop once the output is removed — run `hyprpilot --session ",
                );
                m.append(session.as_str());
                m.append(" teardown` again");
            },
            Error::TeardownIncomplete { summary, failures } => {
                m.append(summary.as_str());
                m.append("; the desktop was not fully restored:");
                m.append(fmt_failure_lines(failures).as_str());
            },
            Error::NestedRefused { session } => {
                m.append("refusing to run inside agent desktop `");
                m.append(session.as_str());
                m.append(
                    "`: HYPRPILOT_AGENT_SESSION is set in the shell this command was typed in, and hyprctl would answer for the nested compositor (a start would build a 0x0 output) — run hyprpilot from the user's own session",
                );
            },
            Error::HostDeviation { what, expected, actual } => {
                m.append("the user's desktop changed during the start: ");
                m.append(what.as_str());
                m.append(" expected ");
                m.append(expected.as_str());
                m.append(", observed ");
                m.append(actual.as_str());
                m.append("; the start was rolled back");
            },
            Error::AgentOutputExists { output, session } => {
                m.append("output ");
                m.append(output.as_str());
                m.append(" already exists, a leftover of an earlier agent desktop `");
                m.append(session.as_str());
                m.append("` — run `hyprpilot --session ");
                m.append(session.as_str());
                m.append(" teardown`, or `hyprctl output remove ");
                m.append(output.as_str());
                m.append("` if no session owns it");
            },
        }
        m
    }
}

} // verus!
