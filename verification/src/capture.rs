//! Screen capture decisions: what grim is asked to frame, how a decoded
//! frame compares with another, when a `wait` is over, and what a capture
//! that never returned means.
use vstd::prelude::*;

use crate::error::{Error, invalid};
use crate::hypr::{Client, Monitor, ProcessOutput, nth_runner, runnable, spent, take_runner};
use crate::isolated::{self, FrameSite, frames_observation, frames_reason_spec, observation_spec,
    probed_spec};
use crate::path::{join, join_spec};
use crate::session::Escalation;
use crate::text::{cat, cat3, fmt_i64, fmt_i128, fmt_u64, int_text, own, str_eq, dec};

verus! {

/// The escalation a capture runs under: grim blocks for ever on a compositor
/// that stopped answering screencopy, so every capture has a deadline.
pub fn capture_escalation() -> (r: Escalation)
    ensures
        r.polite == 5000 && r.term == 1000 && r.kill == 1000 && r.poll == 25,
{
    Escalation { polite: 5000, term: 1000, kill: 1000, poll: 25 }
}

/// How often `wait` captures.
pub const WAIT_POLL_INTERVAL_MS: u64 = 150;

/// A decoded frame: its size and its pixel bytes.
#[derive(Debug)]
pub struct Image {
    pub width: u32,
    pub height: u32,
    pub data: Vec<u8>,
}

impl Image {
    /// Whether two frames are the same picture: same size, same bytes.
    pub open spec fn same(&self, other: &Self) -> bool {
        self.width == other.width && self.height == other.height && self.data@ == other.data@
    }

    pub fn identical(&self, other: &Self) -> (r: bool)
        ensures
            r == self.same(other),
    {
        if self.width != other.width || self.height != other.height || self.data.len()
            != other.data.len() {
            return false;
        }
        let mut i: usize = 0;
        while i < self.data.len()
            invariant
                i <= self.data@.len(),
                self.data@.len() == other.data@.len(),
                forall|j: int| 0 <= j < i ==> self.data@[j] == other.data@[j],
            decreases self.data@.len() - i,
        {
            if self.data[i] != other.data[i] {
                return false;
            }
            i += 1;
        }
        assert(self.data@ =~= other.data@);
        true
    }
}

/// What the `png` crate makes of a file's bytes: the frame's width, height
/// and pixel bytes, or its complaint.
pub uninterp spec fn png_frame(bytes: Seq<u8>) -> Result<(u32, u32, Seq<u8>), Seq<char>>;

/// Decodes the first frame of a PNG with `png::Decoder`: `read_info`, a
/// buffer of `output_buffer_size` bytes, `next_frame`, truncated to the
/// frame's `buffer_size`. The result is only named; a buffer size the machine
/// cannot hold is reported as a complaint.
#[verifier::external_body]
fn png_decode(bytes: &[u8]) -> (r: Result<(u32, u32, Vec<u8>), String>)
    ensures
        png_frame(bytes@) == match r {
            Ok((w, h, d)) => Ok::<(u32, u32, Seq<u8>), Seq<char>>((w, h, d@)),
            Err(m) => Err::<(u32, u32, Seq<u8>), Seq<char>>(m@),
        },
{
    let decoder = png::Decoder::new(std::io::Cursor::new(bytes));
    let mut reader = decoder.read_info().map_err(|e| e.to_string())?;
    let size = reader.output_buffer_size().ok_or_else(
        || "image dimensions overflow the output buffer".to_owned(),
    )?;
    let mut data = vec![0; size];
    let info = reader.next_frame(&mut data).map_err(|e| e.to_string())?;
    data.truncate(info.buffer_size());
    Ok((info.width, info.height, data))
}

/// What reading a PNG gives: the file's bytes decoded, or the failure of the
/// read or of the decoding, naming the file.
pub open spec fn png_read_spec(path: Seq<char>, read: Result<Vec<u8>, String>, r: Result<Image, Error>) -> bool {
    let context = "reading PNG "@ + path;
    match read {
        Err(m) => r matches Err(Error::Io { context: c, message }) && c@ == context && message@
            == m@,
        Ok(bytes) => match png_frame(bytes@) {
            Ok((w, h, d)) => r matches Ok(image) && image.width == w && image.height == h
                && image.data@ == d,
            Err(m) => r matches Err(Error::Png { context: c, message }) && c@ == context
                && message@ == m,
        },
    }
}

/// Reads and decodes the PNG at `path`; `read` hands back the file's bytes.
pub fn read_png<F: FnOnce(String) -> Result<Vec<u8>, String>>(path: &str, read: F) -> (r: Result<
    Image,
    Error,
>)
    requires
        forall|p: String| call_requires(read, (p,)),
    ensures
        exists|p: String, got: Result<Vec<u8>, String>|
            p@ == path@ && call_ensures(read, (p,), got) && png_read_spec(path@, got, r),
{
    let p = own(path);
    let ghost gp = p;
    let got = read(p);
    let ghost gg = got;
    let context = cat("reading PNG ", path);
    let r = match got {
        Err(m) => Err(Error::Io { context, message: m }),
        Ok(bytes) => match png_decode(bytes.as_slice()) {
            Ok((width, height, data)) => Ok(Image { width, height, data }),
            Err(m) => Err(Error::Png { context, message: m }),
        },
    };
    assert(gp@ == path@ && call_ensures(read, (gp,), gg) && png_read_spec(path@, gg, r));
    r
}

/// The larger of two integers.
pub open spec fn max_i(a: int, b: int) -> int {
    if a >= b {
        a
    } else {
        b
    }
}

/// The smaller of two integers.
pub open spec fn min_i(a: int, b: int) -> int {
    if a <= b {
        a
    } else {
        b
    }
}

/// The grim region of a window, clamped to its output's logical box:
/// `X,Y WxH`, or the refusal of a window that does not intersect the output
/// by at least a pixel each way.
pub open spec fn crop_spec(at: [i32; 2], size: [i32; 2], monitor: Monitor, r: Result<String, Error>) -> bool {
    let x0 = max_i(at[0] as int, monitor.x as int);
    let y0 = max_i(at[1] as int, monitor.y as int);
    let x1 = min_i(at[0] + size[0], monitor.x + monitor.logical_width);
    let y1 = min_i(at[1] + size[1], monitor.y + monitor.logical_height);
    if x1 - x0 < 1 || y1 - y0 < 1 {
        r matches Err(Error::Invalid { what, value, hint }) && what@ == "capture geometry"@ && value@
            == "window at "@ + crate::json::array_debug(at) + " size "@ + crate::json::array_debug(
            size,
        ) && hint@ == "window does not intersect output "@ + monitor.name@
    } else {
        r matches Ok(g) && g@ == int_text(x0) + ","@ + int_text(y0) + " "@ + int_text(x1 - x0) + "x"@
            + int_text(y1 - y0)
    }
}

/// The grim region string for a window, in layout coordinates.
pub fn crop_geometry(at: [i32; 2], size: [i32; 2], monitor: &Monitor) -> (r: Result<String, Error>)
    ensures
        crop_spec(at, size, *monitor, r),
{
    let ax = at[0] as i128;
    let ay = at[1] as i128;
    let mx = monitor.x as i128;
    let my = monitor.y as i128;
    let x0 = if ax >= mx { ax } else { mx };
    let y0 = if ay >= my { ay } else { my };
    let wr = ax + size[0] as i128;
    let hb = ay + size[1] as i128;
    let right = mx + monitor.logical_width as i128;
    let bottom = my + monitor.logical_height as i128;
    let x1 = if wr <= right { wr } else { right };
    let y1 = if hb <= bottom { hb } else { bottom };
    if x1 - x0 < 1 || y1 - y0 < 1 {
        let mut value = cat("window at ", crate::json::fmt_array_debug(at).as_str());
        value.append(" size ");
        value.append(crate::json::fmt_array_debug(size).as_str());
        return Err(invalid("capture geometry", value, cat("window does not intersect output ", monitor.name.as_str())));
    }
    let mut g = fmt_i128(x0);
    g.append(",");
    g.append(fmt_i128(y0).as_str());
    g.append(" ");
    g.append(fmt_i128(x1 - x0).as_str());
    g.append("x");
    g.append(fmt_i128(y1 - y0).as_str());
    Ok(g)
}

/// Captures only show the session window while its workspace is the active
/// one of the output and no special workspace is open over it.
pub fn ensure_capture_visible(expected_workspace: &str, monitor: &Monitor) -> (r: Result<(), Error>)
    ensures
        monitor.special_workspace@.len() > 0 ==> (r matches Err(Error::Tool { command, message })
            && command@ == "hyprctl monitors"@ && message@ == "special workspace "@
            + monitor.special_workspace@ + " is visible on output "@ + monitor.name@
            + " — captures would hide the session window"@),
        monitor.special_workspace@.len() == 0 && monitor.active_workspace.name@
            != expected_workspace@ ==> (r matches Err(Error::Tool { command, message }) && command@
            == "hyprctl monitors"@ && message@ == "workspace "@ + expected_workspace@
            + " is not active on output "@ + monitor.name@ + " (active: "@
            + monitor.active_workspace.name@ + ") — captures would not show the window"@),
        monitor.special_workspace@.len() == 0 && monitor.active_workspace.name@
            == expected_workspace@ ==> r is Ok,
{
    if monitor.special_workspace.unicode_len() > 0 {
        let mut m = cat3("special workspace ", monitor.special_workspace.as_str(), " is visible on output ");
        m.append(monitor.name.as_str());
        m.append(" — captures would hide the session window");
        return Err(Error::Tool { command: String::from_str("hyprctl monitors"), message: m });
    }
    if !str_eq(monitor.active_workspace.name.as_str(), expected_workspace) {
        let mut m = cat3("workspace ", expected_workspace, " is not active on output ");
        m.append(monitor.name.as_str());
        m.append(" (active: ");
        m.append(monitor.active_workspace.name.as_str());
        m.append(") — captures would not show the window");
        return Err(Error::Tool { command: String::from_str("hyprctl monitors"), message: m });
    }
    Ok(())
}

/// What a blocked capture means, which differs by mode.
#[derive(Debug)]
pub enum Blocked {
    Host { output: String },
    Agent {
        session: String,
        host_output: String,
        workspace: String,
        /// The console address while the desktop is shown: the invariant then
        /// holds on the user's own workspace, not on the headless output.
        shown_console: Option<String>,
    },
}

/// The diagnosis of a shared capture that never returned.
pub open spec fn host_diagnosis(output: Seq<char>) -> Seq<char> {
    "output "@ + output
        + " stopped answering screencopy requests; check `hyprctl monitors` and that the session window is still visible on it"@
}

impl Blocked {
    /// Where the console has to be composited, for an agent desktop.
    pub open spec fn site_spec(&self, site: FrameSite) -> bool {
        match self {
            Blocked::Agent { host_output, workspace, shown_console, .. } => match shown_console {
                Some(c) => site matches FrameSite::Shown { console } && console@ == c@,
                None => site matches FrameSite::Headless { output, workspace: w } && output@
                    == host_output@ && w@ == workspace@,
            },
            Blocked::Host { .. } => true,
        }
    }

    /// What a capture that never returned means: on the host, an output that
    /// stopped answering screencopy, found without a command; in an agent
    /// desktop, the frame invariant, with what the host shows of it now, each
    /// read with its own runner of `runners`.
    pub fn diagnose<R: FnOnce(Vec<String>) -> Result<ProcessOutput, String>, PM: Fn(String) -> Result<
        Vec<Monitor>,
        String,
    >, PC: Fn(String) -> Result<Vec<Client>, String>>(&self, runners: &mut Vec<R>, pm: &PM, pc: &PC) -> (r:
        String)
        requires
            old(runners)@.len() >= isolated::PROBE_RUNNERS,
            runnable(old(runners)@),
            forall|s: String| call_requires(*pm, (s,)),
            forall|s: String| call_requires(*pc, (s,)),
        ensures
            match self {
                Blocked::Host { output } => r@ == host_diagnosis(output@) && final(runners)@ == old(runners)@,
                Blocked::Agent { session, .. } => exists|
                    site: FrameSite,
                    p: Result<Result<(), String>, Error>,
                |
                    self.site_spec(site) && probed_spec(old(runners)@, final(runners)@, *pm, *pc, site, p) && r@
                        == frames_reason_spec(session@, site, observation_spec(site, p)),
            },
    {
        match self {
            Blocked::Host { output } => {
                let mut r = cat("output ", output.as_str());
                r.append(
                    " stopped answering screencopy requests; check `hyprctl monitors` and that the session window is still visible on it",
                );
                r
            },
            Blocked::Agent { session, host_output, workspace, shown_console } => {
                let site = match shown_console {
                    Some(console) => FrameSite::Shown { console: console.as_str() },
                    None => FrameSite::Headless {
                        output: host_output.as_str(),
                        workspace: workspace.as_str(),
                    },
                };
                let observed = frames_observation(runners, pm, pc, &site);
                let r = isolated::frames_reason(session.as_str(), &site, observed.as_str());
                assert(self.site_spec(site));
                r
            },
        }
    }
}

/// Where captures go: `--out` when given, else the session's own `shots`
/// directory, so two agent desktops never share a file.
pub fn output_dir(session_dir: &str, out: Option<&str>) -> (r: String)
    ensures
        r@ == match out {
            Some(o) => o@,
            None => join_spec(session_dir@, "shots"@),
        },
{
    match out {
        Some(o) => own(o),
        None => join(session_dir, "shots"),
    }
}

/// The two scratch files `wait` alternates between, in the session directory.
pub fn scratch_paths(session_dir: &str) -> (r: [String; 2])
    ensures
        r[0]@ == join_spec(session_dir@, "wait-a.png"@),
        r[1]@ == join_spec(session_dir@, "wait-b.png"@),
{
    [join(session_dir, "wait-a.png"), join(session_dir, "wait-b.png")]
}

/// What `wait` waits for.
#[derive(Debug)]
pub enum WaitMode {
    /// Two consecutive identical captures.
    Stable,
    /// A capture that differs from the reference PNG.
    ChangedFrom(String),
}

/// Two captures only mean something about the same window when they were
/// framed the same way.
#[derive(Debug)]
pub struct Stability {
    pub framing: Option<String>,
    pub previous: Option<Image>,
}

/// The views of an optional string.
pub open spec fn framing_view(f: Option<String>) -> Option<Seq<char>> {
    match f {
        Some(t) => Some(t@),
        None => None,
    }
}

/// What one observation does: the framing is remembered, the picture becomes
/// the previous one, and it is stable when it is the same picture as the
/// previous one under the same framing.
pub open spec fn observed(old: Stability, framing: Option<String>, current: Image, new: Stability, r: bool) -> bool {
    &&& framing_view(new.framing) == framing_view(framing)
    &&& new.previous == Some(current)
    &&& r == (framing_view(old.framing) == framing_view(framing) && (old.previous matches Some(p)
        && p.same(&current)))
}

impl Stability {
    /// No capture seen yet.
    pub fn new() -> (r: Self)
        ensures
            r.framing is None && r.previous is None,
    {
        Stability { framing: None, previous: None }
    }

    /// Takes one capture: stable when it is the same picture as the previous
    /// one, framed the same way. A new framing starts the comparison over.
    pub fn observe(&mut self, framing: Option<String>, current: Image) -> (r: bool)
        ensures
            observed(*old(self), framing, current, *final(self), r),
    {
        let reframed = match (&self.framing, &framing) {
            (Some(a), Some(b)) => !str_eq(a.as_str(), b.as_str()),
            (None, None) => false,
            _ => true,
        };
        self.framing = framing;
        if reframed {
            self.previous = Some(current);
            return false;
        }
        let stable = match &self.previous {
            Some(previous) => previous.identical(&current),
            None => false,
        };
        self.previous = Some(current);
        stable
    }
}

/// One capture is never stable: the first picture, or the first under a new
/// framing, only starts the comparison.
pub proof fn one_capture_is_never_stable(old: Stability, framing: Option<String>, current: Image, new: Stability, r: bool)
    requires
        observed(old, framing, current, new, r),
        old.previous is None || framing_view(old.framing) != framing_view(framing),
    ensures
        !r,
{
}

/// Two identical pictures in a row under one framing are stable.
pub proof fn two_identical_captures_are_stable(
    s0: Stability,
    framing: Option<String>,
    a: Image,
    s1: Stability,
    r1: bool,
    b: Image,
    s2: Stability,
    r2: bool,
)
    requires
        observed(s0, framing, a, s1, r1),
        observed(s1, framing, b, s2, r2),
        a.same(&b),
    ensures
        r2,
{
}

/// The number a new shot takes: one past the highest `shot-N.png` already in
/// the directory, given the directory's file names.
pub open spec fn shot_number(name: Seq<char>) -> Option<u32> {
    if crate::text::is_prefix("shot-"@, name) && crate::text::is_suffix(".png"@, name)
        && name.len() >= 9 {
        crate::text::parse_u32_spec(name.subrange(5, name.len() - 4))
    } else {
        None
    }
}

/// The highest shot number among `names`, 0 when there is none.
pub open spec fn highest_shot(names: Seq<String>) -> u32
    decreases names.len(),
{
    if names.len() == 0 {
        0
    } else {
        let rest = highest_shot(names.drop_last());
        match shot_number(names.last()@) {
            Some(n) => if n > rest {
                n
            } else {
                rest
            },
            None => rest,
        }
    }
}

/// Reads the number out of `shot-N.png`.
pub fn parse_shot_name(name: &str) -> (r: Option<u32>)
    ensures
        r == shot_number(name@),
{
    let n = name.unicode_len();
    if !(crate::text::starts_with(name, "shot-") && crate::text::ends_with(name, ".png") && n >= 9) {
        return None;
    }
    let cs = crate::text::chars(name);
    let middle = crate::text::slice(cs.as_slice(), 5, n - 4);
    crate::text::parse_u32(middle.as_str())
}

/// The number the next shot takes in a directory holding `names`.
pub fn next_shot_name(names: &Vec<String>) -> (r: u32)
    ensures
        r == (if highest_shot(names@) == u32::MAX {
            0
        } else {
            (highest_shot(names@) + 1) as u32
        }),
{
    let mut max: u32 = 0;
    let mut i: usize = 0;
    while i < names.len()
        invariant
            i <= names@.len(),
            max == highest_shot(names@.subrange(0, i as int)),
        decreases names@.len() - i,
    {
        assert(names@.subrange(0, i + 1).drop_last() =~= names@.subrange(0, i as int));
        match parse_shot_name(names[i].as_str()) {
            Some(n) => {
                if n > max {
                    max = n;
                }
            },
            None => {},
        }
        i += 1;
    }
    assert(names@.subrange(0, names@.len() as int) =~= names@);
    max.wrapping_add(1)
}

/// A shot's number as its file name spells it: at least four digits.
pub open spec fn padded(n: u32) -> Seq<char> {
    let d = dec(n as nat);
    if d.len() >= 4 {
        d
    } else {
        Seq::new((4 - d.len()) as nat, |i: int| '0') + d
    }
}

/// `shot-NNNN.png`.
pub fn shot_file_name(n: u32) -> (r: String)
    ensures
        r@ == "shot-"@ + padded(n) + ".png"@,
{
    let d = fmt_u64(n as u64);
    let mut r = String::from_str("shot-");
    let len = d.unicode_len();
    let mut k: usize = len;
    while k < 4
        invariant
            len == dec(n as nat).len(),
            len <= k <= 4 || (len > 4 && k == len),
            r@ == "shot-"@ + Seq::new((k - len) as nat, |i: int| '0'),
        decreases 4 - k,
    {
        r.append("0");
        proof {
            reveal_strlit("0");
        }
        assert("shot-"@ + Seq::new((k + 1 - len) as nat, |i: int| '0') =~= "shot-"@ + Seq::new(
            (k - len) as nat,
            |i: int| '0',
        ) + "0"@);
        assert(Seq::new((k + 1 - len) as nat, |i: int| '0') =~= Seq::new(
            (k - len) as nat,
            |i: int| '0',
        ).push('0'));
        k += 1;
    }
    r.append(d.as_str());
    r.append(".png");
    proof {
        if len >= 4 {
            assert(Seq::new((k - len) as nat, |i: int| '0') =~= Seq::<char>::empty());
        }
    }
    assert(r@ =~= "shot-"@ + padded(n) + ".png"@);
    r
}

/// How a capture run under a deadline ended.
#[derive(Debug)]
pub enum Ran {
    Exited { success: bool, stderr: String },
    /// Never produced its frame and was killed; `signal` is the escalation
    /// that ended it.
    Killed { signal: &'static str, after_ms: u64 },
}

/// What a bounded capture does next.
#[derive(Debug, Clone, Copy, PartialEq, Eq)]
pub enum Bounded {
    /// The child is gone and wrote its frame, or failed on its own.
    Exited,
    /// The child is gone, ended by this signal.
    Killed(&'static str),
    /// Send this signal, then wait.
    Signal(&'static str),
    Wait,
}

/// One poll of a capture under its deadline, given whether the child exited
/// and how, and the last signal sent: a child that finished in the same
/// instant it was signalled still wrote its frame, so only a failed status
/// counts as killed; past the ladder a child is given up on as killed by the
/// last signal.
pub fn bounded_step(ladder: Escalation, sent: Option<&'static str>, exited: Option<bool>, elapsed: u64) -> (r:
    Bounded)
    ensures
        exited matches Some(success) ==> r == (match sent {
            Some(s) => if !success {
                Bounded::Killed(s)
            } else {
                Bounded::Exited
            },
            None => Bounded::Exited,
        }),
        exited is None && elapsed < ladder.polite ==> r == Bounded::Wait,
        exited is None && ladder.polite <= elapsed < ladder.polite + ladder.term ==> if (sent matches Some(
            s,
        ) && s@ == "TERM"@) {
            r == Bounded::Wait
        } else {
            r matches Bounded::Signal(s) && s@ == "TERM"@
        },
        exited is None && ladder.polite + ladder.term <= elapsed < ladder.polite + ladder.term
            + ladder.kill ==> if (sent matches Some(s) && s@ == "KILL"@) {
            r == Bounded::Wait
        } else {
            r matches Bounded::Signal(s) && s@ == "KILL"@
        },
        exited is None && ladder.polite + ladder.term + ladder.kill <= elapsed ==> match sent {
            Some(s) => r == Bounded::Killed(s),
            None => r matches Bounded::Killed(s) && s@ == "KILL"@,
        },
{
    if let Some(success) = exited {
        return match sent {
            Some(s) => if !success {
                Bounded::Killed(s)
            } else {
                Bounded::Exited
            },
            None => Bounded::Exited,
        };
    }
    match ladder.step(elapsed) {
        crate::session::Step::Signal(signal) => {
            let repeated = match sent {
                Some(s) => str_eq(s, signal),
                None => false,
            };
            if repeated {
                Bounded::Wait
            } else {
                Bounded::Signal(signal)
            }
        },
        crate::session::Step::Wait => Bounded::Wait,
        crate::session::Step::GiveUp => match sent {
            Some(s) => Bounded::Killed(s),
            None => Bounded::Killed("KILL"),
        },
    }
}

/// What a grim run amounts to: a frame, grim's own complaint, or a capture
/// that never returned with what it means.
pub fn grim_verdict(label: String, ran: Ran, diagnosis: String) -> (r: Result<(), Error>)
    ensures
        match ran {
            Ran::Exited { success, stderr } => if success {
                r is Ok
            } else {
                r matches Err(Error::Tool { command, message }) && command == label && message@
                    == crate::text::trimmed(stderr@)
            },
            Ran::Killed { signal, after_ms } => r matches Err(
                Error::CaptureTimeout { command, after_ms: a, signal: s, diagnosis: d },
            ) && command == label && a == after_ms && s@ == signal@ && d == diagnosis,
        },
{
    match ran {
        Ran::Exited { success, stderr } => if success {
            Ok(())
        } else {
            Err(Error::Tool { command: label, message: crate::text::trim(stderr.as_str()) })
        },
        Ran::Killed { signal, after_ms } => Err(
            Error::CaptureTimeout { command: label, after_ms, signal: own(signal), diagnosis },
        ),
    }
}

/// Where `c` last occurs in `s`; -1 when it does not.
pub open spec fn last_index(s: Seq<char>, c: char) -> int
    decreases s.len(),
{
    if s.len() == 0 {
        -1
    } else if s.last() == c {
        s.len() - 1
    } else {
        last_index(s.drop_last(), c)
    }
}

/// The extension of a file name as `Path::extension` documents it: the part
/// after its last `.`; none when it has no `.`, or its only `.` starts it.
pub open spec fn name_extension(file: Seq<char>) -> Option<Seq<char>> {
    let i = last_index(file, '.');
    if i <= 0 {
        None
    } else {
        Some(file.subrange(i + 1, file.len() as int))
    }
}

/// What `Path::extension` makes of a path: the extension of its file name,
/// none when it has no file name.
pub open spec fn path_extension(name: Seq<char>) -> Option<Seq<char>> {
    match crate::skills::file_name_of(name) {
        Some(file) => name_extension(file),
        None => None,
    }
}

/// `Path::new(name).extension()`, as a string.
#[verifier::external_body]
pub(crate) fn extension_of(name: &str) -> (r: Option<String>)
    ensures
        match r {
            Some(e) => path_extension(name@) == Some(e@),
            None => path_extension(name@) is None,
        },
{
    std::path::Path::new(name).extension().map(|e| e.to_string_lossy().into_owned())
}

/// The code of a character's ASCII lower case.
pub open spec fn ascii_lower(c: char) -> u32 {
    if 'A' <= c <= 'Z' {
        ((c as u32) + 32) as u32
    } else {
        c as u32
    }
}

/// Whether two texts are equal ignoring ASCII case.
pub open spec fn eq_ignore_ascii_case(a: Seq<char>, b: Seq<char>) -> bool {
    a.len() == b.len() && forall|i: int| 0 <= i < a.len() ==> ascii_lower(a[i]) == ascii_lower(b[i])
}

fn lower(c: char) -> (r: u32)
    ensures
        r == ascii_lower(c),
{
    if 'A' <= c && c <= 'Z' {
        (c as u32) + 32
    } else {
        c as u32
    }
}

pub(crate) fn same_ignoring_case(a: &str, b: &str) -> (r: bool)
    ensures
        r == eq_ignore_ascii_case(a@, b@),
{
    let av = crate::text::chars(a);
    let bv = crate::text::chars(b);
    if av.len() != bv.len() {
        return false;
    }
    let mut i: usize = 0;
    while i < av.len()
        invariant
            i <= av@.len(),
            av@.len() == bv@.len(),
            av@ == a@,
            bv@ == b@,
            forall|j: int| 0 <= j < i ==> ascii_lower(a@[j]) == ascii_lower(b@[j]),
        decreases av@.len() - i,
    {
        if lower(av[i]) != lower(bv[i]) {
            return false;
        }
        i += 1;
    }
    true
}

/// The file a shot is written to: the name asked for, `.png` added unless it
/// already has that extension in any case; `shot-NNNN.png` numbered after
/// the existing ones otherwise.
pub fn shot_target_name(name: Option<&str>, next: u32) -> (r: String)
    ensures
        match name {
            Some(n) => r@ == (if path_extension(n@) matches Some(e) && eq_ignore_ascii_case(
                e,
                "png"@,
            ) {
                n@
            } else {
                n@ + ".png"@
            }),
            None => r@ == "shot-"@ + padded(next) + ".png"@,
        },
{
    match name {
        Some(n) => {
            let png = match extension_of(n) {
                Some(e) => same_ignoring_case(e.as_str(), "png"),
                None => false,
            };
            if png {
                own(n)
            } else {
                cat(n, ".png")
            }
        },
        None => shot_file_name(next),
    }
}

/// What a capture is framed on: the compositor grim talks to (`None` is the
/// one this process inherited), the output, the window's region when not the
/// whole output, and what a capture that never returns means.
#[derive(Debug)]
pub struct Frame {
    pub display: Option<String>,
    pub output_name: String,
    pub geometry: Option<String>,
    pub blocked: Blocked,
}

/// The frame of a shared session: its output, where the session workspace
/// has to be the one shown, and the active window's region of it.
pub open spec fn host_frame_spec<R: FnOnce(Vec<String>) -> Result<ProcessOutput, String>, PC: Fn(String) -> Result<
    Vec<Client>,
    String,
>, PM: Fn(String) -> Result<Vec<Monitor>, String>>(
    pool: Seq<R>,
    after: Seq<R>,
    pc: PC,
    pm: PM,
    shared: crate::session::Shared,
    full: bool,
    r: Result<Frame, Error>,
) -> bool {
    exists|sw: Result<(crate::session::CurrentSession, Client), Error>|
        crate::session::shared_window_spec(nth_runner(pool, 0), pc, shared, sw) && match sw {
            Err(e) => r == Err::<Frame, Error>(e) && spent(pool, after, 1),
            Ok((current, window)) => spent(pool, after, 2) && exists|fo: Result<Option<Monitor>, Error>|
                crate::session::find_output_spec(nth_runner(pool, 1), pm, current.output@, fo) && match fo {
                    Err(e) => r == Err::<Frame, Error>(e),
                    Ok(None) => r matches Err(Error::Tool { command, message }) && command@
                        == "hyprctl monitors"@ && message@ == "session output "@ + current.output@
                        + " no longer exists"@,
                    Ok(Some(m)) => if m.special_workspace@.len() > 0 || m.active_workspace.name@
                        != current.workspace@ {
                        r is Err
                    } else if full {
                        r matches Ok(f) && f.display is None && f.output_name@ == m.name@
                            && f.geometry is None && (f.blocked matches Blocked::Host { output }
                            && output@ == m.name@)
                    } else {
                        exists|g: Result<String, Error>|
                            crop_spec(window.at, window.size, m, g) && match g {
                                Err(e) => r == Err::<Frame, Error>(e),
                                Ok(region) => r matches Ok(f) && f.display is None && f.output_name@
                                    == m.name@ && f.geometry == Some(region) && (f.blocked matches Blocked::Host {
                                    output,
                                } && output@ == m.name@),
                            }
                    },
                },
        }
}

/// The frame of an agent desktop: grim on the nested compositor's socket,
/// framed on the session's window inside it; `full` is the whole desktop.
pub open spec fn agent_frame_spec(name: Seq<char>, isolated: crate::session::Isolated, full: bool, target: isolated::AgentCapture, r: Result<Frame, Error>) -> bool {
    let blocked_ok = |b: Blocked|
        b matches Blocked::Agent { session, host_output, workspace, shown_console } && session@ == name
            && host_output@ == isolated.output@ && workspace@ == isolated.workspace@ && (if isolated.shown {
            shown_console matches Some(c) && c@ == target.console@
        } else {
            shown_console is None
        });
    if full {
        r matches Ok(f) && f.display == Some(target.wayland_display) && f.output_name@
            == target.monitor.name@ && f.geometry is None && blocked_ok(f.blocked)
    } else {
        exists|g: Result<String, Error>|
            crop_spec(target.window.at, target.window.size, target.monitor, g) && match g {
                Err(e) => r == Err::<Frame, Error>(e),
                Ok(region) => r matches Ok(f) && f.display == Some(target.wayland_display)
                    && f.output_name@ == target.monitor.name@ && f.geometry == Some(region) && blocked_ok(
                    f.blocked,
                ),
            }
    }
}

impl Frame {
    /// A shared session's frame: grim captures screen regions, so the session
    /// workspace has to be the active one on its output, or the capture would
    /// show the wallpaper instead of the window.
    pub fn host<R: FnOnce(Vec<String>) -> Result<ProcessOutput, String>, PC: Fn(String) -> Result<
        Vec<Client>,
        String,
    >, PM: Fn(String) -> Result<Vec<Monitor>, String>>(
        runners: &mut Vec<R>,
        pc: &PC,
        pm: &PM,
        shared: &crate::session::Shared,
        full: bool,
    ) -> (r: Result<Frame, Error>)
        requires
            old(runners)@.len() >= 2,
            runnable(old(runners)@),
            forall|s: String| call_requires(*pm, (s,)),
            forall|s: String| call_requires(*pc, (s,)),
        ensures
            host_frame_spec(old(runners)@, final(runners)@, *pc, *pm, *shared, full, r),
    {
        let ghost pool = runners@;
        let window_run = take_runner(runners);
        assert forall|v: Vec<String>| call_requires(window_run, (v,)) by {
            assert(call_requires(pool[pool.len() - 1], (v,)));
        }
        let sw = crate::session::shared_window(window_run, pc, shared);
        let ghost gsw = sw;
        assert(crate::session::shared_window_spec(nth_runner(pool, 0), *pc, *shared, gsw));
        let (current, window) = match sw {
            Err(e) => return Err(e),
            Ok(pair) => pair,
        };
        let output_run = take_runner(runners);
        assert forall|v: Vec<String>| call_requires(output_run, (v,)) by {
            assert(call_requires(pool[pool.len() - 2], (v,)));
        }
        assert(runners@ =~= pool.subrange(0, pool.len() - 2));
        let fo = crate::session::find_output(output_run, pm, current.output.as_str());
        let ghost gfo = fo;
        assert(crate::session::find_output_spec(nth_runner(pool, 1), *pm, current.output@, gfo));
        let monitor = match fo {
            Err(e) => {
                return Err(e);
            },
            Ok(None) => {
                return Err(
                    Error::Tool {
                        command: own("hyprctl monitors"),
                        message: cat3("session output ", current.output.as_str(), " no longer exists"),
                    },
                );
            },
            Ok(Some(m)) => m,
        };
        match ensure_capture_visible(current.workspace.as_str(), &monitor) {
            Err(e) => return Err(e),
            Ok(()) => {},
        }
        let geometry = if full {
            None
        } else {
            let g = crop_geometry(window.at, window.size, &monitor);
            let ghost gg = g;
            match g {
                Err(e) => return Err(e),
                Ok(region) => {
                    assert(crop_spec(window.at, window.size, monitor, gg));
                    Some(region)
                },
            }
        };
        Ok(
            Frame {
                display: None,
                blocked: Blocked::Host { output: monitor.name.clone() },
                output_name: monitor.name,
                geometry,
            },
        )
    }

    /// An agent desktop's frame, from what `capture_target` resolved.
    pub fn agent(name: &str, isolated: &crate::session::Isolated, full: bool, target: isolated::AgentCapture) -> (r:
        Result<Frame, Error>)
        ensures
            agent_frame_spec(name@, *isolated, full, target, r),
    {
        let ghost gt = target;
        let geometry = if full {
            None
        } else {
            let g = crop_geometry(target.window.at, target.window.size, &target.monitor);
            let ghost gg = g;
            match g {
                Err(e) => return Err(e),
                Ok(region) => {
                    assert(crop_spec(gt.window.at, gt.window.size, gt.monitor, gg));
                    Some(region)
                },
            }
        };
        let shown_console = if isolated.shown {
            Some(target.console)
        } else {
            None
        };
        Ok(
            Frame {
                display: Some(target.wayland_display),
                output_name: target.monitor.name,
                geometry,
                blocked: Blocked::Agent {
                    session: own(name),
                    host_output: isolated.output.clone(),
                    workspace: isolated.workspace.clone(),
                    shown_console,
                },
            },
        )
    }

    /// The arguments grim is run with to write the frame to `dest`.
    pub fn grim_args(&self, dest: &str) -> (r: Vec<String>)
        ensures
            crate::hypr::string_views(r@) == match self.geometry {
                Some(g) => seq!["-g"@, g@, dest@],
                None => seq!["-o"@, self.output_name@, dest@],
            },
    {
        let mut r: Vec<String> = Vec::new();
        match &self.geometry {
            Some(g) => {
                r.push(own("-g"));
                r.push(g.clone());
            },
            None => {
                r.push(own("-o"));
                r.push(self.output_name.clone());
            },
        }
        r.push(own(dest));
        assert(crate::hypr::string_views(r@) =~= match self.geometry {
            Some(g) => seq!["-g"@, g@, dest@],
            None => seq!["-o"@, self.output_name@, dest@],
        });
        r
    }
}

/// How grim's command reads in a message: `grim ARGS...`.
pub fn grim_label(args: &Vec<String>) -> (r: String)
    ensures
        r@ == "grim "@ + crate::session::joined_by(crate::hypr::string_views(args@), " "@),
{
    cat("grim ", crate::session::join_with(args, " ").as_str())
}

/// What a `wait` that ran out of time waited for.
pub fn wait_timeout(mode: &WaitMode, timeout_ms: u64) -> (e: Error)
    ensures
        e matches Error::Timeout { what, after_ms } && after_ms == timeout_ms && what@ == match mode {
            WaitMode::Stable => "a stable frame"@,
            WaitMode::ChangedFrom(path) => "a change from "@ + path@,
        },
{
    let what = match mode {
        WaitMode::Stable => own("a stable frame"),
        WaitMode::ChangedFrom(path) => cat("a change from ", path.as_str()),
    };
    Error::Timeout { what, after_ms: timeout_ms }
}

/// `... after Nms (K capture(s))`.
pub open spec fn after_text(verb: Seq<char>, elapsed_ms: u64, captures: u32) -> Seq<char> {
    verb + " after "@ + dec(elapsed_ms as nat) + "ms ("@ + dec(captures as nat) + " capture(s))"@
}

/// One capture of a `wait`: done when it differs from the reference, or, with
/// none, when it is stable; `None` means capture again.
pub fn wait_observe(
    reference: Option<&Image>,
    stability: &mut Stability,
    framing: Option<String>,
    current: Image,
    captures: u32,
    elapsed_ms: u64,
) -> (r: Option<String>)
    ensures
        match reference {
            Some(image) => *final(stability) == *old(stability) && if current.same(image) {
                r is None
            } else {
                r matches Some(m) && m@ == after_text("changed"@, elapsed_ms, captures)
            },
            None => exists|stable: bool|
                observed(*old(stability), framing, current, *final(stability), stable) && if stable {
                    r matches Some(m) && m@ == after_text("stable"@, elapsed_ms, captures)
                } else {
                    r is None
                },
        },
{
    let mut done = |verb: &str| -> (m: String)
        ensures
            m@ == after_text(verb@, elapsed_ms, captures),
    {
        let mut m = cat(verb, " after ");
        m.append(fmt_u64(elapsed_ms).as_str());
        m.append("ms (");
        m.append(fmt_u64(captures as u64).as_str());
        m.append(" capture(s))");
        m
    };
    match reference {
        Some(image) => if current.identical(image) {
            None
        } else {
            Some(done("changed"))
        },
        None => {
            let stable = stability.observe(framing, current);
            if stable {
                Some(done("stable"))
            } else {
                None
            }
        },
    }
}

} // verus!
