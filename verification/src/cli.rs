//! What the command line reports: the `doctor` report and the checks that
//! decide it, and how a configured size is compared with an effective one.
use vstd::prelude::*;

use crate::error::Error;
use crate::hypr::{Client, Devices, Keyboard, Monitor, find_client, string_views};
use crate::session::{Isolated, Mode, Session, Shared, TrackedWindow, tracked_spec, is_tracked};
use crate::isolated::LiveInstance;
use crate::isolated::NESTED_BINARY;
use crate::session::{join_with, joined_by};
use crate::text::{cat, cat3, chars, dec, find_char, first_index, fmt_u64, is_prefix, is_space, own, slice};

verus! {

/// The Hyprland version the agent desktop recipe was validated on. Another
/// version is a warning, not a failure.
pub const TESTED_HYPRLAND: &'static str = "0.56";

/// `s` without its leading whitespace.
pub open spec fn skip_space(s: Seq<char>) -> Seq<char>
    decreases s.len(),
{
    if s.len() > 0 && is_space(s[0]) {
        skip_space(s.drop_first())
    } else {
        s
    }
}

/// The leading run of non-whitespace of `s`.
pub open spec fn take_word(s: Seq<char>) -> Seq<char>
    decreases s.len(),
{
    if s.len() > 0 && !is_space(s[0]) {
        seq![s[0]] + take_word(s.drop_first())
    } else {
        Seq::empty()
    }
}

/// `w` without its leading `v`s.
pub open spec fn strip_v(w: Seq<char>) -> Seq<char>
    decreases w.len(),
{
    if w.len() > 0 && w[0] == 'v' {
        strip_v(w.drop_first())
    } else {
        w
    }
}

/// Whether a token reads as a version: it has a dot and starts with a digit.
pub open spec fn version_like(t: Seq<char>) -> bool {
    t.contains('.') && t.len() > 0 && '0' <= t[0] <= '9'
}

pub proof fn lemma_take_word_len(s: Seq<char>)
    ensures
        take_word(s).len() <= s.len(),
        s.len() > 0 && !is_space(s[0]) ==> take_word(s).len() >= 1,
    decreases s.len(),
{
    if s.len() > 0 && !is_space(s[0]) {
        lemma_take_word_len(s.drop_first());
    }
}

pub proof fn lemma_skip_space_len(s: Seq<char>)
    ensures
        skip_space(s).len() <= s.len(),
        skip_space(s).len() > 0 ==> !is_space(skip_space(s)[0]),
    decreases s.len(),
{
    if s.len() > 0 && is_space(s[0]) {
        lemma_skip_space_len(s.drop_first());
    }
}

/// The first whitespace-separated token of `s` that, with its leading `v`s
/// taken off, reads as a version.
pub open spec fn version_in(s: Seq<char>) -> Option<Seq<char>>
    decreases s.len(),
{
    let t = skip_space(s);
    if t.len() == 0 {
        None
    } else {
        let w = take_word(t);
        if version_like(strip_v(w)) {
            Some(strip_v(w))
        } else {
            proof {
                lemma_skip_space_len(s);
                lemma_take_word_len(t);
            }
            version_in(t.subrange(w.len() as int, t.len() as int))
        }
    }
}

proof fn lemma_skip_space_at(s: Seq<char>, i: int, j: int)
    requires
        0 <= i <= j <= s.len(),
        forall|k: int| i <= k < j ==> is_space(s[k]),
        j == s.len() || !is_space(s[j]),
    ensures
        skip_space(s.subrange(i, s.len() as int)) == s.subrange(j, s.len() as int),
    decreases j - i,
{
    if i < j {
        assert(s.subrange(i, s.len() as int).drop_first() =~= s.subrange(i + 1, s.len() as int));
        lemma_skip_space_at(s, i + 1, j);
    } else {
        assert(s.subrange(i, s.len() as int).len() == 0 || !is_space(s.subrange(i, s.len() as int)[0]));
    }
}

proof fn lemma_take_word_at(s: Seq<char>, i: int, j: int)
    requires
        0 <= i <= j <= s.len(),
        forall|k: int| i <= k < j ==> !is_space(s[k]),
        j == s.len() || is_space(s[j]),
    ensures
        take_word(s.subrange(i, s.len() as int)) == s.subrange(i, j),
    decreases j - i,
{
    if i < j {
        assert(s.subrange(i, s.len() as int).drop_first() =~= s.subrange(i + 1, s.len() as int));
        lemma_take_word_at(s, i + 1, j);
        assert(seq![s[i]] + s.subrange(i + 1, j) =~= s.subrange(i, j));
    } else {
        assert(s.subrange(i, i) =~= Seq::<char>::empty());
    }
}

proof fn lemma_strip_v_at(w: Seq<char>, k: int)
    requires
        0 <= k <= w.len(),
        forall|m: int| 0 <= m < k ==> w[m] == 'v',
        k == w.len() || w[k] != 'v',
    ensures
        strip_v(w) == w.subrange(k, w.len() as int),
    decreases k,
{
    if k > 0 {
        let d = w.drop_first();
        assert forall|m: int| 0 <= m < k - 1 implies d[m] == 'v' by {
            assert(d[m] == w[m + 1]);
        }
        lemma_strip_v_at(d, k - 1);
        assert(d.subrange(k - 1, d.len() as int) =~= w.subrange(k, w.len() as int));
    } else {
        assert(w.subrange(0, w.len() as int) =~= w);
    }
}

/// The version token of a `hyprctl version` line, e.g. `0.56.0` out of
/// `Hyprland 0.56.0 built from branch ...`.
pub fn version_number(line: &str) -> (r: Option<String>)
    ensures
        match r {
            Some(v) => version_in(line@) == Some(v@),
            None => version_in(line@) is None,
        },
{
    let c = chars(line);
    let n = c.len();
    let mut i: usize = 0;
    assert(line@.subrange(0, n as int) =~= line@);
    while i < n
        invariant
            n == c@.len(),
            c@ == line@,
            i <= n,
            version_in(line@) == version_in(line@.subrange(i as int, n as int)),
        decreases n - i,
    {
        let mut a = i;
        while a < n && crate::text::space(c[a])
            invariant
                i <= a <= n,
                n == c@.len(),
                forall|k: int| i <= k < a ==> is_space(c@[k]),
            decreases n - a,
        {
            a += 1;
        }
        proof {
            lemma_skip_space_at(c@, i as int, a as int);
        }
        if a == n {
            assert(c@.subrange(a as int, n as int).len() == 0);
            return None;
        }
        let mut b = a;
        while b < n && !crate::text::space(c[b])
            invariant
                a <= b <= n,
                n == c@.len(),
                forall|k: int| a <= k < b ==> !is_space(c@[k]),
            decreases n - b,
        {
            b += 1;
        }
        proof {
            lemma_take_word_at(c@, a as int, b as int);
        }
        let ghost t = c@.subrange(a as int, n as int);
        let ghost w = c@.subrange(a as int, b as int);
        let mut k = a;
        while k < b && c[k] == 'v'
            invariant
                a <= k <= b,
                b <= n,
                n == c@.len(),
                forall|m: int| a <= m < k ==> c@[m] == 'v',
            decreases b - k,
        {
            k += 1;
        }
        proof {
            assert forall|m: int| 0 <= m < k - a implies w[m] == 'v' by {
                assert(w[m] == c@[a + m]);
            }
            lemma_strip_v_at(w, (k - a) as int);
            assert(w.subrange(k - a, w.len() as int) =~= c@.subrange(k as int, b as int));
        }
        let mut has_dot = false;
        let mut m = k;
        while m < b
            invariant
                k <= m <= b,
                b <= n,
                n == c@.len(),
                has_dot == exists|q: int| k <= q < m && c@[q] == '.',
            decreases b - m,
        {
            if c[m] == '.' {
                has_dot = true;
            }
            m += 1;
        }
        proof {
            let v = c@.subrange(k as int, b as int);
            if has_dot {
                let q = choose|q: int| k <= q < b && c@[q] == '.';
                assert(v[q - k] == '.');
            } else {
                assert forall|q: int| 0 <= q < v.len() implies v[q] != '.' by {
                    assert(v[q] == c@[k + q]);
                }
            }
        }
        if k < b && has_dot && '0' <= c[k] && c[k] <= '9' {
            return Some(slice(c.as_slice(), k, b));
        }
        proof {
            assert(t.subrange(w.len() as int, t.len() as int) =~= c@.subrange(b as int, n as int));
        }
        i = b;
    }
    assert(c@.subrange(n as int, n as int).len() == 0);
    None
}

/// Accumulated `doctor` output. Only `FAIL` lines decide the outcome: a
/// `warn` is something to know about, not a broken environment.
#[derive(Debug)]
pub struct Report {
    pub lines: Vec<String>,
    pub failures: u64,
}

impl Report {
    pub fn new() -> (r: Self)
        ensures
            r.lines@.len() == 0 && r.failures == 0,
    {
        Report { lines: Vec::new(), failures: 0 }
    }

    fn push(&mut self, tag: &str, line: &str)
        ensures
            string_views(final(self).lines@) == string_views(old(self).lines@).push(tag@ + line@),
            final(self).failures == old(self).failures,
    {
        let ghost before = self.lines@;
        self.lines.push(cat(tag, line));
        proof {
            crate::hypr::lemma_string_views_push(before, self.lines@.last());
        }
    }

    pub fn ok(&mut self, line: &str)
        ensures
            string_views(final(self).lines@) == string_views(old(self).lines@).push(
                "ok    "@ + line@,
            ),
            final(self).failures == old(self).failures,
    {
        self.push("ok    ", line);
    }

    pub fn warn(&mut self, line: &str)
        ensures
            string_views(final(self).lines@) == string_views(old(self).lines@).push(
                "warn  "@ + line@,
            ),
            final(self).failures == old(self).failures,
    {
        self.push("warn  ", line);
    }

    pub fn info(&mut self, line: &str)
        ensures
            string_views(final(self).lines@) == string_views(old(self).lines@).push(
                "info  "@ + line@,
            ),
            final(self).failures == old(self).failures,
    {
        self.push("info  ", line);
    }

    /// A failed check: counted, so the report as a whole fails.
    pub fn fail(&mut self, line: &str)
        requires
            old(self).failures < u64::MAX,
        ensures
            string_views(final(self).lines@) == string_views(old(self).lines@).push(
                "FAIL  "@ + line@,
            ),
            final(self).failures == old(self).failures + 1,
    {
        self.failures = self.failures + 1;
        self.push("FAIL  ", line);
    }

    /// `success` when `ok`, else `failure` as a failed check.
    pub fn check(&mut self, ok: bool, success: &str, failure: &str)
        requires
            old(self).failures < u64::MAX,
        ensures
            ok ==> string_views(final(self).lines@) == string_views(old(self).lines@).push(
                "ok    "@ + success@,
            ) && final(self).failures == old(self).failures,
            !ok ==> string_views(final(self).lines@) == string_views(old(self).lines@).push(
                "FAIL  "@ + failure@,
            ) && final(self).failures == old(self).failures + 1,
    {
        if ok {
            self.ok(success);
        } else {
            self.fail(failure);
        }
    }

    /// The report, one line per check; failed as a whole when any check
    /// failed.
    pub fn finish(self) -> (r: Result<String, Error>)
        ensures
            self.failures == 0 ==> (r matches Ok(t) && t@ == joined_by(
                string_views(self.lines@),
                "\n"@,
            )),
            self.failures > 0 ==> (r matches Err(Error::DoctorFailed { report, failures }) && report@
                == joined_by(string_views(self.lines@), "\n"@) && failures == self.failures),
    {
        let report = join_with(&self.lines, "\n");
        if self.failures == 0 {
            Ok(report)
        } else {
            Err(Error::DoctorFailed { report, failures: self.failures })
        }
    }
}

/// What isolated mode needs from the environment, read once so the checks
/// stay pure.
#[derive(Debug)]
pub struct AgentProbe {
    pub binary: bool,
    /// First line of `hyprctl version`, or `None` when it could not be read.
    pub version: Option<String>,
    pub sessions_dir: String,
    pub sessions_writable: bool,
    /// Where every compositor keeps its instance directory and its socket.
    pub instances_dir: String,
    pub instances_listable: bool,
    /// Whether the host's own instance socket is in there; `None` when the
    /// host's signature is unknown.
    pub host_socket: Option<bool>,
}

/// The version line of the agent checks: validated, another version, or
/// none found.
pub open spec fn version_line(version: Option<Seq<char>>) -> Seq<char> {
    match version {
        Some(v) => if is_prefix(TESTED_HYPRLAND@, v) {
            "ok    "@ + "Hyprland "@ + v + " is the version agent desktops were validated on"@
        } else {
            "warn  "@ + "Hyprland "@ + v + ": agent desktops were validated on "@ + TESTED_HYPRLAND@
                + " — the nested spawn, the console window class and the frame-callback behaviour captures depend on may differ"@
        },
        None => "warn  "@
            + "no version number in `hyprctl version` — agent desktops were validated on Hyprland "@
            + TESTED_HYPRLAND@,
    }
}

/// The version a probe read, as `version_number` finds it.
pub open spec fn probed_version(probe: AgentProbe) -> Option<Seq<char>> {
    match probe.version {
        Some(line) => version_in(line@),
        None => None,
    }
}

/// The lines the agent checks add, in order.
pub open spec fn agent_lines(probe: AgentProbe) -> Seq<Seq<char>> {
    let binary = if probe.binary {
        "ok    "@ + NESTED_BINARY@ + " found on PATH — an agent desktop is a nested "@ + NESTED_BINARY@
    } else {
        "FAIL  "@ + NESTED_BINARY@
            + " not found on PATH — `session start --isolated` cannot spawn an agent desktop"@
    };
    let sessions = if probe.sessions_writable {
        "ok    "@ + probe.sessions_dir@ + " is writable — sessions can be claimed"@
    } else {
        "FAIL  "@ + probe.sessions_dir@ + " is not writable — no session can be claimed there"@
    };
    let instances = if probe.instances_listable {
        "ok    "@ + probe.instances_dir@
            + " is listable — a start finds its nested compositor by diffing it, and `hyprctl -i` talks to the socket inside"@
    } else {
        "FAIL  "@ + probe.instances_dir@
            + " cannot be listed — a start cannot discover the instance it spawns, and no command could address it"@
    };
    let socket: Seq<Seq<char>> = match probe.host_socket {
        Some(true) => seq![
            "ok    "@ + "this session's own instance socket is in "@ + probe.instances_dir@
                + " — the layout an agent desktop is addressed through"@,
        ],
        Some(false) => seq![
            "FAIL  "@ + "this session's own instance socket is missing from "@ + probe.instances_dir@
                + " — an agent desktop is addressed through that layout, so a nested compositor could not be reached either"@,
        ],
        None => Seq::empty(),
    };
    seq![binary, version_line(probed_version(probe)), sessions, instances] + socket
}

/// How many of the agent checks failed.
pub open spec fn agent_failures(probe: AgentProbe) -> nat {
    (if probe.binary {
        0nat
    } else {
        1nat
    }) + (if probe.sessions_writable {
        0nat
    } else {
        1nat
    }) + (if probe.instances_listable {
        0nat
    } else {
        1nat
    }) + (if probe.host_socket == Some(false) {
        1nat
    } else {
        0nat
    })
}

/// The checks isolated mode adds to `doctor`.
pub fn agent_checks(probe: &AgentProbe, report: &mut Report)
    requires
        old(report).failures < u64::MAX - 4,
    ensures
        string_views(final(report).lines@) == string_views(old(report).lines@) + agent_lines(*probe),
        final(report).failures == old(report).failures + agent_failures(*probe),
{
    let ghost start = string_views(report.lines@);
    let ghost f0 = report.failures;
    let mut ok = String::from_str(NESTED_BINARY);
    ok.append(" found on PATH — an agent desktop is a nested ");
    ok.append(NESTED_BINARY);
    let mut fail = String::from_str(NESTED_BINARY);
    fail.append(" not found on PATH — `session start --isolated` cannot spawn an agent desktop");
    report.check(probe.binary, ok.as_str(), fail.as_str());
    assert(("ok    "@ + ok@) =~= "ok    "@ + NESTED_BINARY@
        + " found on PATH — an agent desktop is a nested "@ + NESTED_BINARY@);
    assert(("FAIL  "@ + fail@) =~= "FAIL  "@ + NESTED_BINARY@
        + " not found on PATH — `session start --isolated` cannot spawn an agent desktop"@);
    assert(string_views(report.lines@) =~= start + agent_lines(*probe).subrange(0, 1));
    let found = match &probe.version {
        Some(line) => version_number(line.as_str()),
        None => None,
    };
    match found {
        Some(v) => {
            if crate::text::starts_with(v.as_str(), TESTED_HYPRLAND) {
                let line = cat3("Hyprland ", v.as_str(), " is the version agent desktops were validated on");
                report.ok(line.as_str());
                assert(is_prefix(TESTED_HYPRLAND@, v@));
                assert(("ok    "@ + line@) =~= version_line(Some(v@)));
            } else {
                let mut line = cat3("Hyprland ", v.as_str(), ": agent desktops were validated on ");
                line.append(TESTED_HYPRLAND);
                line.append(
                    " — the nested spawn, the console window class and the frame-callback behaviour captures depend on may differ",
                );
                report.warn(line.as_str());
                assert(!is_prefix(TESTED_HYPRLAND@, v@));
                assert(("warn  "@ + line@) =~= version_line(Some(v@)));
            }
        },
        None => {
            let line = cat(
                "no version number in `hyprctl version` — agent desktops were validated on Hyprland ",
                TESTED_HYPRLAND,
            );
            report.warn(line.as_str());
            assert(("warn  "@ + line@) =~= version_line(None));
        },
    }
    assert(string_views(report.lines@) =~= start + agent_lines(*probe).subrange(0, 2));
    let dir = probe.sessions_dir.as_str();
    report.check(
        probe.sessions_writable,
        cat(dir, " is writable — sessions can be claimed").as_str(),
        cat(dir, " is not writable — no session can be claimed there").as_str(),
    );
    assert(("ok    "@ + (dir@ + " is writable — sessions can be claimed"@)) =~= "ok    "@ + dir@
        + " is writable — sessions can be claimed"@);
    assert(("FAIL  "@ + (dir@ + " is not writable — no session can be claimed there"@)) =~= "FAIL  "@
        + dir@ + " is not writable — no session can be claimed there"@);
    assert(string_views(report.lines@) =~= start + agent_lines(*probe).subrange(0, 3));
    let instances = probe.instances_dir.as_str();
    report.check(
        probe.instances_listable,
        cat(
            instances,
            " is listable — a start finds its nested compositor by diffing it, and `hyprctl -i` talks to the socket inside",
        ).as_str(),
        cat(
            instances,
            " cannot be listed — a start cannot discover the instance it spawns, and no command could address it",
        ).as_str(),
    );
    assert(("ok    "@ + (instances@
        + " is listable — a start finds its nested compositor by diffing it, and `hyprctl -i` talks to the socket inside"@))
        =~= "ok    "@ + instances@
        + " is listable — a start finds its nested compositor by diffing it, and `hyprctl -i` talks to the socket inside"@);
    assert(("FAIL  "@ + (instances@
        + " cannot be listed — a start cannot discover the instance it spawns, and no command could address it"@))
        =~= "FAIL  "@ + instances@
        + " cannot be listed — a start cannot discover the instance it spawns, and no command could address it"@);
    assert(string_views(report.lines@) =~= start + agent_lines(*probe).subrange(0, 4));
    match probe.host_socket {
        Some(true) => {
            let line = cat3(
                "this session's own instance socket is in ",
                instances,
                " — the layout an agent desktop is addressed through",
            );
            report.ok(line.as_str());
            assert(("ok    "@ + line@) =~= "ok    "@ + "this session's own instance socket is in "@
                + instances@ + " — the layout an agent desktop is addressed through"@);
        },
        Some(false) => {
            let line = cat3(
                "this session's own instance socket is missing from ",
                instances,
                " — an agent desktop is addressed through that layout, so a nested compositor could not be reached either",
            );
            report.fail(line.as_str());
            assert(("FAIL  "@ + line@) =~= "FAIL  "@
                + "this session's own instance socket is missing from "@ + instances@
                + " — an agent desktop is addressed through that layout, so a nested compositor could not be reached either"@);
        },
        None => {},
    }
    assert(string_views(report.lines@) =~= start + agent_lines(*probe));
}

/// Whether the effective size of an output differs from the configured one.
pub fn sizes_mismatch(configured: [u32; 2], effective: [i64; 2]) -> (r: bool)
    ensures
        r == (effective[0] != configured[0] || effective[1] != configured[1]),
{
    effective[0] != configured[0] as i64 || effective[1] != configured[1] as i64
}

/// Which session a window listing annotates: none, a shared one, an agent
/// desktop with the window it recorded, or one whose state could not be read.
pub enum WindowSession<'a> {
    Absent,
    Shared(&'a Shared),
    Agent(Option<&'a str>),
    Unknown,
}

/// One row of `windows`.
#[derive(Debug)]
pub struct WindowInfo {
    pub address: String,
    pub class: String,
    pub initial_class: String,
    pub title: String,
    pub initial_title: String,
    pub pid: i32,
    pub workspace: String,
    pub at: [i32; 2],
    pub size: [i32; 2],
    pub floating: bool,
    pub focused: bool,
    pub monitor: i64,
    /// `None` when the session state could not be read.
    pub tracking: Option<bool>,
    pub active: Option<bool>,
}

/// Whether a window is tracked and active in the session: never without a
/// session, unknown when the state is unreadable, and for an agent desktop
/// both mean the window it recorded.
pub open spec fn annotation(session: WindowSession, client: Client) -> (Option<bool>, Option<bool>) {
    match session {
        WindowSession::Absent => (Some(false), Some(false)),
        WindowSession::Shared(shared) => (
            Some(tracked_spec(shared.windows@, client.address@)),
            Some(shared.active_address@ == client.address@),
        ),
        WindowSession::Agent(recorded) => {
            let is_recorded = recorded matches Some(a) && a@ == client.address@;
            (Some(is_recorded), Some(is_recorded))
        },
        WindowSession::Unknown => (None, None),
    }
}

/// A window listed as a row: its own fields, whether it is the focused one,
/// and the session's annotation of it.
pub open spec fn row_of(client: Client, focused: Option<&str>, session: WindowSession, row: WindowInfo) -> bool {
    &&& row.address@ == client.address@
    &&& row.class@ == client.class@
    &&& row.initial_class@ == client.initial_class@
    &&& row.title@ == client.title@
    &&& row.initial_title@ == client.initial_title@
    &&& row.pid == client.pid
    &&& row.workspace@ == client.workspace.name@
    &&& row.at == client.at
    &&& row.size == client.size
    &&& row.floating == client.floating
    &&& row.focused == (focused matches Some(f) && f@ == client.address@)
    &&& row.monitor == client.monitor
    &&& (row.tracking, row.active) == annotation(session, client)
}

fn annotate(client: &Client, session: &WindowSession) -> (r: (Option<bool>, Option<bool>))
    ensures
        r == annotation(*session, *client),
{
    match session {
        WindowSession::Absent => (Some(false), Some(false)),
        WindowSession::Shared(shared) => (
            Some(is_tracked(&shared.windows, client.address.as_str())),
            Some(crate::text::str_eq(shared.active_address.as_str(), client.address.as_str())),
        ),
        WindowSession::Agent(recorded) => {
            let is_recorded = match recorded {
                Some(a) => crate::text::str_eq(a, client.address.as_str()),
                None => false,
            };
            (Some(is_recorded), Some(is_recorded))
        },
        WindowSession::Unknown => (None, None),
    }
}

/// Every client as a row of `windows`, in the compositor's order.
pub fn window_rows(clients: &[Client], focused: Option<&str>, session: &WindowSession) -> (r: Vec<WindowInfo>)
    ensures
        r@.len() == clients@.len(),
        forall|i: int| 0 <= i < clients@.len() ==> row_of(clients@[i], focused, *session, #[trigger] r@[i]),
{
    let mut rows: Vec<WindowInfo> = Vec::new();
    let mut i: usize = 0;
    while i < clients.len()
        invariant
            i <= clients@.len(),
            rows@.len() == i,
            forall|j: int| 0 <= j < i ==> row_of(clients@[j], focused, *session, #[trigger] rows@[j]),
        decreases clients@.len() - i,
    {
        let c = &clients[i];
        let (tracking, active) = annotate(c, session);
        let is_focused = match focused {
            Some(f) => crate::text::str_eq(f, c.address.as_str()),
            None => false,
        };
        rows.push(
            WindowInfo {
                address: c.address.clone(),
                class: c.class.clone(),
                initial_class: c.initial_class.clone(),
                title: c.title.clone(),
                initial_title: c.initial_title.clone(),
                pid: c.pid,
                workspace: c.workspace.name.clone(),
                at: c.at,
                size: c.size,
                floating: c.floating,
                focused: is_focused,
                monitor: c.monitor,
                tracking,
                active,
            },
        );
        i += 1;
    }
    rows
}

/// Whether a client is the tracked window at `address`, sitting on the
/// parking workspace.
pub open spec fn parked_at(clients: Seq<Client>, address: Seq<char>, parking: Seq<char>) -> bool {
    exists|i: int|
        0 <= i < clients.len() && clients[i].address@ == address && clients[i].workspace.name@ == parking
}

/// The tracked windows sitting on the parking workspace, in tracking order.
pub open spec fn parked_spec(windows: Seq<crate::session::TrackedWindow>, clients: Seq<Client>, parking: Seq<char>) -> Seq<
    Seq<char>,
>
    decreases windows.len(),
{
    if windows.len() == 0 {
        Seq::empty()
    } else {
        let rest = parked_spec(windows.drop_last(), clients, parking);
        if parked_at(clients, windows.last().address@, parking) {
            rest.push(windows.last().address@)
        } else {
            rest
        }
    }
}

fn is_parked(clients: &[Client], address: &str, parking: &str) -> (r: bool)
    ensures
        r == parked_at(clients@, address@, parking@),
{
    let mut i: usize = 0;
    while i < clients.len()
        invariant
            i <= clients@.len(),
            forall|j: int|
                0 <= j < i ==> !(clients@[j].address@ == address@ && clients@[j].workspace.name@ == parking@),
        decreases clients@.len() - i,
    {
        if crate::text::str_eq(clients[i].address.as_str(), address) && crate::text::str_eq(
            clients[i].workspace.name.as_str(),
            parking,
        ) {
            return true;
        }
        i += 1;
    }
    false
}

/// What `status` lists as parked: the tracked windows the host shows on the
/// parking workspace.
pub fn parked_windows(state: &Shared, clients: &[Client]) -> (r: Vec<String>)
    ensures
        string_views(r@) == parked_spec(state.windows@, clients@, state.parking_workspace@),
{
    let mut r: Vec<String> = Vec::new();
    let mut i: usize = 0;
    while i < state.windows.len()
        invariant
            i <= state.windows@.len(),
            string_views(r@) == parked_spec(
                state.windows@.subrange(0, i as int),
                clients@,
                state.parking_workspace@,
            ),
        decreases state.windows@.len() - i,
    {
        assert(state.windows@.subrange(0, i + 1).drop_last() =~= state.windows@.subrange(0, i as int));
        let address = state.windows[i].address.as_str();
        if is_parked(clients, address, state.parking_workspace.as_str()) {
            let ghost before = r@;
            r.push(state.windows[i].address.clone());
            proof {
                crate::hypr::lemma_string_views_push(before, state.windows@[i as int].address);
            }
        }
        i += 1;
    }
    assert(state.windows@.subrange(0, state.windows@.len() as int) =~= state.windows@);
    r
}

/// The window `status` describes: the active one of the session, which has
/// to still exist.
pub fn status_window<'c>(clients: &'c [Client], state: &Shared) -> (r: Result<&'c Client, Error>)
    ensures
        match r {
            Ok(c) => c.address@ == state.active_address@ && exists|i: int|
                0 <= i < clients@.len() && clients@[i] == *c && forall|j: int|
                    0 <= j < i ==> clients@[j].address@ != state.active_address@,
            Err(e) => (e matches Error::WindowGone(a) && a@ == state.active_address@) && forall|i: int|
                0 <= i < clients@.len() ==> clients@[i].address@ != state.active_address@,
        },
{
    match find_client(clients, state.active_address.as_str()) {
        Some(c) => Ok(c),
        None => Err(Error::WindowGone(state.active_address.clone())),
    }
}

/// The size an output really has next to the configured one: none without an
/// output, and whether the two differ.
pub open spec fn size_report(configured: [u32; 2], output: Option<&Monitor>, effective: Option<[i64; 2]>, mismatch: Option<bool>) -> bool {
    match output {
        None => effective is None && mismatch is None,
        Some(m) => (effective matches Some(e) && e[0] == m.width && e[1] == m.height) && mismatch == Some(
            m.width != configured[0] || m.height != configured[1],
        ),
    }
}

fn sizes_of(configured: [u32; 2], output: Option<&Monitor>) -> (r: (Option<[i64; 2]>, Option<bool>))
    ensures
        size_report(configured, output, r.0, r.1),
{
    match output {
        None => (None, None),
        Some(m) => {
            let effective = [m.width, m.height];
            (Some(effective), Some(sizes_mismatch(configured, effective)))
        },
    }
}

/// The mode a session was started in.
pub open spec fn mode_of(session: Session) -> Mode {
    if session.state is Shared {
        Mode::Shared
    } else {
        Mode::Isolated
    }
}

/// Whether an optional borrowed text is the recorded one.
pub open spec fn same_text(a: Option<&str>, b: Option<String>) -> bool {
    match b {
        Some(t) => a matches Some(u) && u@ == t@,
        None => a is None,
    }
}

fn as_text(o: &Option<String>) -> (r: Option<&str>)
    ensures
        same_text(r, *o),
{
    match o {
        Some(t) => Some(t.as_str()),
        None => None,
    }
}

/// What `status` reports of a shared session: the state it recorded, and the
/// window, output and focus the host shows now.
#[derive(Debug)]
pub struct SharedStatus<'a> {
    pub schema_version: u32,
    pub session: &'a str,
    pub mode: Mode,
    pub windows: &'a [TrackedWindow],
    pub active_address: &'a str,
    pub parked_windows: Vec<String>,
    pub configured_size: [u32; 2],
    pub effective_size: Option<[i64; 2]>,
    pub size_mismatch: Option<bool>,
    /// The active window as the host shows it.
    pub window: &'a Client,
    pub output: Option<&'a Monitor>,
    /// The window the user has focused.
    pub user_active_window: Option<&'a Client>,
    pub initial_user_focus: Option<&'a str>,
    /// True when the session adopted a window it did not launch.
    pub attached: bool,
    pub spawned_pid: Option<u32>,
}

/// `status` of a shared session, from the host's clients, the session's
/// output and the user's focused window. The active window has to still
/// exist.
pub fn shared_status<'a>(
    session: &'a Session,
    state: &'a Shared,
    clients: &'a [Client],
    output: Option<&'a Monitor>,
    active: Option<&'a Client>,
) -> (r: Result<SharedStatus<'a>, Error>)
    ensures
        match r {
            Err(e) => (e matches Error::WindowGone(a) && a@ == state.active_address@) && forall|i: int|
                0 <= i < clients@.len() ==> clients@[i].address@ != state.active_address@,
            Ok(s) => {
                &&& s.schema_version == session.schema_version
                &&& s.session@ == session.name@
                &&& s.mode == mode_of(*session)
                &&& s.windows@ == state.windows@
                &&& s.active_address@ == state.active_address@
                &&& string_views(s.parked_windows@) == parked_spec(state.windows@, clients@, state.parking_workspace@)
                &&& s.configured_size == state.size
                &&& size_report(state.size, output, s.effective_size, s.size_mismatch)
                &&& s.window.address@ == state.active_address@
                &&& exists|i: int|
                    0 <= i < clients@.len() && clients@[i] == *s.window && forall|j: int|
                        0 <= j < i ==> clients@[j].address@ != state.active_address@
                &&& s.output == output
                &&& s.user_active_window == active
                &&& same_text(s.initial_user_focus, state.initial_user_focus)
                &&& s.attached == (state.spawned_pid is None)
                &&& s.spawned_pid == state.spawned_pid
            },
        },
{
    let window = match status_window(clients, state) {
        Ok(w) => w,
        Err(e) => return Err(e),
    };
    let parked = parked_windows(state, clients);
    let (effective_size, size_mismatch) = sizes_of(state.size, output);
    Ok(
        SharedStatus {
            schema_version: session.schema_version,
            session: session.name.as_str(),
            mode: session.mode(),
            windows: state.windows.as_slice(),
            active_address: state.active_address.as_str(),
            parked_windows: parked,
            configured_size: state.size,
            effective_size,
            size_mismatch,
            window,
            output,
            user_active_window: active,
            initial_user_focus: as_text(&state.initial_user_focus),
            attached: state.spawned_pid.is_none(),
            spawned_pid: state.spawned_pid,
        },
    )
}

/// What `status` reports of an agent desktop: its state, the instance it
/// runs, and its geometry as the instance itself reports it, next to the
/// host output that frames it.
#[derive(Debug)]
pub struct AgentStatus<'a> {
    pub schema_version: u32,
    pub session: &'a str,
    pub mode: Mode,
    pub workspace: &'a str,
    pub shown: bool,
    pub instance: LiveInstance<'a>,
    pub active_address: Option<&'a str>,
    pub configured_size: [u32; 2],
    pub effective_size: Option<[i64; 2]>,
    pub size_mismatch: Option<bool>,
    /// The recorded window inside the instance, if it still exists.
    pub window: Option<&'a Client>,
    /// The one output the nested compositor has.
    pub agent_output: Option<&'a Monitor>,
    /// The host output whose active workspace must stay the agent's.
    pub output: Option<&'a Monitor>,
}

/// The first client at an address, as `find_client` picks it.
pub open spec fn first_client(clients: Seq<Client>, address: Seq<char>, found: Option<&Client>) -> bool {
    match found {
        Some(c) => exists|i: int|
            0 <= i < clients.len() && clients[i] == *c && c.address@ == address && forall|j: int|
                0 <= j < i ==> clients[j].address@ != address,
        None => forall|i: int| 0 <= i < clients.len() ==> clients[i].address@ != address,
    }
}

/// `status` of an agent desktop, from the outputs and clients its instance
/// reports and the host output of the session.
pub fn agent_status<'a>(
    session: &'a Session,
    isolated: &'a Isolated,
    instance: LiveInstance<'a>,
    outputs: &'a [Monitor],
    clients: &'a [Client],
    host_output: Option<&'a Monitor>,
) -> (r: AgentStatus<'a>)
    ensures
        r.schema_version == session.schema_version,
        r.session@ == session.name@,
        r.mode == mode_of(*session),
        r.workspace@ == isolated.workspace@,
        r.shown == isolated.shown,
        r.instance == instance,
        same_text(r.active_address, isolated.active_address),
        r.configured_size == isolated.size,
        r.agent_output == (if outputs@.len() > 0 {
            Some(&outputs@[0])
        } else {
            None
        }),
        size_report(isolated.size, r.agent_output, r.effective_size, r.size_mismatch),
        match isolated.active_address {
            Some(a) => first_client(clients@, a@, r.window),
            None => r.window is None,
        },
        r.output == host_output,
{
    let agent_output = if outputs.len() > 0 {
        Some(&outputs[0])
    } else {
        None
    };
    let (effective_size, size_mismatch) = sizes_of(isolated.size, agent_output);
    let window = match &isolated.active_address {
        Some(a) => find_client(clients, a.as_str()),
        None => None,
    };
    AgentStatus {
        schema_version: session.schema_version,
        session: session.name.as_str(),
        mode: session.mode(),
        workspace: isolated.workspace.as_str(),
        shown: isolated.shown,
        instance,
        active_address: as_text(&isolated.active_address),
        configured_size: isolated.size,
        effective_size,
        size_mismatch,
        window,
        agent_output,
        output: host_output,
    }
}

/// The first line of a text, as `str::lines` yields it; `unknown` for a text
/// with no line at all.
pub open spec fn first_line_spec(s: Seq<char>) -> Seq<char> {
    if s.len() == 0 {
        "unknown"@
    } else {
        let i = first_index(s, '\n');
        if i < 0 {
            s
        } else if i > 0 && s[i - 1] == '\r' {
            s.subrange(0, i - 1)
        } else {
            s.subrange(0, i)
        }
    }
}

pub fn first_line(s: &str) -> (r: String)
    ensures
        r@ == first_line_spec(s@),
{
    let v = chars(s);
    if v.len() == 0 {
        let r = String::from_str("unknown");
        proof {
            reveal_strlit("unknown");
        }
        return r;
    }
    match find_char(v.as_slice(), '\n') {
        None => own(s),
        Some(i) => {
            if i > 0 && v[i - 1] == '\r' {
                slice(v.as_slice(), 0, i - 1)
            } else {
                slice(v.as_slice(), 0, i)
            }
        },
    }
}

/// What isolated mode needs from the environment, before the version is
/// known.
#[derive(Debug)]
pub struct AgentEnvironment {
    pub binary: bool,
    pub sessions_dir: String,
    pub sessions_writable: bool,
    pub instances_dir: String,
    pub instances_listable: bool,
    pub host_socket: Option<bool>,
}

/// Everything `doctor` reads from the machine, read once: each probe is the
/// value found, or the text of the error that kept it from being read.
#[derive(Debug)]
pub struct DoctorProbe {
    /// What `hyprctl version` printed.
    pub version: Result<String, String>,
    /// Whether `HYPRLAND_INSTANCE_SIGNATURE` is set.
    pub signature_set: bool,
    /// Whether `grim` is on `PATH`.
    pub grim: bool,
    /// The runtime directory and whether it is writable.
    pub runtime_dir: Result<(String, bool), String>,
    pub agent: Result<AgentEnvironment, String>,
    /// The host rules sessions posed and Hyprland cannot retract.
    pub host_leaks: Vec<String>,
    /// Whether the compositor exposes the virtual pointer protocol.
    pub virtual_pointer: Result<bool, String>,
    pub devices: Result<Devices, String>,
}

/// The agent probe `doctor` checks: the environment, with the first line of
/// `hyprctl version` when it could be read.
pub open spec fn probe_of(env: AgentEnvironment, version: Result<String, String>) -> AgentProbe {
    AgentProbe {
        binary: env.binary,
        version: match version {
            Ok(out) => Some(first_line_string(out)),
            Err(_) => None,
        },
        sessions_dir: env.sessions_dir,
        sessions_writable: env.sessions_writable,
        instances_dir: env.instances_dir,
        instances_listable: env.instances_listable,
        host_socket: env.host_socket,
    }
}

/// A string whose view is the first line of `out`.
pub open spec fn first_line_string(out: String) -> String {
    choose|t: String| t@ == first_line_spec(out@)
}

/// A check's line: `ok` with `success`, or `FAIL` with `failure`.
pub open spec fn checked(ok: bool, success: Seq<char>, failure: Seq<char>) -> Seq<char> {
    if ok {
        "ok    "@ + success
    } else {
        "FAIL  "@ + failure
    }
}

pub open spec fn version_check(version: Result<String, String>) -> Seq<char> {
    match version {
        Ok(out) => "ok    "@ + first_line_spec(out@),
        Err(e) => "FAIL  "@ + "hyprctl: "@ + e@,
    }
}

pub open spec fn runtime_check(runtime: Result<(String, bool), String>) -> Seq<char> {
    match runtime {
        Ok((dir, writable)) => checked(writable, dir@ + " is writable"@, dir@ + " is not writable"@),
        Err(e) => "FAIL  "@ + e@,
    }
}

/// The lines `doctor` opens with: the compositor, the session, grim and the
/// runtime directory.
pub open spec fn host_lines(p: DoctorProbe) -> Seq<Seq<char>> {
    seq![
        version_check(p.version),
        checked(
            p.signature_set,
            "HYPRLAND_INSTANCE_SIGNATURE is set"@,
            "HYPRLAND_INSTANCE_SIGNATURE is not set — not inside a Hyprland session?"@,
        ),
        checked(p.grim, "grim found on PATH"@, "grim not found on PATH — install grim for captures"@),
        runtime_check(p.runtime_dir),
    ]
}

pub open spec fn host_failures(p: DoctorProbe) -> nat {
    (if p.version is Err {
        1nat
    } else {
        0nat
    }) + (if p.signature_set {
        0nat
    } else {
        1nat
    }) + (if p.grim {
        0nat
    } else {
        1nat
    }) + runtime_failures(p.runtime_dir)
}

pub open spec fn runtime_failures(runtime: Result<(String, bool), String>) -> nat {
    match runtime {
        Ok((_, writable)) => if writable {
            0nat
        } else {
            1nat
        },
        Err(_) => 1nat,
    }
}

pub open spec fn agent_section(p: DoctorProbe) -> Seq<Seq<char>> {
    match p.agent {
        Ok(env) => agent_lines(probe_of(env, p.version)),
        Err(e) => seq!["FAIL  "@ + e@],
    }
}

pub open spec fn agent_section_failures(p: DoctorProbe) -> nat {
    match p.agent {
        Ok(env) => agent_failures(probe_of(env, p.version)),
        Err(_) => 1nat,
    }
}

pub open spec fn leak_text() -> Seq<char> {
    " host rule(s) posed by hyprpilot sessions cannot be retracted while Hyprland runs and stay until `hyprctl reload`: "@
}

/// The note on rules that outlive their session; none when there are none.
pub open spec fn leak_lines(leaks: Seq<Seq<char>>) -> Seq<Seq<char>> {
    if leaks.len() == 0 {
        Seq::empty()
    } else {
        seq!["info  "@ + dec(leaks.len()) + leak_text() + joined_by(leaks, ", "@)]
    }
}

pub open spec fn pointer_check(pointer: Result<bool, String>) -> Seq<char> {
    match pointer {
        Ok(present) => checked(
            present,
            "zwlr_virtual_pointer_manager_v1 is available"@,
            "compositor does not expose zwlr_virtual_pointer_manager_v1 — `click` will not work"@,
        ),
        Err(e) => "FAIL  "@ + e@,
    }
}

pub open spec fn pointer_note() -> Seq<char> {
    "the virtual pointer probe above asked the compositor of $WAYLAND_DISPLAY, which is the host: an agent desktop's own nested compositor is only probed when `click` or `scroll` run against that session"@
}

/// The main keyboard: the first one flagged as such.
pub open spec fn first_main(keyboards: Seq<Keyboard>) -> Option<Keyboard>
    decreases keyboards.len(),
{
    if keyboards.len() == 0 {
        None
    } else if keyboards[0].main {
        Some(keyboards[0])
    } else {
        first_main(keyboards.drop_first())
    }
}

pub open spec fn keyboard_text(layout: Seq<char>, keymap: Seq<char>) -> Seq<char> {
    "main keyboard layout `"@ + layout + "` (active keymap `"@ + keymap
        + "`) — `type` maps characters through US shift pairs; accented characters need a keymap exposing them (e.g. fr)"@
}

pub open spec fn keyboard_line(devices: Result<Devices, String>) -> Seq<char> {
    match devices {
        Ok(d) => match first_main(d.keyboards@) {
            Some(k) => "info  "@ + keyboard_text(k.layout@, k.active_keymap@),
            None => "info  "@ + keyboard_text("unknown"@, "unknown"@),
        },
        Err(e) => "FAIL  "@ + "hyprctl devices: "@ + e@,
    }
}

/// The lines `doctor` closes with: leaked rules, the virtual pointer and the
/// keyboard.
pub open spec fn tail_lines(p: DoctorProbe) -> Seq<Seq<char>> {
    leak_lines(string_views(p.host_leaks@)) + seq![
        pointer_check(p.virtual_pointer),
        "info  "@ + pointer_note(),
        keyboard_line(p.devices),
    ]
}

pub open spec fn pointer_failures(pointer: Result<bool, String>) -> nat {
    match pointer {
        Ok(present) => if present {
            0nat
        } else {
            1nat
        },
        Err(_) => 1nat,
    }
}

pub open spec fn tail_failures(p: DoctorProbe) -> nat {
    pointer_failures(p.virtual_pointer) + (if p.devices is Err {
        1nat
    } else {
        0nat
    })
}

/// Every line of the `doctor` report, in order.
pub open spec fn doctor_lines(p: DoctorProbe) -> Seq<Seq<char>> {
    host_lines(p) + agent_section(p) + tail_lines(p)
}

/// How many checks of the report failed.
pub open spec fn doctor_failures(p: DoctorProbe) -> nat {
    host_failures(p) + agent_section_failures(p) + tail_failures(p)
}

fn host_checks(p: &DoctorProbe, report: &mut Report)
    requires
        old(report).failures == 0,
    ensures
        string_views(final(report).lines@) == string_views(old(report).lines@) + host_lines(*p),
        final(report).failures == host_failures(*p),
{
    let ghost start = string_views(report.lines@);
    match &p.version {
        Ok(out) => {
            let line = first_line(out.as_str());
            report.ok(line.as_str());
        },
        Err(e) => {
            let line = cat("hyprctl: ", e.as_str());
            report.fail(line.as_str());
            assert(("FAIL  "@ + line@) =~= "FAIL  "@ + "hyprctl: "@ + e@);
        },
    }
    report.check(
        p.signature_set,
        "HYPRLAND_INSTANCE_SIGNATURE is set",
        "HYPRLAND_INSTANCE_SIGNATURE is not set — not inside a Hyprland session?",
    );
    report.check(p.grim, "grim found on PATH", "grim not found on PATH — install grim for captures");
    match &p.runtime_dir {
        Ok((dir, writable)) => {
            let yes = cat(dir.as_str(), " is writable");
            let no = cat(dir.as_str(), " is not writable");
            report.check(*writable, yes.as_str(), no.as_str());
        },
        Err(e) => {
            report.fail(e.as_str());
        },
    }
    assert(string_views(report.lines@) =~= start + host_lines(*p));
}

fn agent_section_checks(p: DoctorProbe, report: &mut Report)
    requires
        old(report).failures <= 4,
    ensures
        string_views(final(report).lines@) == string_views(old(report).lines@) + agent_section(p),
        final(report).failures == old(report).failures + agent_section_failures(p),
{
    match p.agent {
        Ok(env) => {
            let version = match &p.version {
                Ok(out) => Some(first_line(out.as_str())),
                Err(_) => None,
            };
            let probe = AgentProbe {
                binary: env.binary,
                version,
                sessions_dir: env.sessions_dir,
                sessions_writable: env.sessions_writable,
                instances_dir: env.instances_dir,
                instances_listable: env.instances_listable,
                host_socket: env.host_socket,
            };
            agent_checks(&probe, report);
            proof {
                let spec_probe = probe_of(env, p.version);
                match p.version {
                    Ok(out) => {
                        assert(first_line_string(out)@ == first_line_spec(out@));
                    },
                    Err(_) => {},
                }
                assert(agent_lines(probe) =~= agent_lines(spec_probe));
                assert(agent_failures(probe) == agent_failures(spec_probe));
            }
        },
        Err(e) => {
            report.fail(e.as_str());
        },
    }
}

fn main_keyboard(keyboards: &Vec<Keyboard>) -> (r: Option<&Keyboard>)
    ensures
        match first_main(keyboards@) {
            Some(k) => r == Some(&k),
            None => r is None,
        },
{
    let mut i: usize = 0;
    assert(keyboards@.subrange(0, keyboards@.len() as int) =~= keyboards@);
    while i < keyboards.len()
        invariant
            i <= keyboards@.len(),
            first_main(keyboards@) == first_main(keyboards@.subrange(i as int, keyboards@.len() as int)),
        decreases keyboards@.len() - i,
    {
        assert(keyboards@.subrange(i as int, keyboards@.len() as int).drop_first() =~= keyboards@.subrange(
            i + 1,
            keyboards@.len() as int,
        ));
        if keyboards[i].main {
            return Some(&keyboards[i]);
        }
        i += 1;
    }
    None
}

fn tail_checks(p: &DoctorProbe, report: &mut Report)
    requires
        old(report).failures <= 10,
    ensures
        string_views(final(report).lines@) == string_views(old(report).lines@) + tail_lines(*p),
        final(report).failures == old(report).failures + tail_failures(*p),
{
    let ghost start = string_views(report.lines@);
    if p.host_leaks.len() > 0 {
        let mut line = fmt_u64(p.host_leaks.len() as u64);
        line.append(
            " host rule(s) posed by hyprpilot sessions cannot be retracted while Hyprland runs and stay until `hyprctl reload`: ",
        );
        let joined = join_with(&p.host_leaks, ", ");
        line.append(joined.as_str());
        report.info(line.as_str());
        assert(string_views(p.host_leaks@).len() == p.host_leaks@.len());
        assert(("info  "@ + line@) =~= "info  "@ + dec(string_views(p.host_leaks@).len()) + leak_text()
            + joined_by(string_views(p.host_leaks@), ", "@));
    } else {
        assert(string_views(p.host_leaks@).len() == 0);
    }
    assert(string_views(report.lines@) =~= start + leak_lines(string_views(p.host_leaks@)));
    match &p.virtual_pointer {
        Ok(present) => {
            report.check(
                *present,
                "zwlr_virtual_pointer_manager_v1 is available",
                "compositor does not expose zwlr_virtual_pointer_manager_v1 — `click` will not work",
            );
        },
        Err(e) => {
            report.fail(e.as_str());
        },
    }
    report.info(
        "the virtual pointer probe above asked the compositor of $WAYLAND_DISPLAY, which is the host: an agent desktop's own nested compositor is only probed when `click` or `scroll` run against that session",
    );
    match &p.devices {
        Ok(d) => {
            let (layout, keymap) = match main_keyboard(&d.keyboards) {
                Some(k) => (k.layout.as_str(), k.active_keymap.as_str()),
                None => ("unknown", "unknown"),
            };
            let mut line = cat3("main keyboard layout `", layout, "` (active keymap `");
            line.append(keymap);
            line.append(
                "`) — `type` maps characters through US shift pairs; accented characters need a keymap exposing them (e.g. fr)",
            );
            report.info(line.as_str());
            assert(("info  "@ + line@) =~= "info  "@ + keyboard_text(layout@, keymap@));
        },
        Err(e) => {
            let line = cat("hyprctl devices: ", e.as_str());
            report.fail(line.as_str());
            assert(("FAIL  "@ + line@) =~= "FAIL  "@ + "hyprctl devices: "@ + e@);
        },
    }
    assert(string_views(report.lines@) =~= start + tail_lines(*p));
}

/// The `doctor` report: every check in order, one line each, and a failure
/// as a whole when any check failed. Warnings and notes never fail it.
pub fn doctor(probe: DoctorProbe) -> (r: Result<String, Error>)
    ensures
        doctor_failures(probe) == 0 ==> (r matches Ok(t) && t@ == joined_by(doctor_lines(probe), "\n"@)),
        doctor_failures(probe) > 0 ==> (r matches Err(Error::DoctorFailed { report, failures }) && report@
            == joined_by(doctor_lines(probe), "\n"@) && failures == doctor_failures(probe)),
{
    let ghost p = probe;
    let mut report = Report::new();
    host_checks(&probe, &mut report);
    let DoctorProbe { version, signature_set, grim, runtime_dir, agent, host_leaks, virtual_pointer, devices } =
        probe;
    let rest = DoctorProbe {
        version: Err(String::new()),
        signature_set,
        grim,
        runtime_dir,
        agent: Err(String::new()),
        host_leaks,
        virtual_pointer,
        devices,
    };
    let section = DoctorProbe {
        version,
        signature_set,
        grim,
        runtime_dir: Err(String::new()),
        agent,
        host_leaks: Vec::new(),
        virtual_pointer: Err(String::new()),
        devices: Err(String::new()),
    };
    assert(agent_section(section) == agent_section(p));
    agent_section_checks(section, &mut report);
    tail_checks(&rest, &mut report);
    assert(tail_lines(rest) == tail_lines(p));
    assert(string_views(report.lines@) =~= doctor_lines(p));
    report.finish()
}

} // verus!
