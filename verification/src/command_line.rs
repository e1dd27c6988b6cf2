//! The command line of `hyprpilot`: long flags (`--name value`,
//! `--name=value`, switches) anywhere after the program name, `-h` and `-V`,
//! `--` before arguments that merely look like flags, and the words that
//! name the command and carry its arguments.
use vstd::prelude::*;

use crate::pointer::{MouseButton, button_label};
use crate::session::Disposition;
use crate::text::{all_digits, is_digit, cat3, chars, own, parse_i32, parse_i32_spec, parse_u64, parse_u64_spec, slice, split_once, split_once_spec, str_eq};

verus! {

/// A flag as written: its name, and its value when it takes one.
pub type FlagView = (Seq<char>, Option<Seq<char>>);

/// Flags that take a value.
pub open spec fn value_flag(n: Seq<char>) -> bool {
    n == "session"@ || n == "address"@ || n == "match-title"@ || n == "match-class"@ || n == "pid"@
        || n == "wait"@ || n == "on-teardown"@ || n == "delay-ms"@ || n == "button"@ || n == "dy"@
        || n == "dx"@ || n == "out"@ || n == "changed-from"@ || n == "timeout"@ || n == "app"@
        || n == "size"@
}

/// Flags that take none.
pub open spec fn switch_flag(n: Seq<char>) -> bool {
    n == "untracked"@ || n == "focus"@ || n == "double"@ || n == "absolute"@ || n == "full"@
        || n == "stable"@ || n == "kill"@ || n == "close"@ || n == "isolated"@ || n == "help"@
        || n == "version"@
}

fn is_value_flag(n: &str) -> (r: bool)
    ensures
        r == value_flag(n@),
{
    str_eq(n, "session") || str_eq(n, "address") || str_eq(n, "match-title") || str_eq(n, "match-class")
        || str_eq(n, "pid") || str_eq(n, "wait") || str_eq(n, "on-teardown") || str_eq(n, "delay-ms")
        || str_eq(n, "button") || str_eq(n, "dy") || str_eq(n, "dx") || str_eq(n, "out")
        || str_eq(n, "changed-from") || str_eq(n, "timeout") || str_eq(n, "app") || str_eq(n, "size")
}

fn is_switch_flag(n: &str) -> (r: bool)
    ensures
        r == switch_flag(n@),
{
    str_eq(n, "untracked") || str_eq(n, "focus") || str_eq(n, "double") || str_eq(n, "absolute")
        || str_eq(n, "full") || str_eq(n, "stable") || str_eq(n, "kill") || str_eq(n, "close")
        || str_eq(n, "isolated") || str_eq(n, "help") || str_eq(n, "version")
}

/// Whether `a` is spelled like a long flag.
pub open spec fn long_flag(a: Seq<char>) -> bool {
    a.len() >= 2 && a[0] == '-' && a[1] == '-'
}

/// A negative number, which stands as a word (an offset such as `-5`).
pub open spec fn negative_number(a: Seq<char>) -> bool {
    a.len() >= 2 && a[0] == '-' && all_digits(a.subrange(1, a.len() as int))
}

/// Spelled like a short flag other than a negative number: there are none
/// but `-h` and `-V`, so any other is refused.
pub open spec fn short_flag(a: Seq<char>) -> bool {
    a.len() >= 2 && a[0] == '-' && a[1] != '-' && !negative_number(a)
}

/// Whether an argument of `args` from index `i` on, before the first `--`,
/// is a negative number. Only `click` and `scroll` take one as a word.
pub open spec fn negative_before_literal(args: Seq<Seq<char>>, i: int) -> bool
    decreases args.len() - i,
{
    if i < 0 || i >= args.len() || args[i] == "--"@ {
        false
    } else {
        negative_number(args[i]) || negative_before_literal(args, i + 1)
    }
}

/// The commands at the top of the command line.
pub open spec fn top_command(c: Seq<char>) -> bool {
    c == "status"@ || c == "windows"@ || c == "doctor"@ || c == "teardown"@ || c == "key"@ || c == "type"@
        || c == "click"@ || c == "scroll"@ || c == "shot"@ || c == "wait"@ || c == "target"@ || c == "session"@
}

/// `help`, alone or followed by the commands it is asked about, the first
/// of them a command of the top level.
pub open spec fn help_words(w: Seq<Seq<char>>) -> bool {
    w.len() > 0 && w[0] == "help"@ && (w.len() == 1 || top_command(w[1]))
}

/// The words and flags of `args` from index `i` on, after `words` and
/// `flags` were read before it; `literal` once `--` was read. `None` for
/// an unknown flag, or a flag that needs a value and has none.
pub open spec fn scan_spec(
    args: Seq<Seq<char>>,
    i: int,
    literal: bool,
    words: Seq<Seq<char>>,
    flags: Seq<FlagView>,
) -> Option<(Seq<Seq<char>>, Seq<FlagView>)>
    decreases args.len() - i,
{
    if i < 0 || i >= args.len() {
        Some((words, flags))
    } else {
        let a = args[i];
        if literal {
            scan_spec(args, i + 1, true, words.push(a), flags)
        } else if a == "--"@ {
            scan_spec(args, i + 1, true, words, flags)
        } else if a == "-h"@ {
            scan_spec(args, i + 1, false, words, flags.push(("help"@, None)))
        } else if a == "-V"@ {
            scan_spec(args, i + 1, false, words, flags.push(("version"@, None)))
        } else if short_flag(a) {
            None
        } else if long_flag(a) {
            let body = a.subrange(2, a.len() as int);
            match split_once_spec(body, '=') {
                Some((n, v)) => if value_flag(n) {
                    scan_spec(args, i + 1, false, words, flags.push((n, Some(v))))
                } else {
                    None
                },
                None => if value_flag(body) {
                    if i + 1 < args.len() {
                        scan_spec(args, i + 2, false, words, flags.push((body, Some(args[i + 1]))))
                    } else {
                        None
                    }
                } else if switch_flag(body) {
                    scan_spec(args, i + 1, false, words, flags.push((body, None)))
                } else {
                    None
                },
            }
        } else {
            scan_spec(args, i + 1, false, words.push(a), flags)
        }
    }
}

/// The text of each argument.
pub open spec fn arg_texts(args: Seq<&str>) -> Seq<Seq<char>> {
    args.map_values(|a: &str| a@)
}

/// The text of each word.
pub open spec fn word_texts(words: Seq<String>) -> Seq<Seq<char>> {
    words.map_values(|w: String| w@)
}

pub open spec fn flag_view(f: (String, Option<String>)) -> FlagView {
    (f.0@, match f.1 {
        Some(v) => Some(v@),
        None => None,
    })
}

/// The text of each flag.
pub open spec fn flag_texts(flags: Seq<(String, Option<String>)>) -> Seq<FlagView> {
    flags.map_values(|f: (String, Option<String>)| flag_view(f))
}

/// The command line after the program name, read into words and flags.
pub open spec fn scanned(args: Seq<&str>) -> Option<(Seq<Seq<char>>, Seq<FlagView>)> {
    scan_spec(arg_texts(args), 1, false, Seq::empty(), Seq::empty())
}

fn is_short_flag(a: &str) -> (r: bool)
    ensures
        r == short_flag(a@),
{
    let cs = chars(a);
    if cs.len() < 2 || cs[0] != '-' || cs[1] == '-' {
        return false;
    }
    let mut i: usize = 1;
    while i < cs.len()
        invariant
            cs@ == a@,
            1 <= i <= cs@.len(),
            cs@.len() >= 2,
            cs@[0] == '-',
            cs@[1] != '-',
            forall|k: int| 1 <= k < i ==> is_digit(#[trigger] cs@[k]),
        decreases cs@.len() - i,
    {
        if !(cs[i] >= '0' && cs[i] <= '9') {
            assert(!all_digits(a@.subrange(1, a@.len() as int))) by {
                assert(a@.subrange(1, a@.len() as int)[i - 1] == cs@[i as int]);
                assert(!is_digit(a@.subrange(1, a@.len() as int)[i - 1]));
            }
            assert(!negative_number(a@));
            return true;
        }
        i += 1;
    }
    assert(all_digits(a@.subrange(1, a@.len() as int))) by {
        assert forall|k: int| 0 <= k < a@.len() - 1 implies is_digit(#[trigger] a@.subrange(1, a@.len() as int)[k]) by {
            assert(a@.subrange(1, a@.len() as int)[k] == cs@[k + 1]);
        }
    }
    false
}

fn is_long_flag(a: &str) -> (r: bool)
    ensures
        r == long_flag(a@),
{
    let cs = chars(a);
    cs.len() >= 2 && cs[0] == '-' && cs[1] == '-'
}

/// Reads `args`, the program name first, into words and flags.
pub fn scan(args: &[&str]) -> (r: Option<(Vec<String>, Vec<(String, Option<String>)>)>)
    ensures
        match (r, scanned(args@)) {
            (Some((w, f)), Some((sw, sf))) => word_texts(w@) == sw && flag_texts(f@) == sf,
            (None, None) => true,
            _ => false,
        },
{
    let ghost view = arg_texts(args@);
    let mut words: Vec<String> = Vec::new();
    let mut flags: Vec<(String, Option<String>)> = Vec::new();
    let mut literal = false;
    let mut i: usize = 1;
    assert(word_texts(words@) =~= Seq::<Seq<char>>::empty());
    assert(flag_texts(flags@) =~= Seq::<FlagView>::empty());
    while i < args.len()
        invariant
            i >= 1,
            view == arg_texts(args@),
            scanned(args@) == scan_spec(view, i as int, literal, word_texts(words@), flag_texts(flags@)),
        decreases args.len() - i,
    {
        let a: &str = args[i];
        assert(view[i as int] == a@);
        if literal {
            let ghost before = word_texts(words@);
            words.push(own(a));
            assert(word_texts(words@) =~= before.push(a@));
            i += 1;
        } else if str_eq(a, "--") {
            literal = true;
            i += 1;
        } else if str_eq(a, "-h") || str_eq(a, "-V") {
            let name = if str_eq(a, "-h") {
                own("help")
            } else {
                own("version")
            };
            let ghost before = flag_texts(flags@);
            let ghost named = name@;
            flags.push((name, None));
            assert(flag_texts(flags@) =~= before.push((named, None)));
            i += 1;
        } else if is_short_flag(a) {
            return None;
        } else if is_long_flag(a) {
            let cs = chars(a);
            let body = slice(cs.as_slice(), 2, cs.len());
            match split_once(body.as_str(), '=') {
                Some((n, v)) => {
                    if !is_value_flag(n.as_str()) {
                        return None;
                    }
                    let ghost before = flag_texts(flags@);
                    let ghost entry = (n@, Some(v@));
                    flags.push((n, Some(v)));
                    assert(flag_texts(flags@) =~= before.push(entry));
                    i += 1;
                },
                None => {
                    if is_value_flag(body.as_str()) {
                        if i + 1 >= args.len() {
                            return None;
                        }
                        let next: &str = args[i + 1];
                        assert(view[i + 1] == next@);
                        let ghost before = flag_texts(flags@);
                        let ghost entry = (body@, Some(next@));
                        flags.push((body, Some(own(next))));
                        assert(flag_texts(flags@) =~= before.push(entry));
                        i += 2;
                    } else if is_switch_flag(body.as_str()) {
                        let ghost before = flag_texts(flags@);
                        let ghost entry: FlagView = (body@, None);
                        flags.push((body, None));
                        assert(flag_texts(flags@) =~= before.push(entry));
                        i += 1;
                    } else {
                        return None;
                    }
                },
            }
        } else {
            let ghost before = word_texts(words@);
            words.push(own(a));
            assert(word_texts(words@) =~= before.push(a@));
            i += 1;
        }
    }
    Some((words, flags))
}

/// No flag is given twice.
pub open spec fn names_unique(f: Seq<FlagView>) -> bool {
    forall|i: int, j: int| 0 <= i < j < f.len() ==> f[i].0 != f[j].0
}

/// Whether flag `n` is given.
pub open spec fn has_flag(f: Seq<FlagView>, n: Seq<char>) -> bool {
    exists|i: int| 0 <= i < f.len() && #[trigger] f[i].0 == n
}

/// The value given to flag `n`, if any.
pub open spec fn flag_value(f: Seq<FlagView>, n: Seq<char>) -> Option<Seq<char>> {
    if exists|i: int| 0 <= i < f.len() && #[trigger] f[i].0 == n && f[i].1 is Some {
        f[choose|i: int| 0 <= i < f.len() && #[trigger] f[i].0 == n && f[i].1 is Some].1
    } else {
        None
    }
}

/// Every flag is `--session` or one of `names`.
pub open spec fn only_spec(f: Seq<FlagView>, names: Seq<Seq<char>>) -> bool {
    forall|i: int| 0 <= i < f.len() ==> (#[trigger] f[i].0 == "session"@ || names.contains(f[i].0))
}

pub open spec fn opt_view(o: Option<String>) -> Option<Seq<char>> {
    match o {
        Some(v) => Some(v@),
        None => None,
    }
}

fn names_are_unique(flags: &Vec<(String, Option<String>)>) -> (r: bool)
    ensures
        r == names_unique(flag_texts(flags@)),
{
    let ghost f = flag_texts(flags@);
    let mut i: usize = 0;
    while i < flags.len()
        invariant
            f == flag_texts(flags@),
            i <= flags@.len(),
            forall|a: int, b: int| 0 <= a < b < f.len() && a < i ==> f[a].0 != f[b].0,
        decreases flags@.len() - i,
    {
        let mut j: usize = i + 1;
        while j < flags.len()
            invariant
                f == flag_texts(flags@),
                i < flags@.len(),
                i + 1 <= j <= flags@.len(),
                forall|a: int, b: int| 0 <= a < b < f.len() && a < i ==> f[a].0 != f[b].0,
                forall|b: int| i < b < j ==> f[i as int].0 != f[b].0,
            decreases flags@.len() - j,
        {
            assert(f[i as int].0 == flags@[i as int].0@ && f[j as int].0 == flags@[j as int].0@);
            if str_eq(flags[i].0.as_str(), flags[j].0.as_str()) {
                return false;
            }
            j += 1;
        }
        i += 1;
    }
    true
}

/// Where flag `n` is given.
fn find_flag(flags: &Vec<(String, Option<String>)>, n: &str) -> (r: Option<usize>)
    ensures
        match r {
            Some(k) => k < flags@.len() && flag_texts(flags@)[k as int].0 == n@,
            None => !has_flag(flag_texts(flags@), n@),
        },
{
    let ghost f = flag_texts(flags@);
    let mut i: usize = 0;
    while i < flags.len()
        invariant
            f == flag_texts(flags@),
            i <= flags@.len(),
            forall|a: int| 0 <= a < i ==> f[a].0 != n@,
        decreases flags@.len() - i,
    {
        assert(f[i as int].0 == flags@[i as int].0@);
        if str_eq(flags[i].0.as_str(), n) {
            return Some(i);
        }
        i += 1;
    }
    None
}

/// Whether flag `n` is given.
fn flag_given(flags: &Vec<(String, Option<String>)>, n: &str) -> (r: bool)
    ensures
        r == has_flag(flag_texts(flags@), n@),
{
    find_flag(flags, n).is_some()
}

/// The value given to flag `n`.
fn value_of(flags: &Vec<(String, Option<String>)>, n: &str) -> (r: Option<String>)
    requires
        names_unique(flag_texts(flags@)),
    ensures
        opt_view(r) == flag_value(flag_texts(flags@), n@),
{
    let ghost f = flag_texts(flags@);
    match find_flag(flags, n) {
        Some(k) => {
            assert(f[k as int] == flag_view(flags@[k as int]));
            match &flags[k].1 {
                Some(v) => {
                    assert(f[k as int].0 == n@ && f[k as int].1 is Some);
                    let ghost c = choose|i: int| 0 <= i < f.len() && #[trigger] f[i].0 == n@ && f[i].1 is Some;
                    assert(c == k);
                    Some(own(v.as_str()))
                },
                None => {
                    assert forall|i: int| 0 <= i < f.len() && #[trigger] f[i].0 == n@ implies f[i].1 is None by {
                        if i != k {
                            if i < k {
                                assert(f[i].0 != f[k as int].0);
                            } else {
                                assert(f[k as int].0 != f[i].0);
                            }
                        }
                    }
                    None
                },
            }
        },
        None => None,
    }
}

/// Whether every flag is `--session` or one of `names`.
fn only(flags: &Vec<(String, Option<String>)>, names: &[&str]) -> (r: bool)
    ensures
        r == only_spec(flag_texts(flags@), arg_texts(names@)),
{
    let ghost f = flag_texts(flags@);
    let ghost allowed = arg_texts(names@);
    let mut i: usize = 0;
    while i < flags.len()
        invariant
            f == flag_texts(flags@),
            allowed == arg_texts(names@),
            i <= flags@.len(),
            forall|a: int| 0 <= a < i ==> (#[trigger] f[a].0 == "session"@ || allowed.contains(f[a].0)),
        decreases flags@.len() - i,
    {
        let name = flags[i].0.as_str();
        assert(f[i as int].0 == name@);
        let mut ok = str_eq(name, "session");
        let mut j: usize = 0;
        while j < names.len() && !ok
            invariant
                allowed == arg_texts(names@),
                j <= names@.len(),
                ok ==> (name@ == "session"@ || allowed.contains(name@)),
                !ok ==> name@ != "session"@ && forall|b: int| 0 <= b < j ==> allowed[b] != name@,
            decreases names@.len() - j,
        {
            assert(allowed[j as int] == names@[j as int]@);
            if str_eq(name, names[j]) {
                ok = true;
            }
            j += 1;
        }
        if !ok {
            assert(!allowed.contains(name@));
            return false;
        }
        i += 1;
    }
    true
}

/// A `hyprpilot` command line.
#[derive(Debug)]
pub struct Cli {
    /// `--session NAME`.
    pub session: Option<String>,
    pub command: Command,
}

/// The selectors and options of `target`.
#[derive(Debug)]
pub struct TargetArgs {
    pub address: Option<String>,
    pub match_title: Option<String>,
    pub match_class: Option<String>,
    pub pid: Option<i32>,
    pub untracked: bool,
    pub wait: Option<String>,
    pub on_teardown: Option<Disposition>,
}

#[derive(Debug)]
pub enum SessionCommand {
    Start {
        isolated: bool,
        app: Option<String>,
        match_title: Option<String>,
        match_class: Option<String>,
        size: String,
    },
    Resize { size: String },
    Show,
    Hide,
}

#[derive(Debug)]
pub enum Command {
    Session(SessionCommand),
    Target(TargetArgs),
    Key { keys: Vec<String>, delay_ms: u64, focus: bool },
    Type { text: String, delay_ms: u64, focus: bool },
    Click { x: i32, y: i32, button: MouseButton, double: bool, absolute: bool, focus: bool },
    Scroll { x: i32, y: i32, dy: i32, dx: i32, absolute: bool, focus: bool },
    Shot { name: Option<String>, full: bool, out: Option<String> },
    Wait { stable: bool, changed_from: Option<String>, timeout: String },
    Status,
    Windows,
    Doctor,
    Teardown { kill: bool, close: bool },
    /// `--help` or `-h`.
    Help,
    /// `--version` or `-V`.
    Version,
}

/// A number flag: `default` when absent, its value when that parses.
pub open spec fn u64_flag(f: Seq<FlagView>, n: Seq<char>, default: u64) -> Option<u64> {
    match flag_value(f, n) {
        Some(v) => parse_u64_spec(v),
        None => Some(default),
    }
}

pub open spec fn i32_flag(f: Seq<FlagView>, n: Seq<char>, default: i32) -> Option<i32> {
    match flag_value(f, n) {
        Some(v) => parse_i32_spec(v),
        None => Some(default),
    }
}

/// `--button`: left unless given.
pub open spec fn button_flag(f: Seq<FlagView>) -> Option<MouseButton> {
    match flag_value(f, "button"@) {
        Some(v) => if v == "left"@ {
            Some(MouseButton::Left)
        } else if v == "right"@ {
            Some(MouseButton::Right)
        } else if v == "middle"@ {
            Some(MouseButton::Middle)
        } else {
            None
        },
        None => Some(MouseButton::Left),
    }
}

/// `--on-teardown`: `Some(None)` when absent, `None` when misspelled.
pub open spec fn disposition_flag(f: Seq<FlagView>) -> Option<Option<Disposition>> {
    match flag_value(f, "on-teardown"@) {
        Some(v) => if v == "restore"@ {
            Some(Some(Disposition::Restore))
        } else if v == "close"@ {
            Some(Some(Disposition::Close))
        } else {
            None
        },
        None => Some(None),
    }
}

/// `--pid`: `Some(None)` when absent, `None` when it is no `i32`.
pub open spec fn pid_flag(f: Seq<FlagView>) -> Option<Option<i32>> {
    match flag_value(f, "pid"@) {
        Some(v) => match parse_i32_spec(v) {
            Some(p) => Some(Some(p)),
            None => None,
        },
        None => Some(None),
    }
}

/// The size a `session start` asks for.
pub open spec fn start_size(f: Seq<FlagView>) -> Seq<char> {
    match flag_value(f, "size"@) {
        Some(v) => v,
        None => if has_flag(f, "isolated"@) {
            "1920x1080"@
        } else {
            "1600x1000"@
        },
    }
}

pub open spec fn selector_given(f: Seq<FlagView>) -> bool {
    has_flag(f, "address"@) || has_flag(f, "match-title"@) || has_flag(f, "match-class"@) || has_flag(
        f,
        "pid"@,
    ) || has_flag(f, "untracked"@)
}

/// Whether the words `w` (the command's name first) and the flags `f` make
/// a command, and `c` is that command.
pub open spec fn command_fits(w: Seq<Seq<char>>, f: Seq<FlagView>, c: Command) -> bool {
    w.len() > 0 && {
        let rest = w.subrange(1, w.len() as int);
        match c {
            Command::Status => w[0] == "status"@ && rest.len() == 0 && only_spec(f, seq![]),
            Command::Windows => w[0] == "windows"@ && rest.len() == 0 && only_spec(f, seq![]),
            Command::Doctor => w[0] == "doctor"@ && rest.len() == 0 && only_spec(f, seq![]),
            Command::Teardown { kill, close } => w[0] == "teardown"@ && rest.len() == 0 && only_spec(
                f,
                seq!["kill"@, "close"@],
            ) && kill == has_flag(f, "kill"@) && close == has_flag(f, "close"@) && !(kill && close),
            Command::Key { keys, delay_ms, focus } => w[0] == "key"@ && rest.len() >= 1 && only_spec(
                f,
                seq!["delay-ms"@, "focus"@],
            ) && word_texts(keys@) == rest && u64_flag(f, "delay-ms"@, 50) == Some(delay_ms) && focus
                == has_flag(f, "focus"@),
            Command::Type { text, delay_ms, focus } => w[0] == "type"@ && rest.len() == 1 && only_spec(
                f,
                seq!["delay-ms"@, "focus"@],
            ) && text@ == rest[0] && u64_flag(f, "delay-ms"@, 25) == Some(delay_ms) && focus
                == has_flag(f, "focus"@),
            Command::Click { x, y, button, double, absolute, focus } => w[0] == "click"@ && rest.len()
                == 2 && only_spec(f, seq!["button"@, "double"@, "absolute"@, "focus"@])
                && parse_i32_spec(rest[0]) == Some(x) && parse_i32_spec(rest[1]) == Some(y)
                && button_flag(f) == Some(button) && double == has_flag(f, "double"@) && absolute
                == has_flag(f, "absolute"@) && focus == has_flag(f, "focus"@),
            Command::Scroll { x, y, dy, dx, absolute, focus } => w[0] == "scroll"@ && rest.len() == 2
                && only_spec(f, seq!["dy"@, "dx"@, "absolute"@, "focus"@]) && parse_i32_spec(rest[0])
                == Some(x) && parse_i32_spec(rest[1]) == Some(y) && i32_flag(f, "dy"@, 0) == Some(dy)
                && i32_flag(f, "dx"@, 0) == Some(dx) && absolute == has_flag(f, "absolute"@) && focus
                == has_flag(f, "focus"@),
            Command::Shot { name, full, out } => w[0] == "shot"@ && rest.len() <= 1 && only_spec(
                f,
                seq!["full"@, "out"@],
            ) && opt_view(name) == (if rest.len() == 1 {
                Some(rest[0])
            } else {
                None
            }) && full == has_flag(f, "full"@) && opt_view(out) == flag_value(f, "out"@),
            Command::Wait { stable, changed_from, timeout } => w[0] == "wait"@ && rest.len() == 0
                && only_spec(f, seq!["stable"@, "changed-from"@, "timeout"@]) && stable == has_flag(
                f,
                "stable"@,
            ) && opt_view(changed_from) == flag_value(f, "changed-from"@) && !(stable
                && changed_from is Some) && timeout@ == (match flag_value(f, "timeout"@) {
                Some(t) => t,
                None => "5s"@,
            }),
            Command::Target(t) => w[0] == "target"@ && rest.len() == 0 && only_spec(
                f,
                seq![
                    "address"@,
                    "match-title"@,
                    "match-class"@,
                    "pid"@,
                    "untracked"@,
                    "wait"@,
                    "on-teardown"@,
                ],
            ) && selector_given(f) && opt_view(t.address) == flag_value(f, "address"@) && opt_view(
                t.match_title,
            ) == flag_value(f, "match-title"@) && opt_view(t.match_class) == flag_value(
                f,
                "match-class"@,
            ) && pid_flag(f) == Some(t.pid) && t.untracked == has_flag(f, "untracked"@) && opt_view(
                t.wait,
            ) == flag_value(f, "wait"@) && disposition_flag(f) == Some(t.on_teardown),
            Command::Session(s) => w[0] == "session"@ && rest.len() >= 1 && {
                let more = rest.subrange(1, rest.len() as int);
                match s {
                    SessionCommand::Start { isolated, app, match_title, match_class, size } => rest[0]
                        == "start"@ && more.len() == 0 && only_spec(
                        f,
                        seq!["isolated"@, "app"@, "match-title"@, "match-class"@, "size"@],
                    ) && isolated == has_flag(f, "isolated"@) && opt_view(app) == flag_value(f, "app"@)
                        && opt_view(match_title) == flag_value(f, "match-title"@) && opt_view(match_class)
                        == flag_value(f, "match-class"@) && size@ == start_size(f),
                    SessionCommand::Resize { size } => rest[0] == "resize"@ && more.len() == 1
                        && only_spec(f, seq![]) && size@ == more[0],
                    SessionCommand::Show => rest[0] == "show"@ && more.len() == 0 && only_spec(f, seq![]),
                    SessionCommand::Hide => rest[0] == "hide"@ && more.len() == 0 && only_spec(f, seq![]),
                }
            },
            Command::Help => false,
            Command::Version => false,
        }
    }
}

/// Whether the words `w` (the command's name first) and the flags `f` make
/// a command.
pub open spec fn command_ok(w: Seq<Seq<char>>, f: Seq<FlagView>) -> bool {
    w.len() > 0 && {
        let c = w[0];
        let rest = w.subrange(1, w.len() as int);
        if c == "status"@ || c == "windows"@ || c == "doctor"@ {
            rest.len() == 0 && only_spec(f, seq![])
        } else if c == "teardown"@ {
            rest.len() == 0 && only_spec(f, seq!["kill"@, "close"@]) && !(has_flag(f, "kill"@)
                && has_flag(f, "close"@))
        } else if c == "key"@ {
            rest.len() >= 1 && only_spec(f, seq!["delay-ms"@, "focus"@]) && u64_flag(f, "delay-ms"@, 50) is Some
        } else if c == "type"@ {
            rest.len() == 1 && only_spec(f, seq!["delay-ms"@, "focus"@]) && u64_flag(f, "delay-ms"@, 25) is Some
        } else if c == "click"@ {
            rest.len() == 2 && only_spec(f, seq!["button"@, "double"@, "absolute"@, "focus"@])
                && parse_i32_spec(rest[0]) is Some && parse_i32_spec(rest[1]) is Some && button_flag(f) is Some
        } else if c == "scroll"@ {
            rest.len() == 2 && only_spec(f, seq!["dy"@, "dx"@, "absolute"@, "focus"@]) && parse_i32_spec(rest[0]) is Some
                && parse_i32_spec(rest[1]) is Some && i32_flag(f, "dy"@, 0) is Some && i32_flag(f, "dx"@, 0) is Some
        } else if c == "shot"@ {
            rest.len() <= 1 && only_spec(f, seq!["full"@, "out"@])
        } else if c == "wait"@ {
            rest.len() == 0 && only_spec(f, seq!["stable"@, "changed-from"@, "timeout"@]) && !(has_flag(f, "stable"@)
                && flag_value(f, "changed-from"@) is Some)
        } else if c == "target"@ {
            rest.len() == 0 && only_spec(
                f,
                seq![
                    "address"@,
                    "match-title"@,
                    "match-class"@,
                    "pid"@,
                    "untracked"@,
                    "wait"@,
                    "on-teardown"@,
                ],
            ) && selector_given(f) && pid_flag(f) is Some && disposition_flag(f) is Some
        } else if c == "session"@ {
            rest.len() >= 1 && {
                let s = rest[0];
                let more = rest.subrange(1, rest.len() as int);
                if s == "start"@ {
                    more.len() == 0 && only_spec(f, seq!["isolated"@, "app"@, "match-title"@, "match-class"@, "size"@])
                } else if s == "resize"@ {
                    more.len() == 1 && only_spec(f, seq![])
                } else if s == "show"@ || s == "hide"@ {
                    more.len() == 0 && only_spec(f, seq![])
                } else {
                    false
                }
            }
        } else {
            false
        }
    }
}

/// The words from `from` on.
fn tail_words(words: &Vec<String>, from: usize) -> (r: Vec<String>)
    requires
        from <= words@.len(),
    ensures
        word_texts(r@) == word_texts(words@).subrange(from as int, words@.len() as int),
{
    let mut r: Vec<String> = Vec::new();
    let mut i: usize = from;
    while i < words.len()
        invariant
            from <= i <= words@.len(),
            word_texts(r@) == word_texts(words@).subrange(from as int, i as int),
        decreases words@.len() - i,
    {
        let ghost before = word_texts(r@);
        let w = own(words[i].as_str());
        let ghost wv = w@;
        r.push(w);
        assert(word_texts(r@) =~= before.push(wv));
        assert(wv == word_texts(words@)[i as int]);
        assert(word_texts(r@) =~= word_texts(words@).subrange(from as int, i + 1));
        i += 1;
    }
    r
}

fn u64_value(flags: &Vec<(String, Option<String>)>, n: &str, default: u64) -> (r: Option<u64>)
    requires
        names_unique(flag_texts(flags@)),
    ensures
        r == u64_flag(flag_texts(flags@), n@, default),
{
    match value_of(flags, n) {
        Some(v) => parse_u64(v.as_str()),
        None => Some(default),
    }
}

fn i32_value(flags: &Vec<(String, Option<String>)>, n: &str, default: i32) -> (r: Option<i32>)
    requires
        names_unique(flag_texts(flags@)),
    ensures
        r == i32_flag(flag_texts(flags@), n@, default),
{
    match value_of(flags, n) {
        Some(v) => parse_i32(v.as_str()),
        None => Some(default),
    }
}

fn button_value(flags: &Vec<(String, Option<String>)>) -> (r: Option<MouseButton>)
    requires
        names_unique(flag_texts(flags@)),
    ensures
        r == button_flag(flag_texts(flags@)),
{
    match value_of(flags, "button") {
        Some(v) => if str_eq(v.as_str(), "left") {
            Some(MouseButton::Left)
        } else if str_eq(v.as_str(), "right") {
            Some(MouseButton::Right)
        } else if str_eq(v.as_str(), "middle") {
            Some(MouseButton::Middle)
        } else {
            None
        },
        None => Some(MouseButton::Left),
    }
}

fn disposition_value(flags: &Vec<(String, Option<String>)>) -> (r: Option<Option<Disposition>>)
    requires
        names_unique(flag_texts(flags@)),
    ensures
        r == disposition_flag(flag_texts(flags@)),
{
    match value_of(flags, "on-teardown") {
        Some(v) => if str_eq(v.as_str(), "restore") {
            Some(Some(Disposition::Restore))
        } else if str_eq(v.as_str(), "close") {
            Some(Some(Disposition::Close))
        } else {
            None
        },
        None => Some(None),
    }
}

fn pid_value(flags: &Vec<(String, Option<String>)>) -> (r: Option<Option<i32>>)
    requires
        names_unique(flag_texts(flags@)),
    ensures
        r == pid_flag(flag_texts(flags@)),
{
    match value_of(flags, "pid") {
        Some(v) => match parse_i32(v.as_str()) {
            Some(p) => Some(Some(p)),
            None => None,
        },
        None => Some(None),
    }
}

/// The refusal of a command line that makes no command.
fn refused(command: &str) -> (r: String)
    ensures
        r@ == "invalid arguments for `"@ + command@ + "`; see `hyprpilot --help`"@,
{
    let mut r = String::from_str("invalid arguments for `");
    r.append(command);
    r.append("`; see `hyprpilot --help`");
    r
}

/// `key CHORD...`.
fn build_key(words: &Vec<String>, flags: &Vec<(String, Option<String>)>) -> (r: Result<Command, String>)
    requires
        names_unique(flag_texts(flags@)),
        words@.len() > 0,
        word_texts(words@)[0] == "key"@,
    ensures
        r is Ok <==> (words@.len() >= 2 && only_spec(flag_texts(flags@), seq!["delay-ms"@, "focus"@])
            && u64_flag(flag_texts(flags@), "delay-ms"@, 50) is Some),
        r matches Ok(c) ==> command_fits(word_texts(words@), flag_texts(flags@), c),
{
    let allowed: [&str; 2] = ["delay-ms", "focus"];
    let ok = only(flags, &allowed);
    assert(arg_texts(allowed@) =~= seq!["delay-ms"@, "focus"@]);
    if words.len() < 2 || !ok {
        return Err(refused("key"));
    }
    match u64_value(flags, "delay-ms", 50) {
        Some(delay_ms) => {
            let keys = tail_words(words, 1);
            Ok(Command::Key { keys, delay_ms, focus: flag_given(flags, "focus") })
        },
        None => Err(refused("key")),
    }
}

/// `type TEXT`.
fn build_type(words: &Vec<String>, flags: &Vec<(String, Option<String>)>) -> (r: Result<Command, String>)
    requires
        names_unique(flag_texts(flags@)),
        words@.len() > 0,
        word_texts(words@)[0] == "type"@,
    ensures
        r is Ok <==> (words@.len() == 2 && only_spec(flag_texts(flags@), seq!["delay-ms"@, "focus"@])
            && u64_flag(flag_texts(flags@), "delay-ms"@, 25) is Some),
        r matches Ok(c) ==> command_fits(word_texts(words@), flag_texts(flags@), c),
{
    let allowed: [&str; 2] = ["delay-ms", "focus"];
    let ok = only(flags, &allowed);
    assert(arg_texts(allowed@) =~= seq!["delay-ms"@, "focus"@]);
    if words.len() != 2 || !ok {
        return Err(refused("type"));
    }
    match u64_value(flags, "delay-ms", 25) {
        Some(delay_ms) => {
            let text = own(words[1].as_str());
            assert(word_texts(words@)[1] == words@[1]@);
            Ok(Command::Type { text, delay_ms, focus: flag_given(flags, "focus") })
        },
        None => Err(refused("type")),
    }
}

/// `click X Y`.
fn build_click(words: &Vec<String>, flags: &Vec<(String, Option<String>)>) -> (r: Result<Command, String>)
    requires
        names_unique(flag_texts(flags@)),
        words@.len() > 0,
        word_texts(words@)[0] == "click"@,
    ensures
        r is Ok <==> (words@.len() == 3 && only_spec(
            flag_texts(flags@),
            seq!["button"@, "double"@, "absolute"@, "focus"@],
        ) && parse_i32_spec(word_texts(words@)[1]) is Some && parse_i32_spec(word_texts(words@)[2]) is Some
            && button_flag(flag_texts(flags@)) is Some),
        r matches Ok(c) ==> command_fits(word_texts(words@), flag_texts(flags@), c),
{
    let allowed: [&str; 4] = ["button", "double", "absolute", "focus"];
    let ok = only(flags, &allowed);
    assert(arg_texts(allowed@) =~= seq!["button"@, "double"@, "absolute"@, "focus"@]);
    if words.len() != 3 || !ok {
        return Err(refused("click"));
    }
    assert(word_texts(words@)[1] == words@[1]@ && word_texts(words@)[2] == words@[2]@);
    match (parse_i32(words[1].as_str()), parse_i32(words[2].as_str()), button_value(flags)) {
        (Some(x), Some(y), Some(button)) => Ok(
            Command::Click {
                x,
                y,
                button,
                double: flag_given(flags, "double"),
                absolute: flag_given(flags, "absolute"),
                focus: flag_given(flags, "focus"),
            },
        ),
        _ => Err(refused("click")),
    }
}

/// `scroll X Y`.
fn build_scroll(words: &Vec<String>, flags: &Vec<(String, Option<String>)>) -> (r: Result<Command, String>)
    requires
        names_unique(flag_texts(flags@)),
        words@.len() > 0,
        word_texts(words@)[0] == "scroll"@,
    ensures
        r is Ok <==> (words@.len() == 3 && only_spec(flag_texts(flags@), seq!["dy"@, "dx"@, "absolute"@, "focus"@])
            && parse_i32_spec(word_texts(words@)[1]) is Some && parse_i32_spec(word_texts(words@)[2]) is Some
            && i32_flag(flag_texts(flags@), "dy"@, 0) is Some && i32_flag(flag_texts(flags@), "dx"@, 0) is Some),
        r matches Ok(c) ==> command_fits(word_texts(words@), flag_texts(flags@), c),
{
    let allowed: [&str; 4] = ["dy", "dx", "absolute", "focus"];
    let ok = only(flags, &allowed);
    assert(arg_texts(allowed@) =~= seq!["dy"@, "dx"@, "absolute"@, "focus"@]);
    if words.len() != 3 || !ok {
        return Err(refused("scroll"));
    }
    assert(word_texts(words@)[1] == words@[1]@ && word_texts(words@)[2] == words@[2]@);
    match (parse_i32(words[1].as_str()), parse_i32(words[2].as_str()), i32_value(flags, "dy", 0), i32_value(flags, "dx", 0)) {
        (Some(x), Some(y), Some(dy), Some(dx)) => Ok(
            Command::Scroll {
                x,
                y,
                dy,
                dx,
                absolute: flag_given(flags, "absolute"),
                focus: flag_given(flags, "focus"),
            },
        ),
        _ => Err(refused("scroll")),
    }
}

/// `shot [NAME]`.
fn build_shot(words: &Vec<String>, flags: &Vec<(String, Option<String>)>) -> (r: Result<Command, String>)
    requires
        names_unique(flag_texts(flags@)),
        words@.len() > 0,
        word_texts(words@)[0] == "shot"@,
    ensures
        r is Ok <==> (words@.len() <= 2 && only_spec(flag_texts(flags@), seq!["full"@, "out"@])),
        r matches Ok(c) ==> command_fits(word_texts(words@), flag_texts(flags@), c),
{
    let allowed: [&str; 2] = ["full", "out"];
    let ok = only(flags, &allowed);
    assert(arg_texts(allowed@) =~= seq!["full"@, "out"@]);
    if words.len() > 2 || !ok {
        return Err(refused("shot"));
    }
    let name = if words.len() == 2 {
        assert(word_texts(words@)[1] == words@[1]@);
        Some(own(words[1].as_str()))
    } else {
        None
    };
    Ok(Command::Shot { name, full: flag_given(flags, "full"), out: value_of(flags, "out") })
}

/// `wait`.
fn build_wait(words: &Vec<String>, flags: &Vec<(String, Option<String>)>) -> (r: Result<Command, String>)
    requires
        names_unique(flag_texts(flags@)),
        words@.len() > 0,
        word_texts(words@)[0] == "wait"@,
    ensures
        r is Ok <==> (words@.len() == 1 && only_spec(flag_texts(flags@), seq!["stable"@, "changed-from"@, "timeout"@])
            && !(has_flag(flag_texts(flags@), "stable"@) && flag_value(flag_texts(flags@), "changed-from"@) is Some)),
        r matches Ok(c) ==> command_fits(word_texts(words@), flag_texts(flags@), c),
{
    let allowed: [&str; 3] = ["stable", "changed-from", "timeout"];
    let ok = only(flags, &allowed);
    assert(arg_texts(allowed@) =~= seq!["stable"@, "changed-from"@, "timeout"@]);
    if words.len() != 1 || !ok {
        return Err(refused("wait"));
    }
    let stable = flag_given(flags, "stable");
    let changed_from = value_of(flags, "changed-from");
    if stable && changed_from.is_some() {
        return Err(refused("wait"));
    }
    let timeout = match value_of(flags, "timeout") {
        Some(t) => t,
        None => own("5s"),
    };
    Ok(Command::Wait { stable, changed_from, timeout })
}

/// `teardown`.
fn build_teardown(words: &Vec<String>, flags: &Vec<(String, Option<String>)>) -> (r: Result<Command, String>)
    requires
        names_unique(flag_texts(flags@)),
        words@.len() > 0,
        word_texts(words@)[0] == "teardown"@,
    ensures
        r is Ok <==> (words@.len() == 1 && only_spec(flag_texts(flags@), seq!["kill"@, "close"@])
            && !(has_flag(flag_texts(flags@), "kill"@) && has_flag(flag_texts(flags@), "close"@))),
        r matches Ok(c) ==> command_fits(word_texts(words@), flag_texts(flags@), c),
{
    let allowed: [&str; 2] = ["kill", "close"];
    let ok = only(flags, &allowed);
    assert(arg_texts(allowed@) =~= seq!["kill"@, "close"@]);
    let kill = flag_given(flags, "kill");
    let close = flag_given(flags, "close");
    if words.len() != 1 || !ok || (kill && close) {
        return Err(refused("teardown"));
    }
    Ok(Command::Teardown { kill, close })
}

/// `status`, `windows` or `doctor`.
fn build_plain(words: &Vec<String>, flags: &Vec<(String, Option<String>)>) -> (r: Result<Command, String>)
    requires
        names_unique(flag_texts(flags@)),
        words@.len() > 0,
        word_texts(words@)[0] == "status"@ || word_texts(words@)[0] == "windows"@ || word_texts(words@)[0]
            == "doctor"@,
    ensures
        r is Ok <==> (words@.len() == 1 && only_spec(flag_texts(flags@), seq![])),
        r matches Ok(c) ==> command_fits(word_texts(words@), flag_texts(flags@), c),
{
    let allowed: [&str; 0] = [];
    let ok = only(flags, &allowed);
    assert(arg_texts(allowed@) =~= Seq::<Seq<char>>::empty());
    let name = words[0].as_str();
    assert(word_texts(words@)[0] == name@);
    if words.len() != 1 || !ok {
        return Err(refused(name));
    }
    if str_eq(name, "status") {
        Ok(Command::Status)
    } else if str_eq(name, "windows") {
        Ok(Command::Windows)
    } else {
        Ok(Command::Doctor)
    }
}

/// `target`.
fn build_target(words: &Vec<String>, flags: &Vec<(String, Option<String>)>) -> (r: Result<Command, String>)
    requires
        names_unique(flag_texts(flags@)),
        words@.len() > 0,
        word_texts(words@)[0] == "target"@,
    ensures
        r is Ok <==> (words@.len() == 1 && only_spec(
            flag_texts(flags@),
            seq![
                "address"@,
                "match-title"@,
                "match-class"@,
                "pid"@,
                "untracked"@,
                "wait"@,
                "on-teardown"@,
            ],
        ) && selector_given(flag_texts(flags@)) && pid_flag(flag_texts(flags@)) is Some && disposition_flag(
            flag_texts(flags@),
        ) is Some),
        r matches Ok(c) ==> command_fits(word_texts(words@), flag_texts(flags@), c),
{
    let allowed: [&str; 7] = ["address", "match-title", "match-class", "pid", "untracked", "wait", "on-teardown"];
    let ok = only(flags, &allowed);
    assert(arg_texts(allowed@) =~= seq![
        "address"@,
        "match-title"@,
        "match-class"@,
        "pid"@,
        "untracked"@,
        "wait"@,
        "on-teardown"@,
    ]);
    if words.len() != 1 || !ok {
        return Err(refused("target"));
    }
    let selected = flag_given(flags, "address") || flag_given(flags, "match-title") || flag_given(
        flags,
        "match-class",
    ) || flag_given(flags, "pid") || flag_given(flags, "untracked");
    if !selected {
        return Err(
            own(
                "target needs at least one of --address, --match-title, --match-class, --pid, --untracked",
            ),
        );
    }
    match (pid_value(flags), disposition_value(flags)) {
        (Some(pid), Some(on_teardown)) => Ok(
            Command::Target(
                TargetArgs {
                    address: value_of(flags, "address"),
                    match_title: value_of(flags, "match-title"),
                    match_class: value_of(flags, "match-class"),
                    pid,
                    untracked: flag_given(flags, "untracked"),
                    wait: value_of(flags, "wait"),
                    on_teardown,
                },
            ),
        ),
        _ => Err(refused("target")),
    }
}

/// `session start|resize|show|hide`.
fn build_session(words: &Vec<String>, flags: &Vec<(String, Option<String>)>) -> (r: Result<Command, String>)
    requires
        names_unique(flag_texts(flags@)),
        words@.len() > 0,
        word_texts(words@)[0] == "session"@,
    ensures
        r is Ok <==> (words@.len() >= 2 && {
            let s = word_texts(words@)[1];
            let f = flag_texts(flags@);
            if s == "start"@ {
                words@.len() == 2 && only_spec(f, seq!["isolated"@, "app"@, "match-title"@, "match-class"@, "size"@])
            } else if s == "resize"@ {
                words@.len() == 3 && only_spec(f, seq![])
            } else if s == "show"@ || s == "hide"@ {
                words@.len() == 2 && only_spec(f, seq![])
            } else {
                false
            }
        }),
        r matches Ok(c) ==> command_fits(word_texts(words@), flag_texts(flags@), c),
{
    if words.len() < 2 {
        return Err(refused("session"));
    }
    let ghost w = word_texts(words@);
    let ghost rest = w.subrange(1, w.len() as int);
    let ghost more = rest.subrange(1, rest.len() as int);
    let s = words[1].as_str();
    assert(w[1] == s@ && rest[0] == s@);
    if str_eq(s, "start") {
        let allowed: [&str; 5] = ["isolated", "app", "match-title", "match-class", "size"];
        let ok = only(flags, &allowed);
        assert(arg_texts(allowed@) =~= seq!["isolated"@, "app"@, "match-title"@, "match-class"@, "size"@]);
        if words.len() != 2 || !ok {
            return Err(refused("session start"));
        }
        let isolated = flag_given(flags, "isolated");
        let size = match value_of(flags, "size") {
            Some(v) => v,
            None => if isolated {
                own("1920x1080")
            } else {
                own("1600x1000")
            },
        };
        Ok(
            Command::Session(
                SessionCommand::Start {
                    isolated,
                    app: value_of(flags, "app"),
                    match_title: value_of(flags, "match-title"),
                    match_class: value_of(flags, "match-class"),
                    size,
                },
            ),
        )
    } else {
        let allowed: [&str; 0] = [];
        let ok = only(flags, &allowed);
        assert(arg_texts(allowed@) =~= Seq::<Seq<char>>::empty());
        if str_eq(s, "resize") {
            if words.len() != 3 || !ok {
                return Err(refused("session resize"));
            }
            assert(more[0] == words@[2]@);
            Ok(Command::Session(SessionCommand::Resize { size: own(words[2].as_str()) }))
        } else if str_eq(s, "show") || str_eq(s, "hide") {
            if words.len() != 2 || !ok {
                return Err(refused(s));
            }
            if str_eq(s, "show") {
                Ok(Command::Session(SessionCommand::Show))
            } else {
                Ok(Command::Session(SessionCommand::Hide))
            }
        } else {
            Err(refused(s))
        }
    }
}

fn is_negative_number(a: &str) -> (r: bool)
    ensures
        r == negative_number(a@),
{
    let cs = chars(a);
    if cs.len() < 2 || cs[0] != '-' {
        return false;
    }
    let mut i: usize = 1;
    while i < cs.len()
        invariant
            cs@ == a@,
            1 <= i <= cs@.len(),
            cs@.len() >= 2,
            forall|k: int| 1 <= k < i ==> is_digit(#[trigger] cs@[k]),
        decreases cs@.len() - i,
    {
        if !(cs[i] >= '0' && cs[i] <= '9') {
            assert(!all_digits(a@.subrange(1, a@.len() as int))) by {
                assert(a@.subrange(1, a@.len() as int)[i - 1] == cs@[i as int]);
                assert(!is_digit(a@.subrange(1, a@.len() as int)[i - 1]));
            }
            return false;
        }
        i += 1;
    }
    assert(all_digits(a@.subrange(1, a@.len() as int))) by {
        assert forall|k: int| 0 <= k < a@.len() - 1 implies is_digit(#[trigger] a@.subrange(1, a@.len() as int)[k]) by {
            assert(a@.subrange(1, a@.len() as int)[k] == cs@[k + 1]);
        }
    }
    true
}

/// Whether an argument after the program name and before the first `--` is
/// a negative number.
fn has_negative_before_literal(args: &[&str]) -> (r: bool)
    ensures
        r == negative_before_literal(arg_texts(args@), 1),
{
    let ghost view = arg_texts(args@);
    let mut i: usize = args.len();
    let mut found = false;
    if args.len() == 0 {
        return false;
    }
    // Walk back from the end so that each step is one unfolding.
    while i > 1
        invariant
            1 <= i <= args@.len(),
            view == arg_texts(args@),
            found == negative_before_literal(view, i as int),
        decreases i,
    {
        i -= 1;
        assert(view[i as int] == args@[i as int]@);
        found = !str_eq(args[i], "--") && (is_negative_number(args[i]) || found);
    }
    found
}

fn is_top_command(c: &str) -> (r: bool)
    ensures
        r == top_command(c@),
{
    str_eq(c, "status") || str_eq(c, "windows") || str_eq(c, "doctor") || str_eq(c, "teardown") || str_eq(c, "key")
        || str_eq(c, "type") || str_eq(c, "click") || str_eq(c, "scroll") || str_eq(c, "shot") || str_eq(c, "wait")
        || str_eq(c, "target") || str_eq(c, "session")
}

fn is_help_words(words: &Vec<String>) -> (r: bool)
    ensures
        r == help_words(word_texts(words@)),
{
    let ghost w = word_texts(words@);
    if words.len() == 0 {
        return false;
    }
    assert(w[0] == words@[0]@);
    if !str_eq(words[0].as_str(), "help") {
        return false;
    }
    if words.len() == 1 {
        return true;
    }
    assert(w[1] == words@[1]@);
    is_top_command(words[1].as_str())
}

/// The command the words and flags make.
fn build(words: &Vec<String>, flags: &Vec<(String, Option<String>)>) -> (r: Result<Command, String>)
    requires
        names_unique(flag_texts(flags@)),
    ensures
        r is Ok <==> command_ok(word_texts(words@), flag_texts(flags@)),
        r matches Ok(c) ==> command_fits(word_texts(words@), flag_texts(flags@), c),
{
    if words.len() == 0 {
        return Err(own("a command is required; see `hyprpilot --help`"));
    }
    let ghost w = word_texts(words@);
    let c = words[0].as_str();
    assert(w[0] == c@);
    assert(w.subrange(1, w.len() as int).len() == words@.len() - 1);
    if str_eq(c, "status") || str_eq(c, "windows") || str_eq(c, "doctor") {
        build_plain(words, flags)
    } else if str_eq(c, "teardown") {
        build_teardown(words, flags)
    } else if str_eq(c, "key") {
        build_key(words, flags)
    } else if str_eq(c, "type") {
        build_type(words, flags)
    } else if str_eq(c, "click") {
        assert(w.subrange(1, w.len() as int).len() == 2 ==> w.subrange(1, w.len() as int)[0] == w[1]
            && w.subrange(1, w.len() as int)[1] == w[2]);
        build_click(words, flags)
    } else if str_eq(c, "scroll") {
        assert(w.subrange(1, w.len() as int).len() == 2 ==> w.subrange(1, w.len() as int)[0] == w[1]
            && w.subrange(1, w.len() as int)[1] == w[2]);
        build_scroll(words, flags)
    } else if str_eq(c, "shot") {
        build_shot(words, flags)
    } else if str_eq(c, "wait") {
        build_wait(words, flags)
    } else if str_eq(c, "target") {
        build_target(words, flags)
    } else if str_eq(c, "session") {
        assert(w.subrange(1, w.len() as int).len() >= 1 ==> w.subrange(1, w.len() as int)[0] == w[1]);
        build_session(words, flags)
    } else {
        Err(cat3("unrecognized command `", c, "`; see `hyprpilot --help`"))
    }
}

/// What a command line makes: `None` when it makes nothing.
pub open spec fn cli_fits(args: Seq<&str>, cli: Cli) -> bool {
    match scanned(args) {
        Some((w, f)) => names_unique(f) && opt_view(cli.session) == flag_value(f, "session"@) && if has_flag(
            f,
            "help"@,
        ) {
            cli.command is Help
        } else if has_flag(f, "version"@) {
            cli.command is Version
        } else if help_words(w) {
            cli.command is Help
        } else {
            command_fits(w, f, cli.command)
        },
        None => false,
    }
}

/// A click presses the button its `--button` value names, and the left one
/// when none is named: the label of the button in the command is the word
/// given.
pub proof fn a_click_presses_the_button_it_names(args: Seq<&str>, cli: Cli)
    requires
        cli_fits(args, cli),
        cli.command is Click,
    ensures
        scanned(args) matches Some((w, f)) && match cli.command {
            Command::Click { button, .. } => button_label(button) == match flag_value(f, "button"@) {
                Some(v) => v,
                None => "left"@,
            },
            _ => false,
        },
{
}

/// A click lands on the two numbers given as words, the first as `x`; a
/// scroll lands there too and turns the wheel by the `--dy` and `--dx`
/// values, none when absent.
pub proof fn a_click_or_scroll_lands_where_its_words_say(args: Seq<&str>, cli: Cli)
    requires
        cli_fits(args, cli),
        cli.command is Click || cli.command is Scroll,
    ensures
        scanned(args) matches Some((w, f)) && w.len() == 3 && match cli.command {
            Command::Click { x, y, .. } => parse_i32_spec(w[1]) == Some(x) && parse_i32_spec(w[2]) == Some(y),
            Command::Scroll { x, y, dy, dx, .. } => parse_i32_spec(w[1]) == Some(x) && parse_i32_spec(w[2])
                == Some(y) && match flag_value(f, "dy"@) {
                Some(v) => parse_i32_spec(v) == Some(dy),
                None => dy == 0,
            } && match flag_value(f, "dx"@) {
                Some(v) => parse_i32_spec(v) == Some(dx),
                None => dx == 0,
            },
            _ => false,
        },
{
    let (w, f) = scanned(args)->Some_0;
    let rest = w.subrange(1, w.len() as int);
    assert(rest[0] == w[1] && rest[1] == w[2]);
}

/// `key` sends the chords given as words, in their order, and `type` the one
/// text given; each waits the `--delay-ms` given between two keystrokes, or
/// 50 ms for chords and 25 ms for text when none is, and takes the focus
/// only when `--focus` is given.
pub proof fn keys_and_text_are_sent_as_given(args: Seq<&str>, cli: Cli)
    requires
        cli_fits(args, cli),
        cli.command is Key || cli.command is Type,
    ensures
        scanned(args) matches Some((w, f)) && match cli.command {
            Command::Key { keys, delay_ms, focus } => keys@.len() == w.len() - 1 && (forall|i: int|
                0 <= i < keys@.len() ==> #[trigger] keys@[i]@ == w[i + 1]) && focus == has_flag(f, "focus"@)
                && match flag_value(f, "delay-ms"@) {
                Some(v) => parse_u64_spec(v) == Some(delay_ms),
                None => delay_ms == 50,
            },
            Command::Type { text, delay_ms, focus } => w.len() == 2 && text@ == w[1] && focus == has_flag(
                f,
                "focus"@,
            ) && match flag_value(f, "delay-ms"@) {
                Some(v) => parse_u64_spec(v) == Some(delay_ms),
                None => delay_ms == 25,
            },
            _ => false,
        },
{
    let (w, f) = scanned(args)->Some_0;
    let rest = w.subrange(1, w.len() as int);
    if let Command::Key { keys, delay_ms, focus } = cli.command {
        assert forall|i: int| 0 <= i < keys@.len() implies #[trigger] keys@[i]@ == w[i + 1] by {
            assert(word_texts(keys@)[i] == keys@[i]@);
            assert(rest[i] == w[i + 1]);
        }
    }
}

/// Whether a command line makes a command.
pub open spec fn cli_ok(args: Seq<&str>) -> bool {
    match scanned(args) {
        Some((w, f)) => names_unique(f) && (has_flag(f, "help"@) || has_flag(f, "version"@) || (help_words(w)
            && only_spec(f, seq![])) || (!help_words(w) && command_ok(w, f) && (!negative_before_literal(
            arg_texts(args),
            1,
        ) || w[0] == "click"@ || w[0] == "scroll"@))),
        None => false,
    }
}

impl Cli {
    /// Reads `args`, the program name first.
    pub fn try_parse_from(args: &[&str]) -> (r: Result<Cli, String>)
        ensures
            r is Ok <==> cli_ok(args@),
            r matches Ok(cli) ==> cli_fits(args@, cli),
    {
        let (words, flags) = match scan(args) {
            Some(read) => read,
            None => {
                return Err(own("unexpected argument, or a flag without its value; see `hyprpilot --help`"));
            },
        };
        if !names_are_unique(&flags) {
            return Err(own("a flag is given more than once; see `hyprpilot --help`"));
        }
        let session = value_of(&flags, "session");
        if flag_given(&flags, "help") {
            return Ok(Cli { session, command: Command::Help });
        }
        if flag_given(&flags, "version") {
            return Ok(Cli { session, command: Command::Version });
        }
        if is_help_words(&words) {
            let allowed: [&str; 0] = [];
            let ok = only(&flags, &allowed);
            assert(arg_texts(allowed@) =~= Seq::<Seq<char>>::empty());
            if !ok {
                return Err(refused("help"));
            }
            return Ok(Cli { session, command: Command::Help });
        }
        let command = build(&words, &flags)?;
        let c = words[0].as_str();
        if has_negative_before_literal(args) && !str_eq(c, "click") && !str_eq(c, "scroll") {
            return Err(cat3("unexpected negative number for `", c, "`; see `hyprpilot --help`"));
        }
        Ok(Cli { session, command })
    }
}

} // verus!
