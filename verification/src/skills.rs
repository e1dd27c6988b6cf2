//! Validation of the YAML frontmatter of `SKILL.md` files against the agent
//! skills specification.
use vstd::prelude::*;

use crate::text::{cat, cat3, chars, find_seq, is_prefix, own, occurs_at, contains_seq, push_char,
    slice, space, is_space, starts_with, str_eq, trim, trimmed};

verus! {

pub const NAME_MAX_CHARS: usize = 64;
pub const DESCRIPTION_MAX_CHARS: usize = 1024;
pub const COMPATIBILITY_MAX_CHARS: usize = 500;
pub const SPEC_URL: &'static str = "https://agentskills.io/specification";

/// A lowercase ASCII letter, a digit or a hyphen.
pub open spec fn name_char(c: char) -> bool {
    ('a' <= c <= 'z') || ('0' <= c <= '9') || c == '-'
}

/// Lowercase letters, digits and single hyphens, no hyphen at either end.
pub open spec fn valid_skill_name(name: Seq<char>) -> bool {
    &&& !(name.len() > 0 && name[0] == '-')
    &&& !(name.len() > 0 && name.last() == '-')
    &&& !contains_seq(name, "--"@)
    &&& forall|i: int| 0 <= i < name.len() ==> name_char(#[trigger] name[i])
}

pub fn is_valid_skill_name(name: &str) -> (r: bool)
    ensures
        r == valid_skill_name(name@),
{
    let v = chars(name);
    let n = v.len();
    if n > 0 && (v[0] == '-' || v[n - 1] == '-') {
        return false;
    }
    let dashes = chars("--");
    proof {
        reveal_strlit("--");
    }
    if find_seq(v.as_slice(), dashes.as_slice()).is_some() {
        return false;
    }
    let mut i: usize = 0;
    while i < n
        invariant
            n == v@.len(),
            v@ == name@,
            i <= n,
            forall|j: int| 0 <= j < i ==> name_char(#[trigger] v@[j]),
        decreases n - i,
    {
        let c = v[i];
        if !(('a' <= c && c <= 'z') || ('0' <= c && c <= '9') || c == '-') {
            return false;
        }
        i += 1;
    }
    true
}

pub open spec fn missing_opening() -> Seq<char> {
    "missing opening frontmatter delimiter (`---`)"@
}

pub open spec fn missing_closing() -> Seq<char> {
    "missing closing frontmatter delimiter (`---`)"@
}

/// What follows the opening delimiter line, LF or CRLF.
pub open spec fn after_opening(content: Seq<char>) -> Option<Seq<char>> {
    if is_prefix("---\n"@, content) {
        Some(content.subrange(4, content.len() as int))
    } else if is_prefix("---\r\n"@, content) {
        Some(content.subrange(5, content.len() as int))
    } else {
        None
    }
}

/// The first position of `needle` in `hay`, if it occurs.
pub open spec fn first_occurrence(hay: Seq<char>, needle: Seq<char>) -> Option<int> {
    if contains_seq(hay, needle) {
        Some(
            choose|at: int|
                occurs_at(hay, needle, at) && forall|k: int| 0 <= k < at ==> !occurs_at(hay, needle, k),
        )
    } else {
        None
    }
}

/// Where the closing delimiter line starts: the first `\n---\n`, else the
/// first `\n---\r\n`, else `\r\n---\n`, else `\r\n---\r\n`.
pub open spec fn closing_at(rest: Seq<char>) -> Option<int> {
    match first_occurrence(rest, "\n---\n"@) {
        Some(i) => Some(i),
        None => match first_occurrence(rest, "\n---\r\n"@) {
            Some(i) => Some(i),
            None => match first_occurrence(rest, "\r\n---\n"@) {
                Some(i) => Some(i),
                None => first_occurrence(rest, "\r\n---\r\n"@),
            },
        },
    }
}

/// The frontmatter between the `---` delimiter lines.
pub open spec fn frontmatter_spec(content: Seq<char>) -> Result<Seq<char>, Seq<char>> {
    match after_opening(content) {
        None => Err(missing_opening()),
        Some(rest) => match closing_at(rest) {
            None => Err(missing_closing()),
            Some(end) => Ok(rest.subrange(0, end)),
        },
    }
}

proof fn lemma_first_occurrence(hay: Seq<char>, needle: Seq<char>, at: int)
    requires
        occurs_at(hay, needle, at),
        forall|k: int| 0 <= k < at ==> !occurs_at(hay, needle, k),
    ensures
        first_occurrence(hay, needle) == Some(at),
{
    let c = choose|a: int|
        occurs_at(hay, needle, a) && forall|k: int| 0 <= k < a ==> !occurs_at(hay, needle, k);
    assert(occurs_at(hay, needle, c));
    if c < at {
        assert(!occurs_at(hay, needle, c));
    }
    if at < c {
        assert(!occurs_at(hay, needle, at));
    }
}

fn find_first(rest: &[char], needle: &str) -> (r: Option<usize>)
    ensures
        match r {
            Some(i) => first_occurrence(rest@, needle@) == Some(i as int) && i <= rest@.len(),
            None => first_occurrence(rest@, needle@) is None,
        },
{
    let n = chars(needle);
    let found = find_seq(rest, n.as_slice());
    match found {
        Some(i) => {
            proof {
                lemma_first_occurrence(rest@, needle@, i as int);
            }
            Some(i)
        },
        None => None,
    }
}

/// The YAML between the opening `---` line and the closing one.
pub fn extract_frontmatter(content: &str) -> (r: Result<String, String>)
    ensures
        match frontmatter_spec(content@) {
            Ok(f) => r matches Ok(t) && t@ == f,
            Err(m) => r matches Err(t) && t@ == m,
        },
{
    let v = chars(content);
    let n = v.len();
    let start: usize = if starts_with(content, "---\n") {
        proof {
            reveal_strlit("---\n");
        }
        4
    } else if starts_with(content, "---\r\n") {
        proof {
            reveal_strlit("---\r\n");
            reveal_strlit("---\n");
            if is_prefix("---\n"@, content@) {
                assert(content@[3] == '\n');
            }
        }
        5
    } else {
        return Err(own("missing opening frontmatter delimiter (`---`)"));
    };
    let rest = slice(v.as_slice(), start, n);
    let rv = chars(rest.as_str());
    assert(after_opening(content@) == Some(rest@));
    let end = match find_first(rv.as_slice(), "\n---\n") {
        Some(i) => i,
        None => match find_first(rv.as_slice(), "\n---\r\n") {
            Some(i) => i,
            None => match find_first(rv.as_slice(), "\r\n---\n") {
                Some(i) => i,
                None => match find_first(rv.as_slice(), "\r\n---\r\n") {
                    Some(i) => i,
                    None => {
                        return Err(own("missing closing frontmatter delimiter (`---`)"));
                    },
                },
            },
        },
    };
    Ok(slice(rv.as_slice(), 0, end))
}

/// White space runs collapsed to one space, none left at either end.
pub open spec fn squeezed(s: Seq<char>) -> Seq<char>
    decreases s.len(),
{
    if s.len() == 0 {
        Seq::empty()
    } else if is_space(s.last()) {
        squeezed(s.drop_last())
    } else if s.len() >= 2 && is_space(s[s.len() - 2]) && squeezed(s.drop_last()).len() > 0 {
        squeezed(s.drop_last()).push(' ').push(s.last())
    } else {
        squeezed(s.drop_last()).push(s.last())
    }
}

/// `split_whitespace` joined by single spaces.
pub fn squeeze(s: &str) -> (r: String)
    ensures
        r@ == squeezed(s@),
{
    let v = chars(s);
    let mut r = String::new();
    let mut i: usize = 0;
    while i < v.len()
        invariant
            v@ == s@,
            i <= v@.len(),
            r@ == squeezed(v@.subrange(0, i as int)),
        decreases v@.len() - i,
    {
        let ghost pre = v@.subrange(0, i as int);
        assert(v@.subrange(0, i + 1).drop_last() =~= pre);
        let c = v[i];
        if !space(c) {
            if i > 0 && space(v[i - 1]) && r.unicode_len() > 0 {
                push_char(&mut r, ' ');
            }
            push_char(&mut r, c);
        }
        i += 1;
    }
    assert(v@.subrange(0, v@.len() as int) =~= v@);
    r
}

/// A top-level frontmatter entry as plain values: the key, the value when it
/// is a YAML string, and otherwise the YAML text the value serialises to
/// (empty when it does not serialise).
pub open spec fn entry_view(e: (String, Option<String>, String)) -> (Seq<char>, Option<Seq<char>>, Seq<char>) {
    (e.0@, match e.1 {
        Some(t) => Some(t@),
        None => None,
    }, e.2@)
}

pub open spec fn entry_views(v: Seq<(String, Option<String>, String)>) -> Seq<(Seq<char>, Option<Seq<char>>, Seq<char>)> {
    v.map_values(|e: (String, Option<String>, String)| entry_view(e))
}

/// The top-level mapping `serde_yaml` reads out of `text`, entry by entry, or
/// its complaint.
pub uninterp spec fn yaml_mapping(text: Seq<char>) -> Result<Seq<(Seq<char>, Option<Seq<char>>, Seq<char>)>, Seq<char>>;

/// `serde_yaml::from_str` into a map of string keys, each value kept as its
/// string or rendered back with `serde_yaml::to_string`. What YAML parses to
/// is only named.
#[verifier::external_body]
fn yaml_fields(text: &str) -> (r: Result<Vec<(String, Option<String>, String)>, String>)
    ensures
        yaml_mapping(text@) == match r {
            Ok(v) => Ok(entry_views(v@)),
            Err(m) => Err(m@),
        },
{
    let map: std::collections::BTreeMap<String, serde_yaml::Value> = serde_yaml::from_str(text)
        .map_err(|e| e.to_string())?;
    Ok(map.into_iter().map(|(key, value)| match value {
        serde_yaml::Value::String(t) => (key, Some(t), String::new()),
        other => (key, None, serde_yaml::to_string(&other).unwrap_or_default()),
    }).collect())
}

/// The index of the first entry under `key`.
pub open spec fn entry_at(entries: Seq<(Seq<char>, Option<Seq<char>>, Seq<char>)>, key: Seq<char>) -> Option<int> {
    if exists|i: int| 0 <= i < entries.len() && entries[i].0 == key {
        Some(
            choose|i: int|
                0 <= i < entries.len() && entries[i].0 == key && forall|j: int|
                    0 <= j < i ==> entries[j].0 != key,
        )
    } else {
        None
    }
}

/// A field that is a string with something besides white space in it,
/// trimmed.
pub open spec fn string_field(entries: Seq<(Seq<char>, Option<Seq<char>>, Seq<char>)>, key: Seq<char>) -> Option<Seq<char>> {
    match entry_at(entries, key) {
        Some(i) => match entries[i].1 {
            Some(t) => if trimmed(t).len() > 0 {
                Some(trimmed(t))
            } else {
                None
            },
            None => None,
        },
        None => None,
    }
}

/// A value on one line: a string trimmed, anything else rendered with its
/// white space collapsed.
pub open spec fn single_line(e: (Seq<char>, Option<Seq<char>>, Seq<char>)) -> Seq<char> {
    match e.1 {
        Some(t) => trimmed(t),
        None => squeezed(e.2),
    }
}

fn find_entry(entries: &Vec<(String, Option<String>, String)>, key: &str) -> (r: Option<usize>)
    ensures
        match r {
            Some(i) => entry_at(entry_views(entries@), key@) == Some(i as int) && i < entries@.len(),
            None => entry_at(entry_views(entries@), key@) is None,
        },
{
    let ghost ev = entry_views(entries@);
    let mut i: usize = 0;
    while i < entries.len()
        invariant
            ev == entry_views(entries@),
            i <= entries@.len(),
            forall|j: int| 0 <= j < i ==> ev[j].0 != key@,
        decreases entries@.len() - i,
    {
        if str_eq(entries[i].0.as_str(), key) {
            proof {
                let c = choose|k: int|
                    0 <= k < ev.len() && ev[k].0 == key@ && forall|j: int| 0 <= j < k ==> ev[j].0 != key@;
                assert(ev[i as int].0 == key@);
                if c < i {
                    assert(ev[c].0 != key@);
                }
                if (i as int) < c {
                    assert(ev[i as int].0 != key@);
                }
            }
            return Some(i);
        }
        i += 1;
    }
    None
}

fn get_string_field(entries: &Vec<(String, Option<String>, String)>, key: &str) -> (r: Option<String>)
    ensures
        match r {
            Some(t) => string_field(entry_views(entries@), key@) == Some(t@),
            None => string_field(entry_views(entries@), key@) is None,
        },
{
    match find_entry(entries, key) {
        None => None,
        Some(i) => match &entries[i].1 {
            None => None,
            Some(t) => {
                let v = trim(t.as_str());
                if v.unicode_len() > 0 {
                    Some(v)
                } else {
                    None
                }
            },
        },
    }
}

fn yaml_value_to_single_line(e: &(String, Option<String>, String)) -> (r: String)
    ensures
        r@ == single_line(entry_view(*e)),
{
    match &e.1 {
        Some(t) => trim(t.as_str()),
        None => squeeze(e.2.as_str()),
    }
}

/// `PATH: `FIELD` length is N, expected 1-MAX`.
pub open spec fn length_problem(display: Seq<char>, field: Seq<char>, len: nat, max: nat) -> Seq<char> {
    display + ": `"@ + field + "` length is "@ + crate::text::dec(len) + ", expected 1-"@
        + crate::text::dec(max)
}

fn length_message(display: &str, field: &str, len: usize, max: usize) -> (r: String)
    ensures
        r@ == length_problem(display@, field@, len as nat, max as nat),
{
    let mut m = cat3(display, ": `", field);
    m.append("` length is ");
    m.append(crate::text::fmt_u64(len as u64).as_str());
    m.append(", expected 1-");
    m.append(crate::text::fmt_u64(max as u64).as_str());
    m
}

/// The `name` checks: a non-empty string, at most 64 characters, of the
/// allowed alphabet, equal to the name of the directory holding the file.
pub open spec fn name_problems(
    display: Seq<char>,
    parent: Option<Seq<char>>,
    entries: Seq<(Seq<char>, Option<Seq<char>>, Seq<char>)>,
) -> Seq<Seq<char>> {
    match string_field(entries, "name"@) {
        None => seq![display + ": `name` must be a non-empty string"@],
        Some(name) => {
            let length: Seq<Seq<char>> = if name.len() == 0 || name.len() > NAME_MAX_CHARS {
                seq![length_problem(display, "name"@, name.len(), NAME_MAX_CHARS as nat)]
            } else {
                Seq::empty()
            };
            let alphabet: Seq<Seq<char>> = if !valid_skill_name(name) {
                seq![display
                    + ": `name` must use lowercase letters, numbers, and single hyphens only, without leading/trailing hyphens"@]
            } else {
                Seq::empty()
            };
            let directory: Seq<Seq<char>> = match parent {
                None => seq![display + ": could not determine parent directory name"@],
                Some(p) => if name != p {
                    seq![display + ": `name` is `"@ + name + "` but parent directory is `"@ + p + "`"@]
                } else {
                    Seq::empty()
                },
            };
            length + alphabet + directory
        },
    }
}

/// The `description` checks: a non-empty string of at most 1024 characters.
pub open spec fn description_problems(
    display: Seq<char>,
    entries: Seq<(Seq<char>, Option<Seq<char>>, Seq<char>)>,
) -> Seq<Seq<char>> {
    match string_field(entries, "description"@) {
        None => seq![display + ": `description` must be a non-empty string"@],
        Some(d) => if d.len() == 0 || d.len() > DESCRIPTION_MAX_CHARS {
            seq![length_problem(display, "description"@, d.len(), DESCRIPTION_MAX_CHARS as nat)]
        } else {
            Seq::empty()
        },
    }
}

/// The optional `compatibility` check: when present, 1 to 500 characters on
/// one line.
pub open spec fn compatibility_problems(
    display: Seq<char>,
    entries: Seq<(Seq<char>, Option<Seq<char>>, Seq<char>)>,
) -> Seq<Seq<char>> {
    match entry_at(entries, "compatibility"@) {
        None => Seq::empty(),
        Some(i) => {
            let c = single_line(entries[i]);
            if c.len() == 0 || c.len() > COMPATIBILITY_MAX_CHARS {
                seq![length_problem(display, "compatibility"@, c.len(), COMPATIBILITY_MAX_CHARS as nat)]
            } else {
                Seq::empty()
            }
        },
    }
}

/// Everything wrong with a skill file, given its text: the frontmatter has
/// to be delimited and valid YAML, then every field check reports.
pub open spec fn skill_problems(display: Seq<char>, parent: Option<Seq<char>>, content: Seq<char>) -> Seq<Seq<char>> {
    match frontmatter_spec(content) {
        Err(m) => seq![display + ": "@ + m],
        Ok(f) => match yaml_mapping(f) {
            Err(m) => seq![display + ": invalid YAML frontmatter: "@ + m],
            Ok(entries) => name_problems(display, parent, entries) + description_problems(
                display,
                entries,
            ) + compatibility_problems(display, entries),
        },
    }
}

fn push_views(problems: &mut Vec<String>, line: String)
    ensures
        crate::hypr::string_views(final(problems)@) == crate::hypr::string_views(old(problems)@).push(line@),
{
    problems.push(line);
    proof {
        crate::hypr::lemma_string_views_push(old(problems)@, line);
    }
}

fn name_check(display: &str, parent: Option<&str>, entries: &Vec<(String, Option<String>, String)>) -> (r: Vec<String>)
    ensures
        crate::hypr::string_views(r@) == name_problems(display@, crate::session::opt_view(parent), entry_views(entries@)),
{
    let mut problems: Vec<String> = Vec::new();
    match get_string_field(entries, "name") {
        None => {
            push_views(&mut problems, cat(display, ": `name` must be a non-empty string"));
        },
        Some(name) => {
            let length = name.unicode_len();
            if length == 0 || length > NAME_MAX_CHARS {
                push_views(&mut problems, length_message(display, "name", length, NAME_MAX_CHARS));
            }
            if !is_valid_skill_name(name.as_str()) {
                push_views(
                    &mut problems,
                    cat(
                        display,
                        ": `name` must use lowercase letters, numbers, and single hyphens only, without leading/trailing hyphens",
                    ),
                );
            }
            match parent {
                None => {
                    push_views(&mut problems, cat(display, ": could not determine parent directory name"));
                },
                Some(p) => {
                    if !str_eq(name.as_str(), p) {
                        let mut m = cat3(display, ": `name` is `", name.as_str());
                        m.append("` but parent directory is `");
                        m.append(p);
                        m.append("`");
                        push_views(&mut problems, m);
                    }
                },
            }
        },
    }
    assert(crate::hypr::string_views(problems@) =~= name_problems(
        display@,
        crate::session::opt_view(parent),
        entry_views(entries@),
    ));
    problems
}

fn description_check(display: &str, entries: &Vec<(String, Option<String>, String)>) -> (r: Vec<String>)
    ensures
        crate::hypr::string_views(r@) == description_problems(display@, entry_views(entries@)),
{
    let mut problems: Vec<String> = Vec::new();
    match get_string_field(entries, "description") {
        None => {
            push_views(&mut problems, cat(display, ": `description` must be a non-empty string"));
        },
        Some(description) => {
            let length = description.unicode_len();
            if length == 0 || length > DESCRIPTION_MAX_CHARS {
                push_views(
                    &mut problems,
                    length_message(display, "description", length, DESCRIPTION_MAX_CHARS),
                );
            }
        },
    }
    assert(crate::hypr::string_views(problems@) =~= description_problems(display@, entry_views(entries@)));
    problems
}

fn compatibility_check(display: &str, entries: &Vec<(String, Option<String>, String)>) -> (r: Vec<String>)
    ensures
        crate::hypr::string_views(r@) == compatibility_problems(display@, entry_views(entries@)),
{
    let mut problems: Vec<String> = Vec::new();
    match find_entry(entries, "compatibility") {
        None => {},
        Some(i) => {
            let line = yaml_value_to_single_line(&entries[i]);
            let length = line.unicode_len();
            if length == 0 || length > COMPATIBILITY_MAX_CHARS {
                push_views(
                    &mut problems,
                    length_message(display, "compatibility", length, COMPATIBILITY_MAX_CHARS),
                );
            }
        },
    }
    assert(crate::hypr::string_views(problems@) =~= compatibility_problems(display@, entry_views(entries@)));
    problems
}

/// The problems of one skill file's text; none means the file is valid.
pub fn validate_skill(display: &str, parent: Option<&str>, content: &str) -> (r: Vec<String>)
    ensures
        crate::hypr::string_views(r@) == skill_problems(display@, crate::session::opt_view(parent), content@),
{
    let mut problems: Vec<String> = Vec::new();
    let frontmatter = match extract_frontmatter(content) {
        Err(m) => {
            push_views(&mut problems, cat3(display, ": ", m.as_str()));
            return problems;
        },
        Ok(f) => f,
    };
    let entries = match yaml_fields(frontmatter.as_str()) {
        Err(m) => {
            push_views(&mut problems, cat3(display, ": invalid YAML frontmatter: ", m.as_str()));
            return problems;
        },
        Ok(e) => e,
    };
    let names = name_check(display, parent, &entries);
    extend_views(&mut problems, names);
    let descriptions = description_check(display, &entries);
    extend_views(&mut problems, descriptions);
    let compatibility = compatibility_check(display, &entries);
    extend_views(&mut problems, compatibility);
    problems
}

/// The file name of a path, as `Path::file_name` reads it.
pub uninterp spec fn file_name_of(path: Seq<char>) -> Option<Seq<char>>;

/// The path without its last component, as `Path::parent` reads it.
pub uninterp spec fn parent_of(path: Seq<char>) -> Option<Seq<char>>;

/// `Path::file_name`. Which component counts as the file name is std's rule,
/// only named here.
#[verifier::external_body]
fn path_file_name(path: &str) -> (r: Option<String>)
    ensures
        file_name_of(path@) == match r {
            Some(n) => Some(n@),
            None => None::<Seq<char>>,
        },
{
    std::path::Path::new(path).file_name().map(|name| name.to_string_lossy().into_owned())
}

/// `Path::parent`, only named here.
#[verifier::external_body]
fn path_parent(path: &str) -> (r: Option<String>)
    ensures
        parent_of(path@) == match r {
            Some(n) => Some(n@),
            None => None::<Seq<char>>,
        },
{
    std::path::Path::new(path).parent().map(|parent| parent.to_string_lossy().into_owned())
}

/// The name of the directory holding a file.
pub open spec fn parent_name(path: Seq<char>) -> Option<Seq<char>> {
    match parent_of(path) {
        Some(p) => file_name_of(p),
        None => None,
    }
}

fn parent_dir_name(path: &str) -> (r: Option<String>)
    ensures
        match r {
            Some(n) => parent_name(path@) == Some(n@),
            None => parent_name(path@) is None,
        },
{
    match path_parent(path) {
        None => None,
        Some(p) => path_file_name(p.as_str()),
    }
}

pub open spec fn usage_text() -> Seq<char> {
    "Usage:\n  skills-tools validate frontmatter [paths...]\n\nExamples:\n  skills-tools validate frontmatter\n  skills-tools validate frontmatter content-architect/SKILL.md"@
}

pub fn usage() -> (r: String)
    ensures
        r@ == usage_text(),
{
    own(
        "Usage:\n  skills-tools validate frontmatter [paths...]\n\nExamples:\n  skills-tools validate frontmatter\n  skills-tools validate frontmatter content-architect/SKILL.md",
    )
}

/// Each problem on a line of its own, as a list item.
pub open spec fn problem_lines(problems: Seq<Seq<char>>) -> Seq<char>
    decreases problems.len(),
{
    if problems.len() == 0 {
        Seq::empty()
    } else {
        problem_lines(problems.drop_last()) + "- "@ + problems.last() + "\n"@
    }
}

/// What a run over `count` files reports: how many passed, or every problem
/// and where the specification is.
pub open spec fn report_spec(count: nat, problems: Seq<Seq<char>>) -> Result<Seq<char>, Seq<char>> {
    if problems.len() == 0 {
        Ok("Validated "@ + crate::text::dec(count) + " skill file(s)."@)
    } else {
        Err("Skill frontmatter validation failed:\n"@ + problem_lines(problems) + "Spec: "@ + SPEC_URL@)
    }
}

pub fn report(count: usize, problems: &Vec<String>) -> (r: Result<String, String>)
    ensures
        match report_spec(count as nat, crate::hypr::string_views(problems@)) {
            Ok(t) => r matches Ok(m) && m@ == t,
            Err(t) => r matches Err(m) && m@ == t,
        },
{
    if problems.len() == 0 {
        let mut m = cat("Validated ", crate::text::fmt_u64(count as u64).as_str());
        m.append(" skill file(s).");
        return Ok(m);
    }
    let mut m = own("Skill frontmatter validation failed:\n");
    let mut i: usize = 0;
    while i < problems.len()
        invariant
            i <= problems@.len(),
            m@ == "Skill frontmatter validation failed:\n"@ + problem_lines(
                crate::hypr::string_views(problems@.subrange(0, i as int)),
            ),
        decreases problems@.len() - i,
    {
        proof {
            assert(crate::hypr::string_views(problems@.subrange(0, i + 1)).drop_last()
                =~= crate::hypr::string_views(problems@.subrange(0, i as int)));
        }
        m.append("- ");
        m.append(problems[i].as_str());
        m.append("\n");
        i += 1;
    }
    assert(problems@.subrange(0, problems@.len() as int) =~= problems@);
    m.append("Spec: ");
    m.append(SPEC_URL);
    Err(m)
}

/// The paths named on the command line that are `SKILL.md` files.
pub open spec fn skill_paths(raw: Seq<String>) -> Seq<Seq<char>>
    decreases raw.len(),
{
    if raw.len() == 0 {
        Seq::empty()
    } else if file_name_of(raw.last()@) == Some("SKILL.md"@) {
        skill_paths(raw.drop_last()).push(raw.last()@)
    } else {
        skill_paths(raw.drop_last())
    }
}

fn named_skill_files(raw: &Vec<String>, from: usize) -> (r: Vec<String>)
    requires
        from <= raw@.len(),
    ensures
        crate::hypr::string_views(r@) == skill_paths(raw@.subrange(from as int, raw@.len() as int)),
{
    let ghost rest = raw@.subrange(from as int, raw@.len() as int);
    let mut r: Vec<String> = Vec::new();
    let mut i: usize = from;
    while i < raw.len()
        invariant
            from <= i <= raw@.len(),
            rest == raw@.subrange(from as int, raw@.len() as int),
            crate::hypr::string_views(r@) == skill_paths(raw@.subrange(from as int, i as int)),
        decreases raw@.len() - i,
    {
        assert(raw@.subrange(from as int, i + 1).drop_last() =~= raw@.subrange(from as int, i as int));
        let is_skill = match path_file_name(raw[i].as_str()) {
            Some(n) => str_eq(n.as_str(), "SKILL.md"),
            None => false,
        };
        if is_skill {
            push_views(&mut r, own(raw[i].as_str()));
        }
        i += 1;
    }
    r
}

/// The problems a file reports, given what reading it gave.
pub open spec fn file_problems(path: Seq<char>, read: Result<String, String>) -> Seq<Seq<char>> {
    match read {
        Err(e) => seq![path + ": failed to read file: "@ + e@],
        Ok(content) => skill_problems(path, parent_name(path), content@),
    }
}

/// Every file's problems, in the order of `paths`.
pub open spec fn all_problems(paths: Seq<Seq<char>>, reads: Seq<Result<String, String>>) -> Seq<Seq<char>>
    decreases paths.len(),
{
    if paths.len() == 0 || reads.len() < paths.len() {
        Seq::empty()
    } else {
        all_problems(paths.drop_last(), reads.subrange(0, paths.len() - 1)) + file_problems(
            paths.last(),
            reads[paths.len() - 1],
        )
    }
}

/// What the frontmatter validation of `paths` reports once each was read.
pub open spec fn validation_spec(paths: Seq<Seq<char>>, reads: Seq<Result<String, String>>) -> Result<Seq<char>, Seq<char>> {
    if paths.len() == 0 {
        Ok(Seq::empty())
    } else {
        report_spec(paths.len(), all_problems(paths, reads))
    }
}

/// The reads are of the files of `paths`, in order.
pub open spec fn read_each<F: Fn(String) -> Result<String, String>>(
    read: F,
    paths: Seq<Seq<char>>,
    reads: Seq<Result<String, String>>,
) -> bool {
    &&& reads.len() == paths.len()
    &&& forall|i: int| 0 <= i < paths.len() ==> #[trigger] read_one(read, paths[i], reads[i])
}

/// `got` is what reading the file at `path` gave.
pub open spec fn read_one<F: Fn(String) -> Result<String, String>>(read: F, path: Seq<char>, got: Result<String, String>) -> bool {
    exists|p: String| p@ == path && call_ensures(read, (p,), got)
}

/// The problems of one file, given what reading it gave.
fn check_file(path: &str, got: &Result<String, String>) -> (r: Vec<String>)
    ensures
        crate::hypr::string_views(r@) == file_problems(path@, *got),
{
    match got {
        Err(e) => {
            let mut m = cat(path, ": failed to read file: ");
            m.append(e.as_str());
            let mut r: Vec<String> = Vec::new();
            push_views(&mut r, m);
            r
        },
        Ok(content) => {
            let parent = parent_dir_name(path);
            match &parent {
                Some(n) => validate_skill(path, Some(n.as_str()), content.as_str()),
                None => validate_skill(path, None, content.as_str()),
            }
        },
    }
}

fn extend_views(problems: &mut Vec<String>, found: Vec<String>)
    ensures
        crate::hypr::string_views(final(problems)@) == crate::hypr::string_views(old(problems)@)
            + crate::hypr::string_views(found@),
{
    let ghost before = crate::hypr::string_views(problems@);
    let mut k: usize = 0;
    while k < found.len()
        invariant
            k <= found@.len(),
            crate::hypr::string_views(problems@) == before + crate::hypr::string_views(
                found@.subrange(0, k as int),
            ),
        decreases found@.len() - k,
    {
        assert(crate::hypr::string_views(found@.subrange(0, k + 1)) =~= crate::hypr::string_views(
            found@.subrange(0, k as int),
        ).push(found@[k as int]@));
        push_views(problems, own(found[k].as_str()));
        k += 1;
    }
    assert(found@.subrange(0, found@.len() as int) =~= found@);
}

proof fn lemma_all_problems_step(pv: Seq<Seq<char>>, reads: Seq<Result<String, String>>, i: int, got: Result<String, String>)
    requires
        0 <= i < pv.len(),
        reads.len() == i,
    ensures
        all_problems(pv.subrange(0, i + 1), reads.push(got)) == all_problems(pv.subrange(0, i), reads)
            + file_problems(pv[i], got),
{
    let p1 = pv.subrange(0, i + 1);
    let r1 = reads.push(got);
    assert(p1.drop_last() =~= pv.subrange(0, i));
    assert(r1.subrange(0, i) =~= reads);
}

proof fn lemma_read_each_step<F: Fn(String) -> Result<String, String>>(
    read: F,
    pv: Seq<Seq<char>>,
    reads: Seq<Result<String, String>>,
    i: int,
    p: String,
    got: Result<String, String>,
)
    requires
        0 <= i < pv.len(),
        read_each(read, pv.subrange(0, i), reads),
        p@ == pv[i],
        call_ensures(read, (p,), got),
    ensures
        read_each(read, pv.subrange(0, i + 1), reads.push(got)),
{
    let nr = reads.push(got);
    assert forall|j: int| 0 <= j < i + 1 implies #[trigger] read_one(read, pv.subrange(0, i + 1)[j], nr[j]) by {
        if j < i {
            assert(pv.subrange(0, i + 1)[j] == pv.subrange(0, i)[j]);
            assert(nr[j] == reads[j]);
            assert(read_one(read, pv.subrange(0, i)[j], reads[j]));
        } else {
            assert(read_one(read, pv[i], got));
        }
    }
}

/// Validates the files of `paths`, in that order; `read` hands back a file's
/// text.
pub fn validate_paths<F: Fn(String) -> Result<String, String>>(paths: &Vec<String>, read: &F) -> (r: Result<String, String>)
    requires
        forall|p: String| call_requires(*read, (p,)),
    ensures
        exists|reads: Seq<Result<String, String>>|
            read_each(*read, crate::hypr::string_views(paths@), reads) && match validation_spec(
                crate::hypr::string_views(paths@),
                reads,
            ) {
                Ok(t) => r matches Ok(m) && m@ == t,
                Err(t) => r matches Err(m) && m@ == t,
            },
{
    let ghost pv = crate::hypr::string_views(paths@);
    if paths.len() == 0 {
        assert(read_each(*read, pv, Seq::empty()));
        return Ok(String::new());
    }
    let ghost mut reads: Seq<Result<String, String>> = Seq::empty();
    let mut problems: Vec<String> = Vec::new();
    let mut i: usize = 0;
    while i < paths.len()
        invariant
            pv == crate::hypr::string_views(paths@),
            i <= paths@.len(),
            reads.len() == i,
            forall|p: String| call_requires(*read, (p,)),
            read_each(*read, pv.subrange(0, i as int), reads),
            crate::hypr::string_views(problems@) == all_problems(pv.subrange(0, i as int), reads),
        decreases paths@.len() - i,
    {
        let p = own(paths[i].as_str());
        let ghost gp = p;
        let got = read(p);
        let found = check_file(paths[i].as_str(), &got);
        extend_views(&mut problems, found);
        proof {
            lemma_all_problems_step(pv, reads, i as int, got);
            lemma_read_each_step(*read, pv, reads, i as int, gp, got);
            reads = reads.push(got);
        }
        i += 1;
    }
    assert(pv.subrange(0, paths@.len() as int) =~= pv);
    let r = report(paths.len(), &problems);
    assert(read_each(*read, pv, reads));
    r
}

/// Whether the arguments ask for `validate frontmatter`.
pub open spec fn asks_validation(args: Seq<String>) -> bool {
    args.len() >= 2 && args[0]@ == "validate"@ && args[1]@ == "frontmatter"@
}

/// The files to validate before they are put in order: those found under
/// the working directory when no path is given, else the `SKILL.md` files
/// among the paths given.
pub open spec fn listed_spec<D: FnOnce() -> Result<Vec<String>, String>>(
    discover: D,
    args: Seq<String>,
    listed: Result<Seq<Seq<char>>, Seq<char>>,
) -> bool {
    if args.len() == 2 {
        exists|found: Result<Vec<String>, String>|
            call_ensures(discover, (), found) && listed == match found {
                Ok(v) => Ok(crate::hypr::string_views(v@)),
                Err(e) => Err(e@),
            }
    } else {
        listed == Ok::<Seq<Seq<char>>, Seq<char>>(skill_paths(args.subrange(2, args.len() as int)))
    }
}

/// `ordered` is `list` put in order: a list of fewer than two paths is in
/// order as it stands, a longer one is what `order` made of it.
pub open spec fn ordered_by<O: FnOnce(Vec<String>) -> Vec<String>>(
    order: O,
    list: Seq<Seq<char>>,
    ordered: Seq<Seq<char>>,
) -> bool {
    if list.len() < 2 {
        ordered == list
    } else {
        exists|v: Vec<String>, o: Vec<String>|
            crate::hypr::string_views(v@) == list && call_ensures(order, (v,), o) && crate::hypr::string_views(o@)
                == ordered
    }
}

/// What a validation run answers: the listing failed, or each listed file,
/// put in order, was read and checked.
pub open spec fn validation_outcome<D: FnOnce() -> Result<Vec<String>, String>, O: FnOnce(Vec<String>) -> Vec<
    String,
>, F: Fn(String) -> Result<String, String>>(
    discover: D,
    order: O,
    read: F,
    args: Seq<String>,
    listed: Result<Seq<Seq<char>>, Seq<char>>,
    ordered: Seq<Seq<char>>,
    reads: Seq<Result<String, String>>,
    r: Result<String, String>,
) -> bool {
    listed_spec(discover, args, listed) && match listed {
        Err(e) => r matches Err(m) && m@ == "Failed to discover SKILL.md files: "@ + e,
        Ok(list) => ordered_by(order, list, ordered) && read_each(read, ordered, reads) && match validation_spec(
            ordered,
            reads,
        ) {
            Ok(t) => r matches Ok(m) && m@ == t,
            Err(t) => r matches Err(m) && m@ == t,
        },
    }
}

/// `skills-tools validate frontmatter [paths...]`. `discover` lists the
/// `SKILL.md` files under the working directory, `order` sorts and
/// deduplicates two or more paths as paths, `read` hands back a file's
/// text.
pub fn run_cli<D: FnOnce() -> Result<Vec<String>, String>, O: FnOnce(Vec<String>) -> Vec<String>, F: Fn(
    String,
) -> Result<String, String>>(args: &Vec<String>, discover: D, order: O, read: &F) -> (r: Result<
    String,
    String,
>)
    requires
        call_requires(discover, ()),
        forall|v: Vec<String>| call_requires(order, (v,)),
        forall|p: String| call_requires(*read, (p,)),
    ensures
        !asks_validation(args@) ==> (r matches Err(m) && m@ == usage_text()),
        asks_validation(args@) ==> exists|
            listed: Result<Seq<Seq<char>>, Seq<char>>,
            ordered: Seq<Seq<char>>,
            reads: Seq<Result<String, String>>,
        | #[trigger] validation_outcome(discover, order, *read, args@, listed, ordered, reads, r),
{
    if !(args.len() >= 2 && str_eq(args[0].as_str(), "validate") && str_eq(args[1].as_str(), "frontmatter")) {
        return Err(usage());
    }
    let list = if args.len() == 2 {
        let found = discover();
        let ghost gf = found;
        match found {
            Err(e) => {
                let r = Err(cat("Failed to discover SKILL.md files: ", e.as_str()));
                let ghost listed: Result<Seq<Seq<char>>, Seq<char>> = Err(e@);
                assert(listed_spec(discover, args@, listed));
                assert(validation_outcome(discover, order, *read, args@, listed, Seq::empty(), Seq::empty(), r));
                return r;
            },
            Ok(v) => {
                assert(listed_spec(discover, args@, Ok(crate::hypr::string_views(v@))));
                v
            },
        }
    } else {
        named_skill_files(args, 2)
    };
    let ghost gl = list;
    let ordered = if list.len() < 2 {
        list
    } else {
        order(list)
    };
    let ghost go = ordered;
    let r = validate_paths(&ordered, read);
    assert(ordered_by(order, crate::hypr::string_views(gl@), crate::hypr::string_views(go@)));
    assert(listed_spec(discover, args@, Ok(crate::hypr::string_views(gl@))));
    let ghost reads = choose|reads: Seq<Result<String, String>>|
        read_each(*read, crate::hypr::string_views(go@), reads) && match validation_spec(
            crate::hypr::string_views(go@),
            reads,
        ) {
            Ok(t) => r matches Ok(m) && m@ == t,
            Err(t) => r matches Err(m) && m@ == t,
        };
    assert(validation_outcome(
        discover,
        order,
        *read,
        args@,
        Ok(crate::hypr::string_views(gl@)),
        crate::hypr::string_views(go@),
        reads,
        r,
    ));
    r
}

/// Directories the discovery of `SKILL.md` files does not enter.
pub fn skipped_dir(name: &str) -> (r: bool)
    ensures
        r == (name@ == ".git"@ || name@ == "target"@ || name@ == "node_modules"@),
{
    crate::text::str_eq(name, ".git") || crate::text::str_eq(name, "target") || crate::text::str_eq(name, "node_modules")
}

} // verus!
