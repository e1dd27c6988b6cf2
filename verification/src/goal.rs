//! Writing a Codex goal file: which slugs are accepted, what a payload has to
//! be, where the file goes, and what the written file must look like. The
//! file descriptors and system calls are the caller's.
use vstd::prelude::*;

use crate::capture::{eq_ignore_ascii_case, path_extension};
use crate::path::{join, join_spec};
use crate::text::{cat, cat3, chars, contains, contains_seq, is_prefix, own, trimmed, trim};
use vstd::utf8::{decode_utf8, encode_utf8, valid_utf8};

verus! {

/// The most bytes a payload may have.
pub const MAX_STDIN_BYTES: usize = 262144;
pub const GOALS_DIR: &'static str = ".codex/goals";
pub const S_IFMT: u32 = 0o170000;
pub const S_IFREG: u32 = 0o100000;

/// The root and slug a run writes under.
#[derive(Debug)]
pub struct Config {
    pub root: String,
    pub slug: String,
}

/// The user `sudo` ran the command for.
#[derive(Debug, Clone, Copy, PartialEq, Eq, Structural)]
pub struct SudoIdentity {
    pub uid: u32,
    pub gid: u32,
}

/// Why a directory could not be opened.
#[derive(Debug)]
pub enum OpenDirError {
    NotFound,
    Other(String),
}

impl OpenDirError {
    pub fn into_message(self) -> (r: String)
        ensures
            match self {
                OpenDirError::NotFound => r@ == "directory not found"@,
                OpenDirError::Other(m) => r == m,
            },
    {
        match self {
            OpenDirError::NotFound => String::from_str("directory not found"),
            OpenDirError::Other(message) => message,
        }
    }
}

/// Who the written goal file has to belong to.
#[derive(Debug, Clone, Copy, PartialEq, Eq, Structural)]
pub enum OwnerExpectation {
    Root,
    User(SudoIdentity),
}

/// A lowercase ASCII letter or a digit.
pub open spec fn slug_start(c: char) -> bool {
    ('a' <= c <= 'z') || ('0' <= c <= '9')
}

/// A character a slug may hold.
pub open spec fn slug_char(c: char) -> bool {
    slug_start(c) || c == '.' || c == '_' || c == '-'
}

/// What `validate_slug` says of a slug, the first rule broken.
pub open spec fn slug_verdict(slug: Seq<char>) -> Result<(), Seq<char>> {
    if (encode_utf8(slug).len() as usize) > 81 {
        Err("slug must be at most 81 characters"@)
    } else if path_extension(slug) matches Some(e) && eq_ignore_ascii_case(e, "md"@) {
        Err("slug must not include .md"@)
    } else if contains_seq(slug, ".."@) {
        Err("slug must not contain .."@)
    } else if slug.len() == 0 {
        Err("slug must not be empty"@)
    } else if !slug_start(slug[0]) {
        Err("slug must start with a lowercase ASCII letter or digit"@)
    } else if exists|i: int| 0 <= i < slug.len() && !slug_char(slug[i]) {
        Err("slug must match [a-z0-9][a-z0-9._-]{0,80}"@)
    } else {
        Ok(())
    }
}

/// A slug names a file under the goals directory: short, no `.md` of its
/// own, no `..`, and only lowercase ASCII letters, digits, `.`, `_` and `-`,
/// starting with a letter or a digit.
pub fn validate_slug(slug: &str) -> (r: Result<(), String>)
    ensures
        match slug_verdict(slug@) {
            Ok(_) => r is Ok,
            Err(m) => r matches Err(t) && t@ == m,
        },
{
    if slug.len() > 81 {
        return Err(String::from_str("slug must be at most 81 characters"));
    }
    let md = match crate::capture::extension_of(slug) {
        Some(e) => crate::capture::same_ignoring_case(e.as_str(), "md"),
        None => false,
    };
    if md {
        return Err(String::from_str("slug must not include .md"));
    }
    if contains(slug, "..") {
        return Err(String::from_str("slug must not contain .."));
    }
    let cs = chars(slug);
    if cs.len() == 0 {
        return Err(String::from_str("slug must not be empty"));
    }
    let first = cs[0];
    if !(('a' <= first && first <= 'z') || ('0' <= first && first <= '9')) {
        return Err(String::from_str("slug must start with a lowercase ASCII letter or digit"));
    }
    let mut i: usize = 0;
    while i < cs.len()
        invariant
            i <= cs@.len(),
            cs@ == slug@,
            forall|j: int| 0 <= j < i ==> slug_char(slug@[j]),
            !((encode_utf8(slug@).len() as usize) > 81),
            !(path_extension(slug@) matches Some(e) && eq_ignore_ascii_case(e, "md"@)),
            !contains_seq(slug@, ".."@),
            slug@.len() > 0,
            slug_start(slug@[0]),
        decreases cs@.len() - i,
    {
        let c = cs[i];
        if !(('a' <= c && c <= 'z') || ('0' <= c && c <= '9') || c == '.' || c == '_' || c == '-') {
            return Err(String::from_str("slug must match [a-z0-9][a-z0-9._-]{0,80}"));
        }
        i += 1;
    }
    Ok(())
}

/// A slug is accepted only when it is not empty, each character a lowercase
/// ASCII letter, a digit, `.`, `_` or `-`, the first a letter or a digit, with
/// no `..` in it; so any slug with an upper-case letter, a space, a `/` or
/// any other character is refused.
pub proof fn an_accepted_slug_is_lowercase_letters_digits_and_dot_underscore_dash(slug: Seq<char>)
    ensures
        slug_verdict(slug) is Ok ==> {
            &&& 0 < slug.len()
            &&& ('a' <= slug[0] && slug[0] <= 'z') || ('0' <= slug[0] && slug[0] <= '9')
            &&& forall|i: int|
                0 <= i < slug.len() ==> ('a' <= #[trigger] slug[i] && slug[i] <= 'z') || ('0' <= slug[i]
                    && slug[i] <= '9') || slug[i] == '.' || slug[i] == '_' || slug[i] == '-'
            &&& !contains_seq(slug, ".."@)
        },
        (exists|i: int| 0 <= i < slug.len() && 'A' <= #[trigger] slug[i] && slug[i] <= 'Z') ==> slug_verdict(
            slug,
        ) is Err,
{
    if slug_verdict(slug) is Ok {
        assert forall|i: int| 0 <= i < slug.len() implies ('a' <= #[trigger] slug[i] && slug[i] <= 'z') || (
        '0' <= slug[i] && slug[i] <= '9') || slug[i] == '.' || slug[i] == '_' || slug[i] == '-' by {
            assert(slug_char(slug[i]));
        }
    }
    if exists|i: int| 0 <= i < slug.len() && 'A' <= #[trigger] slug[i] && slug[i] <= 'Z' {
        let i = choose|i: int| 0 <= i < slug.len() && 'A' <= #[trigger] slug[i] && slug[i] <= 'Z';
        assert(!slug_char(slug[i]));
    }
}

/// `String::from_utf8`: the text the bytes encode when they are valid UTF-8,
/// as vstd's own UTF-8 specification decodes it.
#[verifier::external_body]
fn utf8_text(bytes: Vec<u8>) -> (r: Option<String>)
    ensures
        match r {
            Some(s) => valid_utf8(bytes@) && s@ == decode_utf8(bytes@),
            None => !valid_utf8(bytes@),
        },
{
    String::from_utf8(bytes).ok()
}

/// What a payload read from standard input has to be: at most
/// `MAX_STDIN_BYTES` bytes, UTF-8, and not only whitespace.
pub open spec fn payload_verdict(bytes: Seq<u8>) -> Result<Seq<char>, Seq<char>> {
    if bytes.len() > MAX_STDIN_BYTES {
        Err("stdin payload exceeds 256 KiB"@)
    } else if !valid_utf8(bytes) {
        Err("stdin must be UTF-8"@)
    } else if trimmed(decode_utf8(bytes)).len() == 0 {
        Err("stdin payload must not be empty"@)
    } else {
        Ok(decode_utf8(bytes))
    }
}

/// Reads the payload: `read` hands back at most the number of bytes it is
/// given, so an oversized payload is caught with one byte more than allowed.
pub fn read_payload<F: FnOnce(usize) -> Result<Vec<u8>, String>>(read: F) -> (r: Result<String, String>)
    requires
        call_requires(read, ((MAX_STDIN_BYTES + 1) as usize,)),
    ensures
        exists|got: Result<Vec<u8>, String>|
            #[trigger] call_ensures(read, ((MAX_STDIN_BYTES + 1) as usize,), got) && match got {
                Err(e) => r matches Err(t) && t@ == "failed to read stdin: "@ + e@,
                Ok(bytes) => match payload_verdict(bytes@) {
                    Ok(text) => r matches Ok(t) && t@ == text,
                    Err(m) => r matches Err(t) && t@ == m,
                },
            },
{
    let got = read(MAX_STDIN_BYTES + 1);
    let ghost gg = got;
    let r = match got {
        Err(e) => Err(cat("failed to read stdin: ", e.as_str())),
        Ok(bytes) => {
            if bytes.len() > MAX_STDIN_BYTES {
                Err(String::from_str("stdin payload exceeds 256 KiB"))
            } else {
                match utf8_text(bytes) {
                    None => Err(String::from_str("stdin must be UTF-8")),
                    Some(payload) => {
                        if trim(payload.as_str()).unicode_len() == 0 {
                            Err(String::from_str("stdin payload must not be empty"))
                        } else {
                            Ok(payload)
                        }
                    },
                }
            }
        },
    };
    assert(call_ensures(read, ((MAX_STDIN_BYTES + 1) as usize,), gg));
    r
}

/// `<root>/.codex/goals/<slug>.md`.
pub fn target_path(root: &str, slug: &str) -> (r: String)
    ensures
        r@ == join_spec(join_spec(root@, GOALS_DIR@), slug@ + ".md"@),
{
    let dir = join(root, GOALS_DIR);
    join(dir.as_str(), cat(slug, ".md").as_str())
}

/// What a written goal file has to be: a regular file, owned as expected,
/// read-only for everyone.
pub open spec fn target_verdict(mode: u32, uid: u32, gid: u32, target: Seq<char>, owner: OwnerExpectation) -> Result<
    (),
    Seq<char>,
> {
    if mode & S_IFMT != S_IFREG {
        Err("target is not a regular file: "@ + target)
    } else if match owner {
        OwnerExpectation::Root => uid != 0 || gid != 0,
        OwnerExpectation::User(id) => uid != id.uid || gid != id.gid,
    } {
        Err("target owner mismatch: "@ + target)
    } else if mode & 0o777 != 0o444 {
        Err("target mode is not 0444: "@ + target)
    } else {
        Ok(())
    }
}

/// Checks what `fstat` said of the written file.
pub fn verify_target(mode: u32, uid: u32, gid: u32, target: &str, owner: OwnerExpectation) -> (r:
    Result<(), String>)
    ensures
        match target_verdict(mode, uid, gid, target@, owner) {
            Ok(_) => r is Ok,
            Err(m) => r matches Err(t) && t@ == m,
        },
{
    if mode & S_IFMT != S_IFREG {
        return Err(cat("target is not a regular file: ", target));
    }
    let mismatch = match owner {
        OwnerExpectation::Root => uid != 0 || gid != 0,
        OwnerExpectation::User(id) => uid != id.uid || gid != id.gid,
    };
    if mismatch {
        return Err(cat("target owner mismatch: ", target));
    }
    if mode & 0o777 != 0o444 {
        return Err(cat("target mode is not 0444: ", target));
    }
    Ok(())
}

/// A uid or gid read from the environment: required, not empty, decimal.
pub fn parse_env_id(name: &str, value: Option<&str>) -> (r: Result<u32, String>)
    ensures
        match value {
            None => r matches Err(t) && t@ == name@ + " is required"@,
            Some(v) => if v@.len() == 0 {
                r matches Err(t) && t@ == name@ + " must not be empty"@
            } else {
                match crate::text::parse_u32_spec(v@) {
                    Some(n) => r == Ok::<u32, String>(n),
                    None => r matches Err(t) && t@ == name@ + " must be a decimal uid/gid"@,
                }
            },
        },
{
    match value {
        None => Err(cat(name, " is required")),
        Some(v) => {
            if v.unicode_len() == 0 {
                return Err(cat(name, " must not be empty"));
            }
            match crate::text::parse_u32(v) {
                Some(n) => Ok(n),
                None => Err(cat(name, " must be a decimal uid/gid")),
            }
        },
    }
}

/// The identity `sudo` ran the command for: the command has to run as root,
/// for a user that is not root.
pub fn sudo_identity(euid: u32, uid: Result<u32, String>, gid: Result<u32, String>) -> (r: Result<
    SudoIdentity,
    String,
>)
    ensures
        euid != 0 ==> (r matches Err(t) && t@ == "must be run as root via sudo"@),
        euid == 0 ==> match (uid, gid) {
            (Err(e), _) => r == Err::<SudoIdentity, String>(e),
            (Ok(_), Err(e)) => r == Err::<SudoIdentity, String>(e),
            (Ok(u), Ok(g)) => if u == 0 || g == 0 {
                r matches Err(t) && t@ == "SUDO_UID and SUDO_GID must identify a non-root user"@
            } else {
                r == Ok::<SudoIdentity, String>(SudoIdentity { uid: u, gid: g })
            },
        },
{
    if euid != 0 {
        return Err(String::from_str("must be run as root via sudo"));
    }
    let uid = uid?;
    let gid = gid?;
    if uid == 0 || gid == 0 {
        return Err(String::from_str("SUDO_UID and SUDO_GID must identify a non-root user"));
    }
    Ok(SudoIdentity { uid, gid })
}

/// What the command prints once the goal is written: the path relative to
/// the root, and how to use it.
pub open spec fn success_text(relative: Seq<char>) -> Seq<char> {
    "Wrote: "@ + relative + "\nProtected: immutable\n\nUsage:\n/goal "@ + relative + "\n"@
}

/// What `Path::strip_prefix` makes of a path and a base: the rest of the path
/// when the base is a prefix of its components.
pub uninterp spec fn path_rest(path: Seq<char>, base: Seq<char>) -> Option<Seq<char>>;

/// `Path::new(path).strip_prefix(base)`, displayed. Which paths count as
/// under the base is std's component rule, only named here.
#[verifier::external_body]
fn strip_path_prefix(path: &str, base: &str) -> (r: Option<String>)
    ensures
        match r {
            Some(rest) => path_rest(path@, base@) == Some(rest@),
            None => path_rest(path@, base@) is None,
        },
{
    std::path::Path::new(path).strip_prefix(base).ok().map(|rest| rest.display().to_string())
}

/// The success message for a goal written at `target` under `root`.
pub fn success_output(root: &str, target: &str) -> (r: Result<String, String>)
    ensures
        match path_rest(target@, root@) {
            Some(rest) => r matches Ok(t) && t@ == success_text(rest),
            None => r matches Err(t) && t@ == "failed to make relative output path: prefix not found"@,
        },
{
    match strip_path_prefix(target, root) {
        None => Err(String::from_str("failed to make relative output path: prefix not found")),
        Some(rest) => {
            let mut t = cat3("Wrote: ", rest.as_str(), "\nProtected: immutable\n\nUsage:\n/goal ");
            t.append(rest.as_str());
            t.append("\n");
            Ok(t)
        },
    }
}

/// What one argument did to the flags parsed so far.
pub open spec fn usage() -> Seq<char> {
    "usage: codex-goal [--root /absolute/root] --slug <slug>"@
}

/// An optional text by its view.
pub open spec fn opt_text(o: Option<String>) -> Option<Seq<char>> {
    match o {
        Some(t) => Some(t@),
        None => None,
    }
}

/// What the arguments from `i` on make of the flags read so far: the root,
/// the slug, or the refusal of the first argument that does not fit.
pub open spec fn flags_from(
    args: Seq<Option<String>>,
    i: int,
    root: Option<Seq<char>>,
    slug: Option<Seq<char>>,
) -> Result<(Option<Seq<char>>, Option<Seq<char>>), Seq<char>>
    decreases args.len() - i,
{
    if i < 0 || i >= args.len() {
        Ok((root, slug))
    } else {
        match args[i] {
            None => Err("arguments must be valid UTF-8"@),
            Some(a) => if a@ == "--root"@ {
                if i + 1 >= args.len() {
                    Err("--root requires an absolute path"@)
                } else {
                    match args[i + 1] {
                        Some(v) => if is_prefix("/"@, v@) {
                            flags_from(args, i + 2, Some(v@), slug)
                        } else {
                            Err("--root must be an absolute path"@)
                        },
                        None => Err("--root must be an absolute path"@),
                    }
                }
            } else if a@ == "--slug"@ {
                if i + 1 >= args.len() {
                    Err("--slug requires a value"@)
                } else {
                    match args[i + 1] {
                        Some(v) => match slug_verdict(v@) {
                            Ok(_) => flags_from(args, i + 2, root, Some(v@)),
                            Err(m) => Err(m),
                        },
                        None => Err("--slug must be valid UTF-8"@),
                    }
                }
            } else if a@ == "--help"@ || a@ == "-h"@ {
                Err(usage())
            } else {
                Err("unknown argument: "@ + a@)
            },
        }
    }
}

/// Reads `--root` and `--slug` out of the arguments, left to right; `None`
/// stands for an argument that is not valid UTF-8. A flag given twice keeps
/// its last value. What the root resolves to is checked by the caller.
pub fn parse_flags(args: &Vec<Option<String>>) -> (r: Result<(Option<String>, Option<String>), String>)
    ensures
        match flags_from(args@, 0, None, None) {
            Ok((root, slug)) => r matches Ok((p, s)) && opt_text(p) == root && opt_text(s) == slug,
            Err(m) => r matches Err(t) && t@ == m,
        },
{
    let mut root: Option<String> = None;
    let mut slug: Option<String> = None;
    let mut i: usize = 0;
    proof {
        reveal_strlit("--root");
        reveal_strlit("--slug");
        reveal_strlit("--help");
        reveal_strlit("-h");
        reveal_strlit("/");
    }
    while i < args.len()
        invariant
            i <= args@.len(),
            flags_from(args@, 0, None, None) == flags_from(args@, i as int, opt_text(root), opt_text(slug)),
        decreases args@.len() - i,
    {
        match &args[i] {
            None => {
                let e = String::from_str("arguments must be valid UTF-8");
                proof {
                    reveal_strlit("arguments must be valid UTF-8");
                }
                return Err(e);
            },
            Some(arg) => {
                let a = arg.as_str();
                if crate::text::str_eq(a, "--root") {
                    if i + 1 >= args.len() {
                        let e = String::from_str("--root requires an absolute path");
                        proof {
                            reveal_strlit("--root requires an absolute path");
                        }
                        return Err(e);
                    }
                    match &args[i + 1] {
                        None => {
                            let e = String::from_str("--root must be an absolute path");
                            proof {
                                reveal_strlit("--root must be an absolute path");
                            }
                            return Err(e);
                        },
                        Some(value) => {
                            if !crate::text::starts_with(value.as_str(), "/") {
                                let e = String::from_str("--root must be an absolute path");
                                proof {
                                    reveal_strlit("--root must be an absolute path");
                                }
                                return Err(e);
                            }
                            root = Some(own(value.as_str()));
                        },
                    }
                    i += 2;
                } else if crate::text::str_eq(a, "--slug") {
                    if i + 1 >= args.len() {
                        let e = String::from_str("--slug requires a value");
                        proof {
                            reveal_strlit("--slug requires a value");
                        }
                        return Err(e);
                    }
                    match &args[i + 1] {
                        None => {
                            let e = String::from_str("--slug must be valid UTF-8");
                            proof {
                                reveal_strlit("--slug must be valid UTF-8");
                            }
                            return Err(e);
                        },
                        Some(value) => {
                            match validate_slug(value.as_str()) {
                                Err(e) => return Err(e),
                                Ok(()) => {},
                            }
                            slug = Some(own(value.as_str()));
                        },
                    }
                    i += 2;
                } else if crate::text::str_eq(a, "--help") || crate::text::str_eq(a, "-h") {
                    return Err(usage_text());
                } else {
                    return Err(cat("unknown argument: ", a));
                }
            },
        }
    }
    Ok((root, slug))
}

fn usage_text() -> (r: String)
    ensures
        r@ == usage(),
{
    String::from_str("usage: codex-goal [--root /absolute/root] --slug <slug>")
}

/// The configuration once the root is known: it has to be the working
/// directory, both as the file system resolves them, and a slug is required.
pub fn config_from(root: String, cwd: &str, slug: Option<String>) -> (r: Result<Config, String>)
    ensures
        root@ != cwd@ ==> (r matches Err(t) && t@ == "--root must match the current working directory"@),
        root@ == cwd@ ==> match slug {
            Some(s) => r matches Ok(c) && c.root@ == root@ && c.slug@ == s@,
            None => r matches Err(t) && t@ == "--slug is required"@,
        },
{
    if !crate::text::str_eq(root.as_str(), cwd) {
        let e = String::from_str("--root must match the current working directory");
        proof {
            reveal_strlit("--root must match the current working directory");
        }
        return Err(e);
    }
    match slug {
        Some(slug) => Ok(Config { root, slug }),
        None => {
            let e = String::from_str("--slug is required");
            proof {
                reveal_strlit("--slug is required");
            }
            Err(e)
        },
    }
}

/// Whether what was read back from the new goal file is the payload: the
/// same bytes, and nothing after them.
pub fn payload_unchanged(read_back: &[u8], more: bool, payload: &[u8], target: &str) -> (r: Result<(), String>)
    ensures
        r is Ok <==> (!more && read_back@ == payload@),
        r matches Err(t) ==> t@ == "payload changed before immutable protection: "@ + target@,
{
    let mut same = read_back.len() == payload.len();
    let mut i: usize = 0;
    while same && i < payload.len()
        invariant
            i <= payload@.len(),
            same ==> read_back@.len() == payload@.len(),
            same ==> forall|j: int| 0 <= j < i ==> read_back@[j] == payload@[j],
            !same ==> read_back@ != payload@,
        decreases payload@.len() - i,
    {
        if read_back[i] != payload[i] {
            same = false;
        }
        i += 1;
    }
    if same {
        assert(read_back@ =~= payload@);
    }
    if more || !same {
        return Err(cat("payload changed before immutable protection: ", target));
    }
    Ok(())
}

/// A directory the invoking user has to own.
pub fn owned_by_user(uid: u32, gid: u32, identity: SudoIdentity, label: &str) -> (r: Result<(), String>)
    ensures
        r is Ok <==> (uid == identity.uid && gid == identity.gid),
        r matches Err(t) ==> t@ == label@ + " must be owned by the invoking user"@,
{
    if uid != identity.uid || gid != identity.gid {
        return Err(cat(label, " must be owned by the invoking user"));
    }
    Ok(())
}

/// A directory either the invoking user or root may own.
pub fn owned_by_user_or_root(uid: u32, gid: u32, identity: SudoIdentity, label: &str) -> (r: Result<(), String>)
    ensures
        r is Ok <==> ((uid == identity.uid && gid == identity.gid) || (uid == 0 && gid == 0)),
        r matches Err(t) ==> t@ == label@ + " must be owned by root or the invoking user"@,
{
    let user_owned = uid == identity.uid && gid == identity.gid;
    let root_owned = uid == 0 && gid == 0;
    if !user_owned && !root_owned {
        return Err(cat(label, " must be owned by root or the invoking user"));
    }
    Ok(())
}

/// The root has to be a real directory, not a link to one.
pub fn real_directory(is_symlink: bool, is_dir: bool, label: &str, path: &str) -> (r: Result<(), String>)
    ensures
        r is Ok <==> (!is_symlink && is_dir),
        is_symlink ==> (r matches Err(t) && t@ == label@ + " must not be a symlink: "@ + path@),
        !is_symlink && !is_dir ==> (r matches Err(t) && t@ == label@ + " must be a directory: "@ + path@),
{
    if is_symlink {
        return Err(cat3(label, " must not be a symlink: ", path));
    }
    if !is_dir {
        return Err(cat3(label, " must be a directory: ", path));
    }
    Ok(())
}

/// A path reopened has to be the very file or directory already held open.
pub fn still_resolves(held: (u64, u64), reopened: (u64, u64), label: &str) -> (r: Result<(), String>)
    ensures
        r is Ok <==> held == reopened,
        r matches Err(t) ==> t@ == label@ + " changed while codex-goal was running"@,
{
    if held.0 != reopened.0 || held.1 != reopened.1 {
        return Err(cat(label, " changed while codex-goal was running"));
    }
    Ok(())
}

} // verus!
