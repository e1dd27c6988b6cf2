//! Keyboard input via the `sendshortcut` dispatcher: key chords, the US
//! character table, and how a chord addresses its window.
use vstd::prelude::*;

use crate::error::Error;
use crate::hypr::{Client, Ctl, ProcessOutput, clients_on, queried};
use crate::isolated::{LiveInstance, live_instance, live_instance_spec, recorded_window};
use crate::session::Isolated;
use crate::text::{cat, chars, contains, contains_seq, dec, fmt_u64, own, push_char, slice, str_eq};

verus! {

#[derive(Debug, Clone, Copy, PartialEq, Eq, Structural, PartialOrd, Ord)]
pub enum Modifier {
    Ctrl,
    Shift,
    Alt,
    Super,
}

/// How Hyprland spells a modifier.
pub open spec fn hypr_name_spec(m: Modifier) -> Seq<char> {
    match m {
        Modifier::Ctrl => "CTRL"@,
        Modifier::Shift => "SHIFT"@,
        Modifier::Alt => "ALT"@,
        Modifier::Super => "SUPER"@,
    }
}

/// ASCII letters lowered, everything else kept.
pub open spec fn ascii_lower(s: Seq<char>) -> Seq<char> {
    s.map_values(|c: char| lower_char(c))
}

pub open spec fn lower_char(c: char) -> char {
    if 'A' <= c && c <= 'Z' {
        ((c as u32) + 32) as char
    } else {
        c
    }
}

/// The modifier a chord part names, case-insensitively.
pub open spec fn modifier_spec(raw: Seq<char>) -> Option<Modifier> {
    let l = ascii_lower(raw);
    if l == "ctrl"@ || l == "control"@ {
        Some(Modifier::Ctrl)
    } else if l == "shift"@ {
        Some(Modifier::Shift)
    } else if l == "alt"@ {
        Some(Modifier::Alt)
    } else if l == "super"@ || l == "meta"@ || l == "win"@ {
        Some(Modifier::Super)
    } else {
        None
    }
}

fn lower(c: char) -> (r: char)
    ensures
        r == lower_char(c),
{
    if 'A' <= c && c <= 'Z' {
        ((c as u8) + 32) as char
    } else {
        c
    }
}

/// Whether `raw`, lowered, is exactly the lower-case ASCII word `word`.
fn lower_eq(raw: &[char], word: &str) -> (r: bool)
    ensures
        r == (ascii_lower(raw@) == word@),
{
    let w = chars(word);
    if raw.len() != w.len() {
        return false;
    }
    let mut i: usize = 0;
    while i < raw.len()
        invariant
            raw@.len() == w@.len(),
            w@ == word@,
            i <= raw@.len(),
            forall|j: int| 0 <= j < i ==> lower_char(raw@[j]) == w@[j],
        decreases raw@.len() - i,
    {
        if lower(raw[i]) != w[i] {
            assert(ascii_lower(raw@)[i as int] != word@[i as int]);
            return false;
        }
        i += 1;
    }
    assert(ascii_lower(raw@) =~= word@);
    true
}

impl Modifier {
    pub fn hypr_name(self) -> (r: &'static str)
        ensures
            r@ == hypr_name_spec(self),
    {
        match self {
            Modifier::Ctrl => "CTRL",
            Modifier::Shift => "SHIFT",
            Modifier::Alt => "ALT",
            Modifier::Super => "SUPER",
        }
    }

    /// The modifier a chord part names: `ctrl`/`control`, `shift`, `alt`,
    /// `super`/`meta`/`win`, in any case.
    pub fn parse(raw: &[char]) -> (r: Option<Modifier>)
        ensures
            r == modifier_spec(raw@),
    {
        if lower_eq(raw, "ctrl") || lower_eq(raw, "control") {
            Some(Modifier::Ctrl)
        } else if lower_eq(raw, "shift") {
            Some(Modifier::Shift)
        } else if lower_eq(raw, "alt") {
            Some(Modifier::Alt)
        } else if lower_eq(raw, "super") || lower_eq(raw, "meta") || lower_eq(raw, "win") {
            Some(Modifier::Super)
        } else {
            None
        }
    }
}

#[derive(Debug, PartialEq, Eq)]
pub struct Chord {
    pub mods: Vec<Modifier>,
    pub keysym: String,
}

impl Chord {
    pub open spec fn view_keysym(&self) -> Seq<char> {
        self.keysym@
    }
}

/// A set of modifiers in their canonical order, each once.
pub open spec fn canonical(set: Set<Modifier>) -> Seq<Modifier> {
    let a = if set.contains(Modifier::Ctrl) { seq![Modifier::Ctrl] } else { Seq::empty() };
    let b = if set.contains(Modifier::Shift) { seq![Modifier::Shift] } else { Seq::empty() };
    let c = if set.contains(Modifier::Alt) { seq![Modifier::Alt] } else { Seq::empty() };
    let d = if set.contains(Modifier::Super) { seq![Modifier::Super] } else { Seq::empty() };
    a + b + c + d
}

/// Hyprland's modifier text: the names in alphabetical order, each once,
/// separated by spaces.
pub open spec fn mods_text(mods: Seq<Modifier>) -> Seq<char> {
    let names = (if mods.contains(Modifier::Alt) { seq!["ALT"@] } else { Seq::empty() }) + (
    if mods.contains(Modifier::Ctrl) { seq!["CTRL"@] } else { Seq::empty() }) + (
    if mods.contains(Modifier::Shift) { seq!["SHIFT"@] } else { Seq::empty() }) + (
    if mods.contains(Modifier::Super) { seq!["SUPER"@] } else { Seq::empty() });
    crate::hypr::joined(names)
}

fn has_mod(mods: &[Modifier], m: Modifier) -> (r: bool)
    ensures
        r == mods@.contains(m),
{
    let mut i: usize = 0;
    while i < mods.len()
        invariant
            i <= mods@.len(),
            forall|j: int| 0 <= j < i ==> mods@[j] != m,
        decreases mods@.len() - i,
    {
        if mods[i] == m {
            return true;
        }
        i += 1;
    }
    false
}

impl Chord {
    /// The modifier field of `sendshortcut`.
    pub fn mods_string(&self) -> (r: String)
        ensures
            r@ == mods_text(self.mods@),
    {
        let mut names: Vec<&str> = Vec::new();
        let ghost g0 = names@;
        if has_mod(self.mods.as_slice(), Modifier::Alt) {
            names.push("ALT");
        }
        if has_mod(self.mods.as_slice(), Modifier::Ctrl) {
            names.push("CTRL");
        }
        if has_mod(self.mods.as_slice(), Modifier::Shift) {
            names.push("SHIFT");
        }
        if has_mod(self.mods.as_slice(), Modifier::Super) {
            names.push("SUPER");
        }
        let r = crate::hypr::join_words(names.as_slice());
        proof {
            let m = self.mods@;
            let expect = (if m.contains(Modifier::Alt) { seq!["ALT"@] } else { Seq::empty() }) + (
            if m.contains(Modifier::Ctrl) { seq!["CTRL"@] } else { Seq::empty() }) + (
            if m.contains(Modifier::Shift) { seq!["SHIFT"@] } else { Seq::empty() }) + (
            if m.contains(Modifier::Super) { seq!["SUPER"@] } else { Seq::empty() });
            assert(crate::hypr::views(names@) =~= expect);
        }
        r
    }
}

/// The keysym a letter or digit sends: itself, lowered.
fn alnum_keysym(c: char) -> (r: &'static str)
    requires
        ('a' <= c && c <= 'z') || ('0' <= c && c <= '9'),
    ensures
        r@ == seq![c],
{
    match c {
        'a' => { proof { reveal_strlit("a"); } "a" },
        'b' => { proof { reveal_strlit("b"); } "b" },
        'c' => { proof { reveal_strlit("c"); } "c" },
        'd' => { proof { reveal_strlit("d"); } "d" },
        'e' => { proof { reveal_strlit("e"); } "e" },
        'f' => { proof { reveal_strlit("f"); } "f" },
        'g' => { proof { reveal_strlit("g"); } "g" },
        'h' => { proof { reveal_strlit("h"); } "h" },
        'i' => { proof { reveal_strlit("i"); } "i" },
        'j' => { proof { reveal_strlit("j"); } "j" },
        'k' => { proof { reveal_strlit("k"); } "k" },
        'l' => { proof { reveal_strlit("l"); } "l" },
        'm' => { proof { reveal_strlit("m"); } "m" },
        'n' => { proof { reveal_strlit("n"); } "n" },
        'o' => { proof { reveal_strlit("o"); } "o" },
        'p' => { proof { reveal_strlit("p"); } "p" },
        'q' => { proof { reveal_strlit("q"); } "q" },
        'r' => { proof { reveal_strlit("r"); } "r" },
        's' => { proof { reveal_strlit("s"); } "s" },
        't' => { proof { reveal_strlit("t"); } "t" },
        'u' => { proof { reveal_strlit("u"); } "u" },
        'v' => { proof { reveal_strlit("v"); } "v" },
        'w' => { proof { reveal_strlit("w"); } "w" },
        'x' => { proof { reveal_strlit("x"); } "x" },
        'y' => { proof { reveal_strlit("y"); } "y" },
        'z' => { proof { reveal_strlit("z"); } "z" },
        '0' => { proof { reveal_strlit("0"); } "0" },
        '1' => { proof { reveal_strlit("1"); } "1" },
        '2' => { proof { reveal_strlit("2"); } "2" },
        '3' => { proof { reveal_strlit("3"); } "3" },
        '4' => { proof { reveal_strlit("4"); } "4" },
        '5' => { proof { reveal_strlit("5"); } "5" },
        '6' => { proof { reveal_strlit("6"); } "6" },
        '7' => { proof { reveal_strlit("7"); } "7" },
        '8' => { proof { reveal_strlit("8"); } "8" },
        _ => { proof { reveal_strlit("9"); } "9" },
    }
}

/// The US punctuation, whitespace and French accents the table knows, with
/// whether each needs `SHIFT` and the keysym it is sent as.
pub open spec fn symbol_spec(c: char) -> Option<(bool, Seq<char>)> {
    if c == ' ' { Some((false, "space"@)) }
    else if c == '\n' { Some((false, "Return"@)) }
    else if c == '\t' { Some((false, "Tab"@)) }
    else if c == '-' { Some((false, "minus"@)) }
    else if c == '=' { Some((false, "equal"@)) }
    else if c == '[' { Some((false, "bracketleft"@)) }
    else if c == ']' { Some((false, "bracketright"@)) }
    else if c == '\\' { Some((false, "backslash"@)) }
    else if c == ';' { Some((false, "semicolon"@)) }
    else if c == '\'' { Some((false, "apostrophe"@)) }
    else if c == '`' { Some((false, "grave"@)) }
    else if c == ',' { Some((false, "comma"@)) }
    else if c == '.' { Some((false, "period"@)) }
    else if c == '/' { Some((false, "slash"@)) }
    else if c == '!' { Some((true, "1"@)) }
    else if c == '@' { Some((true, "2"@)) }
    else if c == '#' { Some((true, "3"@)) }
    else if c == '$' { Some((true, "4"@)) }
    else if c == '%' { Some((true, "5"@)) }
    else if c == '^' { Some((true, "6"@)) }
    else if c == '&' { Some((true, "7"@)) }
    else if c == '*' { Some((true, "8"@)) }
    else if c == '(' { Some((true, "9"@)) }
    else if c == ')' { Some((true, "0"@)) }
    else if c == '_' { Some((true, "minus"@)) }
    else if c == '+' { Some((true, "equal"@)) }
    else if c == '{' { Some((true, "bracketleft"@)) }
    else if c == '}' { Some((true, "bracketright"@)) }
    else if c == '|' { Some((true, "backslash"@)) }
    else if c == ':' { Some((true, "semicolon"@)) }
    else if c == '"' { Some((true, "apostrophe"@)) }
    else if c == '~' { Some((true, "grave"@)) }
    else if c == '<' { Some((true, "comma"@)) }
    else if c == '>' { Some((true, "period"@)) }
    else if c == '?' { Some((true, "slash"@)) }
    else if c == 'é' { Some((false, "eacute"@)) }
    else if c == 'è' { Some((false, "egrave"@)) }
    else if c == 'ê' { Some((false, "ecircumflex"@)) }
    else if c == 'ë' { Some((false, "ediaeresis"@)) }
    else if c == 'à' { Some((false, "agrave"@)) }
    else if c == 'â' { Some((false, "acircumflex"@)) }
    else if c == 'î' { Some((false, "icircumflex"@)) }
    else if c == 'ï' { Some((false, "idiaeresis"@)) }
    else if c == 'ô' { Some((false, "ocircumflex"@)) }
    else if c == 'ù' { Some((false, "ugrave"@)) }
    else if c == 'û' { Some((false, "ucircumflex"@)) }
    else if c == 'ü' { Some((false, "udiaeresis"@)) }
    else if c == 'ç' { Some((false, "ccedilla"@)) }
    else if c == 'œ' { Some((false, "oe"@)) }
    else { None }
}

/// `(needs_shift, keysym)` of a character under a US keymap: a letter is sent
/// as its lower case, with `SHIFT` when it was upper case; a digit as itself;
/// the rest as the table says.
pub open spec fn keysym_spec(c: char) -> Option<(bool, Seq<char>)> {
    if 'a' <= c && c <= 'z' {
        Some((false, seq![c]))
    } else if 'A' <= c && c <= 'Z' {
        Some((true, seq![lower_char(c)]))
    } else if '0' <= c && c <= '9' {
        Some((false, seq![c]))
    } else {
        symbol_spec(c)
    }
}

fn symbol(c: char) -> (r: Option<(bool, &'static str)>)
    ensures
        match (r, symbol_spec(c)) {
            (Some((s, k)), Some((ss, sk))) => s == ss && k@ == sk,
            (None, None) => true,
            _ => false,
        },
{
    match c {
        ' ' => Some((false, "space")),
        '\n' => Some((false, "Return")),
        '\t' => Some((false, "Tab")),
        '-' => Some((false, "minus")),
        '=' => Some((false, "equal")),
        '[' => Some((false, "bracketleft")),
        ']' => Some((false, "bracketright")),
        '\\' => Some((false, "backslash")),
        ';' => Some((false, "semicolon")),
        '\'' => Some((false, "apostrophe")),
        '`' => Some((false, "grave")),
        ',' => Some((false, "comma")),
        '.' => Some((false, "period")),
        '/' => Some((false, "slash")),
        '!' => Some((true, "1")),
        '@' => Some((true, "2")),
        '#' => Some((true, "3")),
        '$' => Some((true, "4")),
        '%' => Some((true, "5")),
        '^' => Some((true, "6")),
        '&' => Some((true, "7")),
        '*' => Some((true, "8")),
        '(' => Some((true, "9")),
        ')' => Some((true, "0")),
        '_' => Some((true, "minus")),
        '+' => Some((true, "equal")),
        '{' => Some((true, "bracketleft")),
        '}' => Some((true, "bracketright")),
        '|' => Some((true, "backslash")),
        ':' => Some((true, "semicolon")),
        '"' => Some((true, "apostrophe")),
        '~' => Some((true, "grave")),
        '<' => Some((true, "comma")),
        '>' => Some((true, "period")),
        '?' => Some((true, "slash")),
        'é' => Some((false, "eacute")),
        'è' => Some((false, "egrave")),
        'ê' => Some((false, "ecircumflex")),
        'ë' => Some((false, "ediaeresis")),
        'à' => Some((false, "agrave")),
        'â' => Some((false, "acircumflex")),
        'î' => Some((false, "icircumflex")),
        'ï' => Some((false, "idiaeresis")),
        'ô' => Some((false, "ocircumflex")),
        'ù' => Some((false, "ugrave")),
        'û' => Some((false, "ucircumflex")),
        'ü' => Some((false, "udiaeresis")),
        'ç' => Some((false, "ccedilla")),
        'œ' => Some((false, "oe")),
        _ => None,
    }
}

/// The character a keystroke types under a US keymap: the key named
/// `sym`, with `SHIFT` or without. A letter key types its lower case, or
/// its upper case with `SHIFT`; a digit key types the digit, or the symbol
/// above it with `SHIFT`; every other key types the character its XKB name
/// names.
pub open spec fn typed_char(shift: bool, sym: Seq<char>) -> Option<char> {
    if sym.len() == 1 && 'a' <= sym[0] && sym[0] <= 'z' {
        if shift { Some(((sym[0] as u32) - 32) as char) } else { Some(sym[0]) }
    } else if sym.len() == 1 && '0' <= sym[0] && sym[0] <= '9' {
        if !shift { Some(sym[0]) }
        else if sym[0] == '1' { Some('!') }
        else if sym[0] == '2' { Some('@') }
        else if sym[0] == '3' { Some('#') }
        else if sym[0] == '4' { Some('$') }
        else if sym[0] == '5' { Some('%') }
        else if sym[0] == '6' { Some('^') }
        else if sym[0] == '7' { Some('&') }
        else if sym[0] == '8' { Some('*') }
        else if sym[0] == '9' { Some('(') }
        else if sym[0] == '0' { Some(')') }
        else { None }
    } else if sym == "minus"@ {
        if shift { Some('_') } else { Some('-') }
    } else if sym == "equal"@ {
        if shift { Some('+') } else { Some('=') }
    } else if sym == "bracketleft"@ {
        if shift { Some('{') } else { Some('[') }
    } else if sym == "bracketright"@ {
        if shift { Some('}') } else { Some(']') }
    } else if sym == "backslash"@ {
        if shift { Some('|') } else { Some('\\') }
    } else if sym == "semicolon"@ {
        if shift { Some(':') } else { Some(';') }
    } else if sym == "apostrophe"@ {
        if shift { Some('"') } else { Some('\'') }
    } else if sym == "grave"@ {
        if shift { Some('~') } else { Some('`') }
    } else if sym == "comma"@ {
        if shift { Some('<') } else { Some(',') }
    } else if sym == "period"@ {
        if shift { Some('>') } else { Some('.') }
    } else if sym == "slash"@ {
        if shift { Some('?') } else { Some('/') }
    } else if sym == "space"@ {
        if shift { None } else { Some(' ') }
    } else if sym == "Return"@ {
        if shift { None } else { Some('\n') }
    } else if sym == "Tab"@ {
        if shift { None } else { Some('\t') }
    } else if sym == "eacute"@ {
        if shift { None } else { Some('é') }
    } else if sym == "egrave"@ {
        if shift { None } else { Some('è') }
    } else if sym == "ecircumflex"@ {
        if shift { None } else { Some('ê') }
    } else if sym == "ediaeresis"@ {
        if shift { None } else { Some('ë') }
    } else if sym == "agrave"@ {
        if shift { None } else { Some('à') }
    } else if sym == "acircumflex"@ {
        if shift { None } else { Some('â') }
    } else if sym == "icircumflex"@ {
        if shift { None } else { Some('î') }
    } else if sym == "idiaeresis"@ {
        if shift { None } else { Some('ï') }
    } else if sym == "ocircumflex"@ {
        if shift { None } else { Some('ô') }
    } else if sym == "ugrave"@ {
        if shift { None } else { Some('ù') }
    } else if sym == "ucircumflex"@ {
        if shift { None } else { Some('û') }
    } else if sym == "udiaeresis"@ {
        if shift { None } else { Some('ü') }
    } else if sym == "ccedilla"@ {
        if shift { None } else { Some('ç') }
    } else if sym == "oe"@ {
        if shift { None } else { Some('œ') }
    } else {
        None
    }
}

proof fn lemma_keystroke_types_the_character(c: char)
    ensures
        keysym_spec(c) matches Some((shift, sym)) ==> typed_char(shift, sym) == Some(c),
{
    if 'a' <= c && c <= 'z' {
        let sym = seq![c];
        assert(sym.len() == 1 && sym[0] == c);
        assert(keysym_spec(c) == Some((false, sym)));
        assert(typed_char(false, sym) == Some(c));
    } else if 'A' <= c && c <= 'Z' {
        let l = lower_char(c);
        let sym = seq![l];
        assert(sym.len() == 1 && sym[0] == l);
        assert(l as u32 == c as u32 + 32);
        assert(((l as u32) - 32) as char == c);
        assert(keysym_spec(c) == Some((true, sym)));
        assert(typed_char(true, sym) == Some(c));
    } else if '0' <= c && c <= '9' {
        let sym = seq![c];
        assert(sym.len() == 1 && sym[0] == c);
        assert(keysym_spec(c) == Some((false, sym)));
        assert(typed_char(false, sym) == Some(c));
    } else {
    reveal_strlit("space");
    reveal_strlit("Return");
    reveal_strlit("Tab");
    reveal_strlit("minus");
    reveal_strlit("equal");
    reveal_strlit("bracketleft");
    reveal_strlit("bracketright");
    reveal_strlit("backslash");
    reveal_strlit("semicolon");
    reveal_strlit("apostrophe");
    reveal_strlit("grave");
    reveal_strlit("comma");
    reveal_strlit("period");
    reveal_strlit("slash");
    reveal_strlit("1");
    reveal_strlit("2");
    reveal_strlit("3");
    reveal_strlit("4");
    reveal_strlit("5");
    reveal_strlit("6");
    reveal_strlit("7");
    reveal_strlit("8");
    reveal_strlit("9");
    reveal_strlit("0");
    reveal_strlit("eacute");
    reveal_strlit("egrave");
    reveal_strlit("ecircumflex");
    reveal_strlit("ediaeresis");
    reveal_strlit("agrave");
    reveal_strlit("acircumflex");
    reveal_strlit("icircumflex");
    reveal_strlit("idiaeresis");
    reveal_strlit("ocircumflex");
    reveal_strlit("ugrave");
    reveal_strlit("ucircumflex");
    reveal_strlit("udiaeresis");
    reveal_strlit("ccedilla");
    reveal_strlit("oe");
    assert(keysym_spec(c) == symbol_spec(c));
    if c == ' ' {
        assert("space"@[1] != "slash"@[1]);
        assert(typed_char(false, "space"@) == Some(' '));
    } else if c == '\n' {
        assert(typed_char(false, "Return"@) == Some('\n'));
    } else if c == '\t' {
        assert(typed_char(false, "Tab"@) == Some('\t'));
    } else if c == '-' {
        assert(typed_char(false, "minus"@) == Some('-'));
    } else if c == '=' {
        assert(typed_char(false, "equal"@) == Some('='));
    } else if c == '[' {
        assert(typed_char(false, "bracketleft"@) == Some('['));
    } else if c == ']' {
        assert(typed_char(false, "bracketright"@) == Some(']'));
    } else if c == '\\' {
        assert(typed_char(false, "backslash"@) == Some('\\'));
    } else if c == ';' {
        assert(typed_char(false, "semicolon"@) == Some(';'));
    } else if c == '\'' {
        assert(typed_char(false, "apostrophe"@) == Some('\''));
    } else if c == '`' {
        assert(typed_char(false, "grave"@) == Some('`'));
    } else if c == ',' {
        assert(typed_char(false, "comma"@) == Some(','));
    } else if c == '.' {
        assert(typed_char(false, "period"@) == Some('.'));
    } else if c == '/' {
        assert(typed_char(false, "slash"@) == Some('/'));
    } else if c == '!' {
        assert(typed_char(true, "1"@) == Some('!'));
    } else if c == '@' {
        assert(typed_char(true, "2"@) == Some('@'));
    } else if c == '#' {
        assert(typed_char(true, "3"@) == Some('#'));
    } else if c == '$' {
        assert(typed_char(true, "4"@) == Some('$'));
    } else if c == '%' {
        assert(typed_char(true, "5"@) == Some('%'));
    } else if c == '^' {
        assert(typed_char(true, "6"@) == Some('^'));
    } else if c == '&' {
        assert(typed_char(true, "7"@) == Some('&'));
    } else if c == '*' {
        assert(typed_char(true, "8"@) == Some('*'));
    } else if c == '(' {
        assert(typed_char(true, "9"@) == Some('('));
    } else if c == ')' {
        assert(typed_char(true, "0"@) == Some(')'));
    } else if c == '_' {
        assert(typed_char(true, "minus"@) == Some('_'));
    } else if c == '+' {
        assert(typed_char(true, "equal"@) == Some('+'));
    } else if c == '{' {
        assert(typed_char(true, "bracketleft"@) == Some('{'));
    } else if c == '}' {
        assert(typed_char(true, "bracketright"@) == Some('}'));
    } else if c == '|' {
        assert(typed_char(true, "backslash"@) == Some('|'));
    } else if c == ':' {
        assert(typed_char(true, "semicolon"@) == Some(':'));
    } else if c == '"' {
        assert(typed_char(true, "apostrophe"@) == Some('"'));
    } else if c == '~' {
        assert(typed_char(true, "grave"@) == Some('~'));
    } else if c == '<' {
        assert(typed_char(true, "comma"@) == Some('<'));
    } else if c == '>' {
        assert(typed_char(true, "period"@) == Some('>'));
    } else if c == '?' {
        assert(typed_char(true, "slash"@) == Some('?'));
    } else if c == 'é' {
        assert(typed_char(false, "eacute"@) == Some('é'));
    } else if c == 'è' {
        assert("egrave"@[1] != "eacute"@[1]);
        assert(typed_char(false, "egrave"@) == Some('è'));
    } else if c == 'ê' {
        assert(typed_char(false, "ecircumflex"@) == Some('ê'));
    } else if c == 'ë' {
        assert(typed_char(false, "ediaeresis"@) == Some('ë'));
    } else if c == 'à' {
        assert(typed_char(false, "agrave"@) == Some('à'));
    } else if c == 'â' {
        assert(typed_char(false, "acircumflex"@) == Some('â'));
    } else if c == 'î' {
        assert(typed_char(false, "icircumflex"@) == Some('î'));
    } else if c == 'ï' {
        assert(typed_char(false, "idiaeresis"@) == Some('ï'));
    } else if c == 'ô' {
        assert(typed_char(false, "ocircumflex"@) == Some('ô'));
    } else if c == 'ù' {
        assert(typed_char(false, "ugrave"@) == Some('ù'));
    } else if c == 'û' {
        assert(typed_char(false, "ucircumflex"@) == Some('û'));
    } else if c == 'ü' {
        assert(typed_char(false, "udiaeresis"@) == Some('ü'));
    } else if c == 'ç' {
        assert(typed_char(false, "ccedilla"@) == Some('ç'));
    } else if c == 'œ' {
        assert(typed_char(false, "oe"@) == Some('œ'));
    }
    }
}

/// Each character the table knows is sent as a keystroke that types that
/// very character back, so no two characters share a keystroke: `,` goes
/// out as the `comma` key and `.` as the `period` key, `A` as `a` with
/// `SHIFT`, `!` as `1` with `SHIFT`.
pub proof fn every_character_is_sent_as_the_key_that_types_it(a: char, b: char)
    ensures
        keysym_spec(a) matches Some((shift, sym)) ==> typed_char(shift, sym) == Some(a),
        keysym_spec(a) is Some && keysym_spec(a) == keysym_spec(b) ==> a == b,
{
    lemma_keystroke_types_the_character(a);
    lemma_keystroke_types_the_character(b);
}

/// Maps a character to `(needs_shift, keysym)` under a US keymap.
pub fn char_to_keysym(c: char) -> (r: Result<(bool, &'static str), Error>)
    ensures
        match (r, keysym_spec(c)) {
            (Ok((s, k)), Some((ss, sk))) => s == ss && k@ == sk,
            (Err(e), None) => e == Error::UnmappedChar(c),
            _ => false,
        },
{
    if 'a' <= c && c <= 'z' {
        Ok((false, alnum_keysym(c)))
    } else if 'A' <= c && c <= 'Z' {
        Ok((true, alnum_keysym(lower(c))))
    } else if '0' <= c && c <= '9' {
        Ok((false, alnum_keysym(c)))
    } else {
        match symbol(c) {
            Some(m) => Ok(m),
            None => Err(Error::UnmappedChar(c)),
        }
    }
}

/// The parts of `s` between the occurrences of `c`; always at least one.
pub open spec fn split_spec(s: Seq<char>, c: char) -> Seq<Seq<char>>
    decreases s.len(),
{
    if s.len() == 0 {
        seq![Seq::empty()]
    } else {
        let rest = split_spec(s.drop_last(), c);
        if s.last() == c {
            rest.push(Seq::empty())
        } else {
            rest.update(rest.len() - 1, rest.last().push(s.last()))
        }
    }
}

proof fn lemma_split_nonempty(s: Seq<char>, c: char)
    ensures
        split_spec(s, c).len() >= 1,
    decreases s.len(),
{
    if s.len() > 0 {
        lemma_split_nonempty(s.drop_last(), c);
    }
}

/// `str::split` on a character.
pub fn split_char(s: &[char], c: char) -> (r: Vec<Vec<char>>)
    ensures
        r@.len() == split_spec(s@, c).len(),
        forall|i: int| 0 <= i < r@.len() ==> #[trigger] r@[i]@ == split_spec(s@, c)[i],
{
    let mut parts: Vec<Vec<char>> = Vec::new();
    let mut cur: Vec<char> = Vec::new();
    let mut i: usize = 0;
    while i < s.len()
        invariant
            i <= s@.len(),
            parts@.len() + 1 == split_spec(s@.subrange(0, i as int), c).len(),
            forall|k: int|
                0 <= k < parts@.len() ==> #[trigger] parts@[k]@ == split_spec(
                    s@.subrange(0, i as int),
                    c,
                )[k],
            cur@ == split_spec(s@.subrange(0, i as int), c).last(),
        decreases s@.len() - i,
    {
        let ghost pre = s@.subrange(0, i as int);
        assert(s@.subrange(0, i + 1).drop_last() =~= pre);
        proof {
            lemma_split_nonempty(pre, c);
        }
        if s[i] == c {
            let done = cur;
            parts.push(done);
            cur = Vec::new();
        } else {
            cur.push(s[i]);
        }
        i += 1;
    }
    parts.push(cur);
    assert(s@.subrange(0, s@.len() as int) =~= s@);
    r_fix(parts, s, c)
}

fn r_fix(parts: Vec<Vec<char>>, s: &[char], c: char) -> (r: Vec<Vec<char>>)
    requires
        parts@.len() == split_spec(s@, c).len(),
        forall|i: int| 0 <= i < parts@.len() ==> #[trigger] parts@[i]@ == split_spec(s@, c)[i],
    ensures
        r@ == parts@,
{
    parts
}

/// What `parse_chord` decides: the modifiers given and the keysym, or the
/// error it refuses with.
pub open spec fn chord_spec(raw: Seq<char>) -> Result<(Set<Modifier>, Seq<char>), Error> {
    let parts = split_spec(raw, '+');
    let key = parts.last();
    let mods = parts.drop_last();
    if exists|i: int| 0 <= i < mods.len() && modifier_spec(#[trigger] mods[i]) is None {
        Err(Error::InvalidChord(arbitrary()))
    } else {
        let given = Set::new(|m: Modifier| exists|i: int| 0 <= i < mods.len() && modifier_spec(#[trigger] mods[i]) == Some(m));
        if key.len() == 0 {
            Err(Error::InvalidChord(arbitrary()))
        } else if key.len() == 1 {
            match keysym_spec(key[0]) {
                Some((shift, sym)) => Ok((if shift { given.insert(Modifier::Shift) } else { given }, sym)),
                None => Err(Error::UnmappedChar(key[0])),
            }
        } else {
            Ok((given, key))
        }
    }
}

/// The modifiers of `mods` as a set.
pub open spec fn mod_set(mods: Seq<Modifier>) -> Set<Modifier> {
    Set::new(|m: Modifier| mods.contains(m))
}

/// Sorts and dedups a modifier list into canonical order.
fn canonicalize(mods: &Vec<Modifier>) -> (r: Vec<Modifier>)
    ensures
        r@ == canonical(mod_set(mods@)),
{
    let mut r: Vec<Modifier> = Vec::new();
    if has_mod(mods.as_slice(), Modifier::Ctrl) {
        r.push(Modifier::Ctrl);
    }
    if has_mod(mods.as_slice(), Modifier::Shift) {
        r.push(Modifier::Shift);
    }
    if has_mod(mods.as_slice(), Modifier::Alt) {
        r.push(Modifier::Alt);
    }
    if has_mod(mods.as_slice(), Modifier::Super) {
        r.push(Modifier::Super);
    }
    assert(r@ =~= canonical(mod_set(mods@)));
    r
}

/// Parses `Ctrl+Shift+a`, `Down`, `F5`, `!`… Single characters go through the
/// character table; longer key parts are passed to Hyprland verbatim as XKB
/// keysym names. Modifiers come out in canonical order, each once.
pub fn parse_chord(raw: &str) -> (r: Result<Chord, Error>)
    ensures
        match (r, chord_spec(raw@)) {
            (Ok(chord), Ok((set, sym))) => chord.mods@ == canonical(set) && chord.keysym@ == sym,
            (Err(Error::InvalidChord(text)), Err(Error::InvalidChord(_))) => text@ == raw@,
            (Err(e), Err(Error::UnmappedChar(c))) => e == Error::UnmappedChar(c),
            _ => false,
        },
{
    let rv = chars(raw);
    let parts = split_char(rv.as_slice(), '+');
    proof {
        lemma_split_nonempty(raw@, '+');
    }
    let n = parts.len();
    let ghost sp = split_spec(raw@, '+');
    let ghost mods_spec = sp.drop_last();
    let mut mods: Vec<Modifier> = Vec::new();
    let mut i: usize = 0;
    while i + 1 < n
        invariant
            n == parts@.len(),
            n == sp.len(),
            n >= 1,
            sp == split_spec(raw@, '+'),
            mods_spec == sp.drop_last(),
            forall|k: int| 0 <= k < parts@.len() ==> #[trigger] parts@[k]@ == sp[k],
            i + 1 <= n,
            mods@.len() == i,
            forall|k: int| 0 <= k < i ==> modifier_spec(#[trigger] mods_spec[k]) == Some(mods@[k]),
        decreases n - i,
    {
        assert(parts@[i as int]@ == mods_spec[i as int]);
        match Modifier::parse(parts[i].as_slice()) {
            Some(m) => mods.push(m),
            None => {
                return Err(Error::InvalidChord(own(raw)));
            },
        }
        i += 1;
    }
    let ghost given = Set::new(|m: Modifier| exists|k: int| 0 <= k < mods_spec.len() && modifier_spec(#[trigger] mods_spec[k]) == Some(m));
    assert(mod_set(mods@) =~= given) by {
        assert forall|m: Modifier| mod_set(mods@).contains(m) <==> given.contains(m) by {
            if mods@.contains(m) {
                let k = choose|k: int| 0 <= k < mods@.len() && mods@[k] == m;
                assert(modifier_spec(mods_spec[k]) == Some(m));
            }
            if given.contains(m) {
                let k = choose|k: int| 0 <= k < mods_spec.len() && modifier_spec(#[trigger] mods_spec[k]) == Some(m);
                assert(mods@[k] == m);
            }
        }
    }
    assert(!exists|k: int| 0 <= k < mods_spec.len() && modifier_spec(#[trigger] mods_spec[k]) is None);
    let key = &parts[n - 1];
    assert(key@ == sp.last());
    if key.len() == 0 {
        return Err(Error::InvalidChord(own(raw)));
    }
    let keysym: String;
    if key.len() == 1 {
        match char_to_keysym(key[0]) {
            Ok((shift, sym)) => {
                if shift {
                    let ghost old = mods@;
                    mods.push(Modifier::Shift);
                    assert forall|m: Modifier| mods@.contains(m) <==> (old.contains(m) || m == Modifier::Shift) by {
                        if mods@.contains(m) && m != Modifier::Shift {
                            let k = choose|k: int| 0 <= k < mods@.len() && mods@[k] == m;
                            assert(old[k] == m);
                        }
                        if m == Modifier::Shift {
                            assert(mods@[old.len() as int] == m);
                        }
                        if old.contains(m) {
                            let k = choose|k: int| 0 <= k < old.len() && old[k] == m;
                            assert(mods@[k] == m);
                        }
                    }
                    assert forall|m: Modifier| mod_set(mods@).contains(m) == given.insert(Modifier::Shift).contains(m) by {
                        assert(mod_set(old).contains(m) == given.contains(m));
                    }
                    assert(mod_set(mods@) =~= given.insert(Modifier::Shift));
                }
                keysym = own(sym);
            },
            Err(e) => {
                return Err(e);
            },
        }
    } else {
        keysym = slice(key.as_slice(), 0, key.len());
        assert(key@.subrange(0, key@.len() as int) =~= key@);
    }
    let mods = canonicalize(&mods);
    Ok(Chord { mods, keysym })
}

/// The argument of `sendshortcut`: modifiers, keysym, and the window by address.
pub open spec fn shortcut_spec(mods: Seq<Modifier>, keysym: Seq<char>, address: Seq<char>) -> Seq<
    char,
> {
    mods_text(mods) + ","@ + keysym + ",address:"@ + address
}

/// The dispatcher's window argument is the address: a title can change between
/// the read and the dispatch.
pub fn shortcut_arg(chord: &Chord, address: &str) -> (r: String)
    ensures
        r@ == shortcut_spec(chord.mods@, chord.keysym@, address@),
{
    let mut r = chord.mods_string();
    r.append(",");
    r.append(chord.keysym.as_str());
    r.append(",address:");
    r.append(address);
    r
}

pub open spec fn key_hint() -> Seq<char> {
    "keysym not reachable without modifiers on the active keymap (see `hyprpilot doctor` for the layout)"@
}

/// Hyprland's `key not found` means the keysym is not reachable unmodified on
/// the active keymap: that is surfaced instead of the raw dispatcher error.
pub fn enrich_key_error(error: Error, chord: &Chord) -> (r: Error)
    ensures
        match error {
            Error::Tool { command, message } => if contains_seq(message@, "key not found"@) {
                r matches Error::Invalid { what, value, hint } && what@ == "key"@ && value@
                    == chord.keysym@ && hint@ == key_hint()
            } else {
                r == error
            },
            _ => r == error,
        },
{
    let hit = match &error {
        Error::Tool { message, .. } => contains(message.as_str(), "key not found"),
        _ => false,
    };
    if hit {
        Error::Invalid {
            what: String::from_str("key"),
            value: chord.keysym.clone(),
            hint: String::from_str(
                "keysym not reachable without modifiers on the active keymap (see `hyprpilot doctor` for the layout)",
            ),
        }
    } else {
        error
    }
}

/// Which compositor input goes to, and to which window. An isolated session
/// addresses its nested instance, so no chord sent here can reach a window of
/// the user's desktop.
#[derive(Debug, PartialEq, Eq)]
pub enum Route {
    Shared { address: String },
    Isolated { signature: String, address: String },
}

impl Route {
    pub fn ctl(&self) -> (r: Ctl<'_>)
        ensures
            match self {
                Route::Shared { .. } => r == Ctl::Host,
                Route::Isolated { signature, .. } => r matches Ctl::Instance(s) && s@ == signature@,
            },
    {
        match self {
            Route::Shared { .. } => Ctl::Host,
            Route::Isolated { signature, .. } => Ctl::Instance(signature.as_str()),
        }
    }

    pub fn address(&self) -> (r: &str)
        ensures
            match self {
                Route::Shared { address } => r@ == address@,
                Route::Isolated { address, .. } => r@ == address@,
            },
    {
        match self {
            Route::Shared { address } => address.as_str(),
            Route::Isolated { address, .. } => address.as_str(),
        }
    }

    /// Only the user's seat is guarded: `--focus` is ignored on an agent
    /// desktop, whose target already is the focused window of its seat.
    pub fn guarded(&self, focus: bool) -> (r: bool)
        ensures
            r == (self is Shared && focus),
    {
        match self {
            Route::Shared { .. } => focus,
            Route::Isolated { .. } => false,
        }
    }

    /// How the target reads back in command output.
    pub fn target(&self) -> (r: String)
        ensures
            match self {
                Route::Shared { address } => r@ == address@,
                Route::Isolated { signature, address } => r@ == address@
                    + " in agent desktop instance "@ + signature@,
            },
    {
        match self {
            Route::Shared { address } => own(address.as_str()),
            Route::Isolated { signature, address } => {
                let mut r = own(address.as_str());
                r.append(" in agent desktop instance ");
                r.append(signature.as_str());
                r
            },
        }
    }
}

/// Whether a window with this address is among `clients`.
pub open spec fn has_window(clients: Seq<Client>, address: Seq<char>) -> bool {
    exists|i: int| 0 <= i < clients.len() && (#[trigger] clients[i]).address@ == address
}

/// Whether the window is still among the clients of its compositor.
pub fn window_present(clients: &[Client], address: &str) -> (r: bool)
    ensures
        r == has_window(clients@, address@),
{
    let mut i: usize = 0;
    while i < clients.len()
        invariant
            i <= clients@.len(),
            forall|k: int| 0 <= k < i ==> (#[trigger] clients@[k]).address@ != address@,
        decreases clients@.len() - i,
    {
        if str_eq(clients[i].address.as_str(), address) {
            return true;
        }
        i += 1;
    }
    false
}

/// What routing input into an agent desktop resolves to: its live instance,
/// the window recorded for it, and that window still among the instance's
/// clients.
pub open spec fn agent_route_spec<R: FnOnce(Vec<String>) -> Result<ProcessOutput, String>, P: Fn(
    String,
) -> Result<Vec<Client>, String>, F: Fn(u32) -> bool>(
    run: R,
    parse: P,
    carries: F,
    name: Seq<char>,
    isolated: Isolated,
    r: Result<Route, Error>,
) -> bool {
    exists|live: Result<LiveInstance, Error>|
        live_instance_spec(name, isolated, carries, live) && match live {
            Err(e) => r == Err::<Route, Error>(e),
            Ok(instance) => match isolated.active_address {
                None => r matches Err(Error::AgentDesktopUnready { session: s, reason }) && s@
                    == name && reason@
                    == "no window is recorded for it, its app never appeared — run `hyprpilot --session "@
                    + name + " teardown` and start it again"@,
                Some(address) => exists|q: Result<Vec<Client>, Error>|
                    #[trigger] queried(run, parse, Ctl::Instance(instance.signature), seq!["clients"@], q)
                        && match q {
                        Err(e) => r == Err::<Route, Error>(e),
                        Ok(clients) => if has_window(clients@, address@) {
                            r matches Ok(Route::Isolated { signature, address: a })
                                && signature@ == instance.signature@ && a@ == address@
                        } else {
                            r matches Err(Error::WindowGone(a)) && a@ == address@
                        },
                    },
            },
        }
}

impl Route {
    /// The route into an agent desktop: refused unless its instance is live
    /// and the recorded window is still among its clients, read with `run`,
    /// its one command.
    pub fn agent<R: FnOnce(Vec<String>) -> Result<ProcessOutput, String>, P: Fn(String) -> Result<
        Vec<Client>,
        String,
    >, F: Fn(u32) -> bool>(run: R, parse: &P, carries: &F, name: &str, isolated: &Isolated) -> (r:
        Result<Route, Error>)
        requires
            forall|v: Vec<String>| call_requires(run, (v,)),
            forall|s: String| call_requires(*parse, (s,)),
            forall|pid: u32| call_requires(*carries, (pid,)),
        ensures
            agent_route_spec(run, *parse, *carries, name@, *isolated, r),
    {
        let live = live_instance(name, isolated, carries);
        let ghost glive = live;
        let instance = match live {
            Err(e) => return Err(e),
            Ok(instance) => instance,
        };
        let address = match recorded_window(name, isolated) {
            Err(e) => return Err(e),
            Ok(a) => a,
        };
        let q = clients_on(run, parse, Ctl::Instance(instance.signature));
        let ghost gq = q;
        assert(queried(run, *parse, Ctl::Instance(instance.signature), seq!["clients"@], gq));
        let r = match q {
            Err(e) => Err(e),
            Ok(list) => if window_present(list.as_slice(), address) {
                Ok(Route::Isolated { signature: own(instance.signature), address: own(address) })
            } else {
                Err(Error::WindowGone(own(address)))
            },
        };
        assert(live_instance_spec(name@, *isolated, *carries, glive));
        r
    }
}

/// The order modifiers are listed in: Ctrl, Shift, Alt, Super.
pub open spec fn mod_rank(m: Modifier) -> int {
    match m {
        Modifier::Ctrl => 0,
        Modifier::Shift => 1,
        Modifier::Alt => 2,
        Modifier::Super => 3,
    }
}

/// A chord is refused as invalid when its key part (after the last `+`) is
/// empty or a part before it names no modifier; a parsed chord lists each
/// of its modifiers once, in the order Ctrl, Shift, Alt, Super, and a key of
/// several characters is kept as written.
pub proof fn a_chord_is_refused_or_parsed_in_canonical_order(raw: Seq<char>)
    ensures
        ({
            let parts = split_spec(raw, '+');
            (parts.last().len() == 0 || exists|i: int|
                0 <= i < parts.len() - 1 && modifier_spec(#[trigger] parts[i]) is None) ==> chord_spec(raw) matches Err(
                Error::InvalidChord(_),
            )
        }),
        chord_spec(raw) matches Ok((set, sym)) ==> forall|i: int, j: int|
            0 <= i < j < canonical(set).len() ==> mod_rank(#[trigger] canonical(set)[i]) < mod_rank(
                #[trigger] canonical(set)[j],
            ),
        split_spec(raw, '+').last().len() > 1 ==> (chord_spec(raw) matches Ok((set, sym)) ==> sym == split_spec(
            raw,
            '+',
        ).last()),
{
    let parts = split_spec(raw, '+');
    let mods = parts.drop_last();
    assert forall|i: int| 0 <= i < parts.len() - 1 implies mods[i] == #[trigger] parts[i] by {}
    if let Ok((set, sym)) = chord_spec(raw) {
        let c = canonical(set);
        assert forall|i: int, j: int| 0 <= i < j < c.len() implies mod_rank(#[trigger] c[i]) < mod_rank(#[trigger] c[j]) by {
            let a: Seq<Modifier> = if set.contains(Modifier::Ctrl) { seq![Modifier::Ctrl] } else { Seq::empty() };
            let b: Seq<Modifier> = if set.contains(Modifier::Shift) { seq![Modifier::Shift] } else { Seq::empty() };
            let d: Seq<Modifier> = if set.contains(Modifier::Alt) { seq![Modifier::Alt] } else { Seq::empty() };
            let e: Seq<Modifier> = if set.contains(Modifier::Super) { seq![Modifier::Super] } else { Seq::empty() };
            assert(c == a + b + d + e);
        }
    }
}

/// Whether `e` is the error `parse_chord` gives for `raw`.
pub open spec fn chord_error(raw: Seq<char>, e: Error) -> bool {
    match chord_spec(raw) {
        Err(Error::InvalidChord(_)) => e matches Error::InvalidChord(text) && text@ == raw,
        Err(Error::UnmappedChar(c)) => e == Error::UnmappedChar(c),
        _ => false,
    }
}

/// Parses every chord before any is sent.
pub fn parse_chords(raw_chords: &Vec<String>) -> (r: Result<Vec<Chord>, Error>)
    ensures
        match r {
            Ok(chords) => chords@.len() == raw_chords@.len() && forall|i: int|
                0 <= i < chords@.len() ==> (#[trigger] chord_spec(raw_chords@[i]@) matches Ok((set, sym))
                    && chords@[i].mods@ == canonical(set) && chords@[i].keysym@ == sym),
            Err(e) => exists|i: int|
                0 <= i < raw_chords@.len() && (forall|j: int| 0 <= j < i ==> #[trigger] chord_spec(raw_chords@[j]@) is Ok)
                    && #[trigger] chord_error(raw_chords@[i]@, e),
        },
{
    let mut out: Vec<Chord> = Vec::new();
    let mut i: usize = 0;
    while i < raw_chords.len()
        invariant
            i <= raw_chords@.len(),
            out@.len() == i,
            forall|k: int|
                0 <= k < i ==> (#[trigger] chord_spec(raw_chords@[k]@) matches Ok((set, sym))
                    && out@[k].mods@ == canonical(set) && out@[k].keysym@ == sym),
        decreases raw_chords@.len() - i,
    {
        match parse_chord(raw_chords[i].as_str()) {
            Ok(c) => out.push(c),
            Err(e) => {
                assert(chord_error(raw_chords@[i as int]@, e));
                assert forall|j: int| 0 <= j < i implies #[trigger] chord_spec(raw_chords@[j]@) is Ok by {
                    assert(chord_spec(raw_chords@[j]@) matches Ok((set, sym)));
                }
                return Err(e);
            },
        }
        i += 1;
    }
    Ok(out)
}

/// One chord per character of `text`, `SHIFT` where the table needs it.
pub fn text_chords(text: &str) -> (r: Result<Vec<Chord>, Error>)
    ensures
        match r {
            Ok(chords) => chords@.len() == text@.len() && forall|i: int|
                0 <= i < chords@.len() ==> (#[trigger] keysym_spec(text@[i]) matches Some((shift, sym))
                    && chords@[i].keysym@ == sym && chords@[i].mods@ == (if shift {
                    seq![Modifier::Shift]
                } else {
                    Seq::empty()
                })),
            Err(e) => exists|i: int|
                0 <= i < text@.len() && (forall|j: int| 0 <= j < i ==> keysym_spec(#[trigger] text@[j]) is Some)
                    && keysym_spec(#[trigger] text@[i]) is None && e == Error::UnmappedChar(text@[i]),
        },
{
    let cs = chars(text);
    let mut out: Vec<Chord> = Vec::new();
    let mut i: usize = 0;
    while i < cs.len()
        invariant
            cs@ == text@,
            i <= cs@.len(),
            out@.len() == i,
            forall|k: int|
                0 <= k < i ==> (#[trigger] keysym_spec(text@[k]) matches Some((shift, sym))
                    && out@[k].keysym@ == sym && out@[k].mods@ == (if shift {
                    seq![Modifier::Shift]
                } else {
                    Seq::empty()
                })),
        decreases cs@.len() - i,
    {
        match char_to_keysym(cs[i]) {
            Ok((shift, sym)) => {
                let mut mods: Vec<Modifier> = Vec::new();
                if shift {
                    mods.push(Modifier::Shift);
                }
                assert(mods@ =~= (if shift { seq![Modifier::Shift] } else { Seq::empty() }));
                out.push(Chord { mods, keysym: own(sym) });
            },
            Err(e) => {
                return Err(e);
            },
        }
        i += 1;
    }
    Ok(out)
}

/// The window a route addresses.
pub open spec fn route_address(route: &Route) -> Seq<char> {
    match route {
        Route::Shared { address } => address@,
        Route::Isolated { address, .. } => address@,
    }
}

/// What a key command sends: the chords, in order, each with the
/// `sendshortcut` argument that addresses the route's window, and what the
/// command reports once every one of them went through.
#[derive(Debug)]
pub struct KeyPlan {
    pub chords: Vec<Chord>,
    pub shortcuts: Vec<String>,
    pub message: String,
}

/// The `sendshortcut` argument of each chord, in order.
fn shortcuts_of(route: &Route, chords: &Vec<Chord>) -> (r: Vec<String>)
    ensures
        r@.len() == chords@.len(),
        forall|i: int|
            0 <= i < chords@.len() ==> r@[i]@ == shortcut_spec(
                chords@[i].mods@,
                chords@[i].keysym@,
                route_address(route),
            ),
{
    let mut r: Vec<String> = Vec::new();
    let mut i: usize = 0;
    while i < chords.len()
        invariant
            i <= chords@.len(),
            r@.len() == i,
            forall|k: int|
                0 <= k < i ==> r@[k]@ == shortcut_spec(chords@[k].mods@, chords@[k].keysym@, route_address(route)),
        decreases chords@.len() - i,
    {
        r.push(shortcut_arg(&chords[i], route.address()));
        i += 1;
    }
    r
}

/// `sent N key(s) to TARGET`.
pub open spec fn sent_text(n: nat, target: Seq<char>) -> Seq<char> {
    "sent "@ + dec(n) + " key(s) to "@ + target
}

/// `typed N character(s) into TARGET`.
pub open spec fn typed_text(n: nat, target: Seq<char>) -> Seq<char> {
    "typed "@ + dec(n) + " character(s) into "@ + target
}

/// What `key` sends for the chords spelled in `raw_chords`: every chord is
/// parsed before any is sent, so a chord that does not parse stops the
/// command before anything is sent, with the error of the first such chord;
/// otherwise one `sendshortcut` per chord, in order.
pub fn send_keys(route: &Route, raw_chords: &Vec<String>) -> (r: Result<KeyPlan, Error>)
    ensures
        r is Err <==> exists|i: int| 0 <= i < raw_chords@.len() && #[trigger] chord_spec(raw_chords@[i]@) is Err,
        r matches Err(e) ==> exists|i: int|
            0 <= i < raw_chords@.len() && (forall|j: int| 0 <= j < i ==> #[trigger] chord_spec(raw_chords@[j]@) is Ok)
                && #[trigger] chord_error(raw_chords@[i]@, e),
        r matches Ok(plan) ==> plan.message@ == sent_text(raw_chords@.len(), route_target(route)) && plan.chords@.len()
            == raw_chords@.len() && plan.shortcuts@.len() == raw_chords@.len() && forall|i: int|
            0 <= i < raw_chords@.len() ==> (#[trigger] chord_spec(raw_chords@[i]@) matches Ok((set, sym))
                && plan.chords@[i].mods@ == canonical(set) && plan.chords@[i].keysym@ == sym
                && plan.shortcuts@[i]@ == shortcut_spec(canonical(set), sym, route_address(route))),
{
    let chords = parse_chords(raw_chords)?;
    let shortcuts = shortcuts_of(route, &chords);
    let t = route.target();
    let mut m = String::from_str("sent ");
    m.append(fmt_u64(chords.len() as u64).as_str());
    m.append(" key(s) to ");
    m.append(t.as_str());
    Ok(KeyPlan { chords, shortcuts, message: m })
}

/// How a route's target reads in command output.
pub open spec fn route_target(route: &Route) -> Seq<char> {
    match route {
        Route::Shared { address } => address@,
        Route::Isolated { signature, address } => address@ + " in agent desktop instance "@
            + signature@,
    }
}

/// The modifiers of a typed character: `SHIFT` where the table needs it.
pub open spec fn shift_mods(shift: bool) -> Seq<Modifier> {
    if shift {
        seq![Modifier::Shift]
    } else {
        Seq::empty()
    }
}

/// What `type` sends for `text`: every character is mapped before any is
/// sent, so an unmapped character stops the command before anything is
/// sent, with `UnmappedChar` of the first one; otherwise one `sendshortcut`
/// per character, in order, `SHIFT` where the table needs it.
pub fn type_text(route: &Route, text: &str) -> (r: Result<KeyPlan, Error>)
    ensures
        r is Err <==> exists|i: int| 0 <= i < text@.len() && keysym_spec(#[trigger] text@[i]) is None,
        r matches Err(e) ==> exists|i: int|
            0 <= i < text@.len() && (forall|j: int| 0 <= j < i ==> keysym_spec(#[trigger] text@[j]) is Some)
                && keysym_spec(#[trigger] text@[i]) is None && e == Error::UnmappedChar(text@[i]),
        r matches Ok(plan) ==> plan.message@ == typed_text(text@.len(), route_target(route)) && plan.chords@.len()
            == text@.len() && plan.shortcuts@.len() == text@.len() && forall|i: int|
            0 <= i < text@.len() ==> (keysym_spec(#[trigger] text@[i]) matches Some((shift, sym))
                && plan.chords@[i].mods@ == shift_mods(shift) && plan.chords@[i].keysym@ == sym
                && plan.shortcuts@[i]@ == shortcut_spec(shift_mods(shift), sym, route_address(route))),
{
    let chords = text_chords(text)?;
    let shortcuts = shortcuts_of(route, &chords);
    let t = route.target();
    let mut m = String::from_str("typed ");
    m.append(fmt_u64(chords.len() as u64).as_str());
    m.append(" character(s) into ");
    m.append(t.as_str());
    Ok(KeyPlan { chords, shortcuts, message: m })
}

} // verus!
