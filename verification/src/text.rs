//! Character-level helpers every module builds its messages and parsers from.
//! Strings are modelled by their `Seq<char>` view throughout.
use vstd::prelude::*;

verus! {

/// `String::push`, which vstd leaves unspecified.
#[verifier::external_body]
pub fn push_char(s: &mut String, c: char)
    ensures
        final(s)@ == old(s)@.push(c),
{
    s.push(c);
}

/// The characters of `s`, in order.
pub fn chars(s: &str) -> (v: Vec<char>)
    ensures
        v@ == s@,
{
    let n = s.unicode_len();
    let mut v: Vec<char> = Vec::new();
    let mut i: usize = 0;
    while i < n
        invariant
            n == s@.len(),
            i <= n,
            v@ == s@.subrange(0, i as int),
        decreases n - i,
    {
        v.push(s.get_char(i));
        i += 1;
    }
    v
}

/// The string made of `v`.
pub fn from_chars(v: &[char]) -> (s: String)
    ensures
        s@ == v@,
{
    let mut s = String::new();
    let mut i: usize = 0;
    while i < v.len()
        invariant
            i <= v@.len(),
            s@ == v@.subrange(0, i as int),
        decreases v@.len() - i,
    {
        push_char(&mut s, v[i]);
        i += 1;
    }
    s
}

/// The characters of `s` from `from` (inclusive) to `to` (exclusive).
pub fn slice(s: &[char], from: usize, to: usize) -> (r: String)
    requires
        from <= to <= s@.len(),
    ensures
        r@ == s@.subrange(from as int, to as int),
{
    let mut r = String::new();
    let mut i: usize = from;
    while i < to
        invariant
            from <= i <= to <= s@.len(),
            r@ == s@.subrange(from as int, i as int),
        decreases to - i,
    {
        push_char(&mut r, s[i]);
        i += 1;
    }
    r
}

/// `a` followed by `b`.
pub fn cat(a: &str, b: &str) -> (r: String)
    ensures
        r@ == a@ + b@,
{
    let mut r = String::from_str(a);
    r.append(b);
    r
}

/// `a`, `b` and `c` in order.
pub fn cat3(a: &str, b: &str, c: &str) -> (r: String)
    ensures
        r@ == a@ + b@ + c@,
{
    let mut r = String::from_str(a);
    r.append(b);
    r.append(c);
    r
}

/// An owned copy of `s`.
pub fn own(s: &str) -> (r: String)
    ensures
        r@ == s@,
{
    String::from_str(s)
}

pub fn seq_eq(a: &[char], b: &[char]) -> (r: bool)
    ensures
        r == (a@ == b@),
{
    if a.len() != b.len() {
        return false;
    }
    let mut i: usize = 0;
    while i < a.len()
        invariant
            a@.len() == b@.len(),
            i <= a@.len(),
            forall|j: int| 0 <= j < i ==> a@[j] == b@[j],
        decreases a@.len() - i,
    {
        if a[i] != b[i] {
            return false;
        }
        i += 1;
    }
    assert(a@ =~= b@);
    true
}

/// Whether two strings hold the same characters.
pub fn str_eq(a: &str, b: &str) -> (r: bool)
    ensures
        r == (a@ == b@),
{
    let va = chars(a);
    let vb = chars(b);
    seq_eq(va.as_slice(), vb.as_slice())
}

pub open spec fn is_prefix(p: Seq<char>, s: Seq<char>) -> bool {
    p.len() <= s.len() && s.subrange(0, p.len() as int) == p
}

pub open spec fn is_suffix(p: Seq<char>, s: Seq<char>) -> bool {
    p.len() <= s.len() && s.subrange(s.len() - p.len(), s.len() as int) == p
}

/// `needle` occurs in `hay` starting at `at`.
pub open spec fn occurs_at(hay: Seq<char>, needle: Seq<char>, at: int) -> bool {
    0 <= at && at + needle.len() <= hay.len() && hay.subrange(at, at + needle.len()) == needle
}

pub open spec fn contains_seq(hay: Seq<char>, needle: Seq<char>) -> bool {
    exists|at: int| occurs_at(hay, needle, at)
}

/// Whether `needle` occurs in `hay` at position `at`.
pub fn matches_at(hay: &[char], needle: &[char], at: usize) -> (r: bool)
    ensures
        r == occurs_at(hay@, needle@, at as int),
{
    if at > hay.len() || needle.len() > hay.len() - at {
        return false;
    }
    let mut i: usize = 0;
    while i < needle.len()
        invariant
            at + needle@.len() <= hay@.len(),
            i <= needle@.len(),
            forall|j: int| 0 <= j < i ==> hay@[at + j] == needle@[j],
        decreases needle@.len() - i,
    {
        assert(at + i < hay.len());
        if hay[at + i] != needle[i] {
            assert(hay@.subrange(at as int, at + needle@.len())[i as int] != needle@[i as int]);
            return false;
        }
        i += 1;
    }
    assert(hay@.subrange(at as int, at + needle@.len()) =~= needle@);
    true
}

/// The first position at which `needle` occurs in `hay`.
pub fn find_seq(hay: &[char], needle: &[char]) -> (r: Option<usize>)
    ensures
        match r {
            Some(at) => occurs_at(hay@, needle@, at as int) && forall|k: int|
                0 <= k < at ==> !occurs_at(hay@, needle@, k),
            None => !contains_seq(hay@, needle@),
        },
{
    if needle.len() > hay.len() {
        return None;
    }
    let last = hay.len() - needle.len();
    let mut at: usize = 0;
    while at <= last
        invariant
            last + needle@.len() == hay@.len(),
            at <= last,
            forall|k: int| 0 <= k < at ==> !occurs_at(hay@, needle@, k),
        ensures
            forall|k: int| 0 <= k <= last ==> !occurs_at(hay@, needle@, k),
        decreases last - at,
    {
        if matches_at(hay, needle, at) {
            return Some(at);
        }
        if at == last {
            break;
        }
        at += 1;
    }
    None
}

/// Whether `needle` occurs anywhere in `hay`.
pub fn contains(hay: &str, needle: &str) -> (r: bool)
    ensures
        r == contains_seq(hay@, needle@),
{
    let h = chars(hay);
    let n = chars(needle);
    find_seq(h.as_slice(), n.as_slice()).is_some()
}

/// Whether `s` holds the character `c`.
pub fn has_char(s: &[char], c: char) -> (r: bool)
    ensures
        r == s@.contains(c),
{
    let mut i: usize = 0;
    while i < s.len()
        invariant
            i <= s@.len(),
            forall|j: int| 0 <= j < i ==> s@[j] != c,
        decreases s@.len() - i,
    {
        if s[i] == c {
            return true;
        }
        i += 1;
    }
    false
}

/// Whether `s` begins with `p`.
pub fn starts_with(s: &str, p: &str) -> (r: bool)
    ensures
        r == is_prefix(p@, s@),
{
    let sv = chars(s);
    let pv = chars(p);
    let r = matches_at(sv.as_slice(), pv.as_slice(), 0);
    assert(r == is_prefix(p@, s@)) by {
        if pv@.len() <= sv@.len() {
            assert(sv@.subrange(0, pv@.len() as int) =~= sv@.subrange(0, 0 + pv@.len() as int));
        }
    }
    r
}

/// Whether `s` ends with `p`.
pub fn ends_with(s: &str, p: &str) -> (r: bool)
    ensures
        r == is_suffix(p@, s@),
{
    let sv = chars(s);
    let pv = chars(p);
    if pv.len() > sv.len() {
        return false;
    }
    let at = sv.len() - pv.len();
    let r = matches_at(sv.as_slice(), pv.as_slice(), at);
    assert(r == is_suffix(p@, s@)) by {
        assert(sv@.subrange(at as int, at + pv@.len()) =~= sv@.subrange(
            sv@.len() - pv@.len(),
            sv@.len() as int,
        ));
    }
    r
}

/// What `char::is_whitespace` accepts: Unicode `White_Space`.
pub open spec fn is_space(c: char) -> bool {
    ||| c == ' '
    ||| ('\t' <= c && c <= '\r')
    ||| c == '\u{85}'
    ||| c == '\u{A0}'
    ||| c == '\u{1680}'
    ||| ('\u{2000}' <= c && c <= '\u{200A}')
    ||| c == '\u{2028}'
    ||| c == '\u{2029}'
    ||| c == '\u{202F}'
    ||| c == '\u{205F}'
    ||| c == '\u{3000}'
}

pub fn space(c: char) -> (r: bool)
    ensures
        r == is_space(c),
{
    c == ' ' || ('\t' <= c && c <= '\r') || c == '\u{85}' || c == '\u{A0}' || c == '\u{1680}' || (
    '\u{2000}' <= c && c <= '\u{200A}') || c == '\u{2028}' || c == '\u{2029}' || c == '\u{202F}'
        || c == '\u{205F}' || c == '\u{3000}'
}

/// Index of the first non-space character, or the length.
pub open spec fn trim_start_at(s: Seq<char>) -> int
    decreases s.len(),
{
    if s.len() == 0 {
        0
    } else if is_space(s[0]) {
        1 + trim_start_at(s.drop_first())
    } else {
        0
    }
}

/// One past the last non-space character, or zero.
pub open spec fn trim_end_at(s: Seq<char>) -> int
    decreases s.len(),
{
    if s.len() == 0 {
        0
    } else if is_space(s.last()) {
        trim_end_at(s.drop_last())
    } else {
        s.len() as int
    }
}

/// `str::trim`: leading and trailing white space removed.
pub open spec fn trimmed(s: Seq<char>) -> Seq<char> {
    let t = s.subrange(trim_start_at(s), s.len() as int);
    t.subrange(0, trim_end_at(t))
}

proof fn lemma_trim_start(s: Seq<char>, i: int)
    requires
        0 <= i <= s.len(),
        forall|j: int| 0 <= j < i ==> is_space(#[trigger] s[j]),
    ensures
        i == s.len() || !is_space(s[i]) ==> trim_start_at(s) == i,
    decreases i,
{
    if s.len() > 0 && i > 0 {
        lemma_trim_start(s.drop_first(), i - 1);
    }
}

proof fn lemma_trim_start_bound(s: Seq<char>)
    ensures
        0 <= trim_start_at(s) <= s.len(),
    decreases s.len(),
{
    if s.len() > 0 {
        lemma_trim_start_bound(s.drop_first());
    }
}

proof fn lemma_trim_end(s: Seq<char>, i: int)
    requires
        0 <= i <= s.len(),
        forall|j: int| i <= j < s.len() ==> is_space(#[trigger] s[j]),
    ensures
        i == 0 || !is_space(s[i - 1]) ==> trim_end_at(s) == i,
    decreases s.len(),
{
    if s.len() > 0 && i < s.len() {
        assert(is_space(s.last()));
        lemma_trim_end(s.drop_last(), i);
    }
}

proof fn lemma_trim_end_bound(s: Seq<char>)
    ensures
        0 <= trim_end_at(s) <= s.len(),
    decreases s.len(),
{
    if s.len() > 0 {
        lemma_trim_end_bound(s.drop_last());
    }
}

/// Bounds of `trimmed` inside `s`.
pub fn trim_bounds(s: &[char]) -> (r: (usize, usize))
    ensures
        r.0 <= r.1 <= s@.len(),
        s@.subrange(r.0 as int, r.1 as int) == trimmed(s@),
{
    let mut a: usize = 0;
    while a < s.len() && space(s[a])
        invariant
            a <= s@.len(),
            forall|j: int| 0 <= j < a ==> is_space(#[trigger] s@[j]),
        decreases s@.len() - a,
    {
        a += 1;
    }
    proof {
        lemma_trim_start(s@, a as int);
    }
    let ghost t = s@.subrange(a as int, s@.len() as int);
    let mut b: usize = s.len();
    while b > a && space(s[b - 1])
        invariant
            a <= b <= s@.len(),
            t == s@.subrange(a as int, s@.len() as int),
            forall|j: int| b <= j < s@.len() ==> is_space(#[trigger] s@[j]),
        decreases b,
    {
        b -= 1;
    }
    proof {
        assert forall|j: int| (b - a) <= j < t.len() implies is_space(#[trigger] t[j]) by {
            assert(t[j] == s@[a + j]);
        }
        if b > a {
            assert(t[b - a - 1] == s@[b as int - 1]);
        }
        lemma_trim_end(t, (b - a) as int);
        assert(s@.subrange(a as int, b as int) =~= t.subrange(0, (b - a) as int));
    }
    (a, b)
}

/// `str::trim`.
pub fn trim(s: &str) -> (r: String)
    ensures
        r@ == trimmed(s@),
{
    let v = chars(s);
    let (a, b) = trim_bounds(v.as_slice());
    slice(v.as_slice(), a, b)
}

/// Index of the first occurrence of `c`.
pub open spec fn first_index(s: Seq<char>, c: char) -> int
    decreases s.len(),
{
    if s.len() == 0 {
        -1
    } else if s[0] == c {
        0
    } else {
        let r = first_index(s.drop_first(), c);
        if r < 0 {
            -1
        } else {
            r + 1
        }
    }
}

proof fn lemma_first_index(s: Seq<char>, c: char, i: int)
    requires
        0 <= i <= s.len(),
        forall|j: int| 0 <= j < i ==> s[j] != c,
    ensures
        i < s.len() && s[i] == c ==> first_index(s, c) == i,
        i == s.len() ==> first_index(s, c) == -1,
    decreases i,
{
    if i > 0 {
        lemma_first_index(s.drop_first(), c, i - 1);
    }
}

/// `str::split_once` on a character: what precedes its first occurrence and
/// what follows it.
pub open spec fn split_once_spec(s: Seq<char>, c: char) -> Option<(Seq<char>, Seq<char>)> {
    let i = first_index(s, c);
    if i < 0 {
        None
    } else {
        Some((s.subrange(0, i), s.subrange(i + 1, s.len() as int)))
    }
}

pub fn find_char(s: &[char], c: char) -> (r: Option<usize>)
    ensures
        match r {
            Some(i) => i < s@.len() && first_index(s@, c) == i,
            None => first_index(s@, c) == -1,
        },
{
    let mut i: usize = 0;
    while i < s.len()
        invariant
            i <= s@.len(),
            forall|j: int| 0 <= j < i ==> s@[j] != c,
        decreases s@.len() - i,
    {
        if s[i] == c {
            proof {
                lemma_first_index(s@, c, i as int);
            }
            return Some(i);
        }
        i += 1;
    }
    proof {
        lemma_first_index(s@, c, i as int);
    }
    None
}

/// `str::split_once` on a character.
pub fn split_once(s: &str, c: char) -> (r: Option<(String, String)>)
    ensures
        match (r, split_once_spec(s@, c)) {
            (Some((a, b)), Some((sa, sb))) => a@ == sa && b@ == sb,
            (None, None) => true,
            _ => false,
        },
{
    let v = chars(s);
    match find_char(v.as_slice(), c) {
        Some(i) => {
            assert(i < v.len());
            Some((slice(v.as_slice(), 0, i), slice(v.as_slice(), i + 1, v.len())))
        },
        None => None,
    }
}

pub open spec fn is_digit(c: char) -> bool {
    '0' <= c && c <= '9'
}

pub open spec fn digit_value(c: char) -> int {
    (c as int) - ('0' as int)
}

/// Value of a run of decimal digits.
pub open spec fn digits_value(s: Seq<char>) -> int
    decreases s.len(),
{
    if s.len() == 0 {
        0
    } else {
        digits_value(s.drop_last()) * 10 + digit_value(s.last())
    }
}

pub open spec fn all_digits(s: Seq<char>) -> bool {
    forall|i: int| 0 <= i < s.len() ==> is_digit(#[trigger] s[i])
}

/// The integer a decimal literal spells the way `str::parse` reads it: an
/// optional sign, then at least one digit. `None` when the text is no
/// such literal.
pub open spec fn decimal(s: Seq<char>) -> Option<int> {
    if s.len() > 0 && (s[0] == '+' || s[0] == '-') {
        let rest = s.drop_first();
        if rest.len() > 0 && all_digits(rest) {
            if s[0] == '-' {
                Some(-digits_value(rest))
            } else {
                Some(digits_value(rest))
            }
        } else {
            None
        }
    } else if s.len() > 0 && all_digits(s) {
        Some(digits_value(s))
    } else {
        None
    }
}

/// `u32::from_str`: `Some` exactly when `s` is an unsigned decimal (an
/// optional `+`, digits) whose value fits.
pub open spec fn parse_u32_spec(s: Seq<char>) -> Option<u32> {
    match decimal(s) {
        Some(v) => if (s[0] != '-') && 0 <= v <= u32::MAX {
            Some(v as u32)
        } else {
            None
        },
        None => None,
    }
}

/// `u64::from_str`.
pub open spec fn parse_u64_spec(s: Seq<char>) -> Option<u64> {
    match decimal(s) {
        Some(v) => if (s[0] != '-') && 0 <= v <= u64::MAX {
            Some(v as u64)
        } else {
            None
        },
        None => None,
    }
}

/// `i32::from_str`.
pub open spec fn parse_i32_spec(s: Seq<char>) -> Option<i32> {
    match decimal(s) {
        Some(v) => if i32::MIN <= v <= i32::MAX {
            Some(v as i32)
        } else {
            None
        },
        None => None,
    }
}

/// `i64::from_str`.
pub open spec fn parse_i64_spec(s: Seq<char>) -> Option<i64> {
    match decimal(s) {
        Some(v) => if i64::MIN <= v <= i64::MAX {
            Some(v as i64)
        } else {
            None
        },
        None => None,
    }
}

proof fn lemma_digits_nonneg(s: Seq<char>)
    requires
        all_digits(s),
    ensures
        digits_value(s) >= 0,
    decreases s.len(),
{
    if s.len() > 0 {
        assert(all_digits(s.drop_last())) by {
            assert forall|i: int| 0 <= i < s.drop_last().len() implies is_digit(
                #[trigger] s.drop_last()[i],
            ) by {
                assert(s.drop_last()[i] == s[i]);
            }
        }
        lemma_digits_nonneg(s.drop_last());
        assert(is_digit(s[s.len() - 1]));
    }
}

/// Value of the digits `s[from..]`, failing once it passes `limit`.
fn digits_upto(s: &[char], from: usize, limit: u64) -> (r: Option<u64>)
    requires
        from < s@.len(),
        limit >= 9,
    ensures
        match r {
            Some(v) => all_digits(s@.subrange(from as int, s@.len() as int)) && v as int
                == digits_value(s@.subrange(from as int, s@.len() as int)) && v <= limit,
            None => !all_digits(s@.subrange(from as int, s@.len() as int)) || digits_value(
                s@.subrange(from as int, s@.len() as int),
            ) > limit,
        },
{
    let mut acc: u64 = 0;
    let mut i: usize = from;
    let mut over = false;
    while i < s.len()
        invariant
            from <= i <= s@.len(),
            limit >= 9,
            all_digits(s@.subrange(from as int, i as int)),
            !over ==> acc as int == digits_value(s@.subrange(from as int, i as int)) && acc <= limit,
            over ==> digits_value(s@.subrange(from as int, i as int)) > limit,
        decreases s@.len() - i,
    {
        let c = s[i];
        let ghost prev = s@.subrange(from as int, i as int);
        let ghost next = s@.subrange(from as int, i + 1);
        assert(next.drop_last() =~= prev);
        if !('0' <= c && c <= '9') {
            assert(next.last() == c);
            proof {
                assert(!all_digits(s@.subrange(from as int, s@.len() as int))) by {
                    assert(s@.subrange(from as int, s@.len() as int)[i - from] == c);
                }
            }
            return None;
        }
        proof {
            assert(all_digits(next)) by {
                assert forall|j: int| 0 <= j < next.len() implies is_digit(#[trigger] next[j]) by {
                    if j < prev.len() {
                        assert(next[j] == prev[j]);
                    }
                }
            }
            lemma_digits_nonneg(prev);
        }
        let d = (c as u32 - '0' as u32) as u64;
        if !over {
            if acc > (limit - d) / 10 {
                over = true;
                proof {
                    assert(digits_value(next) == acc * 10 + d);
                    assert(acc * 10 + d > limit) by (nonlinear_arith)
                        requires
                            acc > (limit - d) / 10,
                            d <= 9,
                            d <= limit || true,
                            acc >= 0,
                    ;
                }
            } else {
                proof {
                    assert(acc * 10 + d <= limit) by (nonlinear_arith)
                        requires
                            acc <= (limit - d) / 10,
                            d <= limit,
                            acc >= 0,
                    ;
                }
                acc = acc * 10 + d;
            }
        } else {
            proof {
                lemma_digits_nonneg(prev);
                assert(digits_value(next) == digits_value(prev) * 10 + d);
                assert(digits_value(prev) * 10 + d > limit) by (nonlinear_arith)
                    requires
                        digits_value(prev) > limit,
                        d >= 0,
                        limit >= 0,
                ;
            }
        }
        i += 1;
    }
    if over {
        None
    } else {
        Some(acc)
    }
}

/// Signed decimal of at most `limit` magnitude: `(negative, magnitude)`.
fn signed_digits(s: &[char], limit: u64) -> (r: Option<(bool, u64)>)
    requires
        limit >= 9,
    ensures
        match r {
            Some((neg, m)) => decimal(s@) == Some(if neg {
                -(m as int)
            } else {
                m as int
            }) && m <= limit && (neg <==> s@[0] == '-') && s@.len() > 0,
            None => match decimal(s@) {
                Some(v) => (s@[0] == '-' && -v > limit) || (s@[0] != '-' && v > limit),
                None => true,
            },
        },
{
    if s.len() == 0 {
        return None;
    }
    let signed = s[0] == '+' || s[0] == '-';
    let neg = s[0] == '-';
    let from: usize = if signed {
        1
    } else {
        0
    };
    if from >= s.len() {
        return None;
    }
    proof {
        assert(s@.subrange(from as int, s@.len() as int) =~= if signed {
            s@.drop_first()
        } else {
            s@
        });
    }
    match digits_upto(s, from, limit) {
        Some(m) => Some((neg, m)),
        None => None,
    }
}

/// `u32::from_str`.
pub fn parse_u32(s: &str) -> (r: Option<u32>)
    ensures
        r == parse_u32_spec(s@),
{
    let v = chars(s);
    match signed_digits(v.as_slice(), 0xffff_ffff) {
        Some((neg, m)) => {
            if neg {
                None
            } else {
                Some(m as u32)
            }
        },
        None => None,
    }
}

/// `u64::from_str`.
pub fn parse_u64(s: &str) -> (r: Option<u64>)
    ensures
        r == parse_u64_spec(s@),
{
    let v = chars(s);
    match signed_digits(v.as_slice(), 0xffff_ffff_ffff_ffff) {
        Some((neg, m)) => {
            if neg {
                None
            } else {
                Some(m)
            }
        },
        None => None,
    }
}

/// `i32::from_str`.
pub fn parse_i32(s: &str) -> (r: Option<i32>)
    ensures
        r == parse_i32_spec(s@),
{
    let v = chars(s);
    match signed_digits(v.as_slice(), 0x8000_0000) {
        Some((neg, m)) => {
            if neg {
                Some((-(m as i64)) as i32)
            } else if m <= 0x7fff_ffff {
                Some(m as i32)
            } else {
                None
            }
        },
        None => None,
    }
}

/// Whether `i64::from_str` accepts `s`.
pub fn parses_as_i64(s: &str) -> (r: bool)
    ensures
        r == parse_i64_spec(s@).is_some(),
{
    let v = chars(s);
    match signed_digits(v.as_slice(), 0x8000_0000_0000_0000) {
        Some((neg, m)) => neg || m <= 0x7fff_ffff_ffff_ffff,
        None => false,
    }
}

/// The character of decimal digit `d`.
pub open spec fn digit_char(d: nat) -> char {
    ((d + 48) as u8) as char
}

/// Decimal digits of `n`, most significant first, without a sign.
pub open spec fn dec(n: nat) -> Seq<char>
    decreases n,
{
    if n < 10 {
        seq![digit_char(n)]
    } else {
        dec(n / 10).push(digit_char(n % 10))
    }
}

/// How `Display` writes an integer.
pub open spec fn int_text(n: int) -> Seq<char> {
    if n < 0 {
        seq!['-'] + dec((-n) as nat)
    } else {
        dec(n as nat)
    }
}

/// The decimal text of `n`.
pub fn fmt_u64(n: u64) -> (r: String)
    ensures
        r@ == dec(n as nat),
    decreases n,
{
    let d = ((n % 10) as u8 + 48u8) as char;
    assert(d == digit_char((n % 10) as nat));
    if n < 10 {
        let mut r = String::new();
        push_char(&mut r, d);
        assert(r@ =~= dec(n as nat));
        r
    } else {
        let mut r = fmt_u64(n / 10);
        push_char(&mut r, d);
        r
    }
}

/// The decimal text of `n`, with a `-` when negative.
pub fn fmt_i64(n: i64) -> (r: String)
    ensures
        r@ == int_text(n as int),
{
    if n < 0 {
        let m: u64 = if n == i64::MIN {
            0x8000_0000_0000_0000u64
        } else {
            (-n) as u64
        };
        let digits = fmt_u64(m);
        let r = cat("-", digits.as_str());
        proof {
            reveal_strlit("-");
        }
        assert(r@ =~= int_text(n as int));
        r
    } else {
        fmt_u64(n as u64)
    }
}

/// The decimal text of `n`.
pub fn fmt_u128(n: u128) -> (r: String)
    ensures
        r@ == dec(n as nat),
    decreases n,
{
    let d = ((n % 10) as u8 + 48u8) as char;
    assert(d == digit_char((n % 10) as nat));
    if n < 10 {
        let mut r = String::new();
        push_char(&mut r, d);
        assert(r@ =~= dec(n as nat));
        r
    } else {
        let mut r = fmt_u128(n / 10);
        push_char(&mut r, d);
        r
    }
}

/// The decimal text of `n`, with a `-` when negative.
pub fn fmt_i128(n: i128) -> (r: String)
    ensures
        r@ == int_text(n as int),
{
    if n < 0 {
        let m: u128 = if n == i128::MIN {
            0x8000_0000_0000_0000_0000_0000_0000_0000u128
        } else {
            (-n) as u128
        };
        let digits = fmt_u128(m);
        let r = cat("-", digits.as_str());
        proof {
            reveal_strlit("-");
        }
        assert(r@ =~= int_text(n as int));
        r
    } else {
        fmt_u128(n as u128)
    }
}

} // verus!
