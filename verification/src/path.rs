//! Paths as text, joined the way `Path::join` joins them.
use vstd::prelude::*;

use crate::text::{cat, cat3, chars, own, starts_with, ends_with, is_prefix, is_suffix};

verus! {

/// `Path::join`: an absolute `b` replaces `a`; otherwise `b` goes under `a`,
/// with one separator between them.
pub open spec fn join_spec(a: Seq<char>, b: Seq<char>) -> Seq<char> {
    if is_prefix("/"@, b) || a.len() == 0 {
        b
    } else if is_suffix("/"@, a) {
        a + b
    } else {
        a + "/"@ + b
    }
}

pub fn join(a: &str, b: &str) -> (r: String)
    ensures
        r@ == join_spec(a@, b@),
{
    if starts_with(b, "/") || a.unicode_len() == 0 {
        own(b)
    } else if ends_with(a, "/") {
        cat(a, b)
    } else {
        cat3(a, "/", b)
    }
}

} // verus!
