//! What a call into a foreign parser hands back, judged before any of its
//! output is trusted: a failing status discards whatever was written, and
//! a reported length beyond the buffer is refused rather than read.
use vstd::prelude::*;

verus! {

/// Why a parse failed.
#[derive(Debug, PartialEq, Eq, Structural)]
pub enum ParserError {
    NullHandle,
    ForeignStatus(i32),
    InvalidWritten { written: usize, capacity: usize },
}

/// The outcome of a parse into `out`, a buffer of `out.len()` bytes, after
/// which the parser returned `status` and reported writing `written` bytes.
pub fn parse_outcome(status: i32, written: usize, out: Vec<u8>) -> (r: Result<Vec<u8>, ParserError>)
    ensures
        status != 0 ==> r == Err::<Vec<u8>, ParserError>(ParserError::ForeignStatus(status)),
        status == 0 && written > out.len() ==> r == Err::<Vec<u8>, ParserError>(
            ParserError::InvalidWritten { written, capacity: out.len() },
        ),
        status == 0 && written <= out.len() ==> (r matches Ok(bytes) && bytes@ == out@.subrange(0, written as int)),
{
    if status != 0 {
        return Err(ParserError::ForeignStatus(status));
    }
    let capacity = out.len();
    if written > capacity {
        return Err(ParserError::InvalidWritten { written, capacity });
    }
    let mut out = out;
    out.truncate(written);
    Ok(out)
}

/// What constructing a parser gives when the foreign constructor returned
/// a null handle, or a live one.
pub fn handle_outcome(null: bool) -> (r: Result<(), ParserError>)
    ensures
        null ==> r == Err::<(), ParserError>(ParserError::NullHandle),
        !null ==> r is Ok,
{
    if null {
        Err(ParserError::NullHandle)
    } else {
        Ok(())
    }
}

} // verus!
