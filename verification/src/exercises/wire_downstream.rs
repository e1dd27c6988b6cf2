//! An encoder written against the first release of the wire encoder
//! contract, which still builds and works against the current one.
use vstd::prelude::*;

use crate::exercises::wire_core::Encoder;

verus! {

/// The encoder that hands its input back unchanged.
pub struct Identity;

/// The bytes of `input`, copied.
fn copied(input: &[u8]) -> (r: Vec<u8>)
    ensures
        r@ == input@,
{
    let mut r: Vec<u8> = Vec::new();
    let mut i: usize = 0;
    while i < input.len()
        invariant
            i <= input.len(),
            r@ == input@.subrange(0, i as int),
        decreases input.len() - i,
    {
        r.push(input[i]);
        i += 1;
        assert(r@ =~= input@.subrange(0, i as int));
    }
    r
}

impl Encoder for Identity {
    fn encode(&mut self, input: &[u8]) -> (r: Vec<u8>)
        ensures
            r@ == input@,
    {
        copied(input)
    }
}

/// The encoder this release configures.
pub fn configured() -> (r: Identity)
    ensures
        r == Identity,
{
    Identity
}

} // verus!
