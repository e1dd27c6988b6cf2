//! A store written against the store contract, and the code that uses it
//! through that contract.
use vstd::prelude::*;

use crate::exercises::store_api::{Store, StoreError};
use crate::text::own;

verus! {

/// A store that keeps every write, in order.
pub struct DownstreamStore {
    writes: Vec<(String, Vec<u8>)>,
}

/// A write, as text and bytes.
pub open spec fn write_view(w: (String, Vec<u8>)) -> (Seq<char>, Seq<u8>) {
    (w.0@, w.1@)
}

impl DownstreamStore {
    /// The writes, oldest first.
    pub closed spec fn written(self) -> Seq<(Seq<char>, Seq<u8>)> {
        self.writes@.map_values(|w: (String, Vec<u8>)| write_view(w))
    }

    pub fn new() -> (r: Self)
        ensures
            r.written() == Seq::<(Seq<char>, Seq<u8>)>::empty(),
    {
        let r = DownstreamStore { writes: Vec::new() };
        assert(r.written() =~= Seq::<(Seq<char>, Seq<u8>)>::empty());
        r
    }

    /// How many writes the store has kept.
    pub fn len(&self) -> (r: usize)
        ensures
            r == self.written().len(),
    {
        self.writes.len()
    }
}

/// The bytes of `value`, copied.
fn bytes_of(value: &[u8]) -> (r: Vec<u8>)
    ensures
        r@ == value@,
{
    let mut r: Vec<u8> = Vec::new();
    let mut i: usize = 0;
    while i < value.len()
        invariant
            i <= value.len(),
            r@ == value@.subrange(0, i as int),
        decreases value.len() - i,
    {
        r.push(value[i]);
        i += 1;
        assert(r@ =~= value@.subrange(0, i as int));
    }
    r
}

impl Store for DownstreamStore {
    fn write(&mut self, key: &str, value: &[u8]) -> (r: Result<(), StoreError>)
        ensures
            r is Ok,
            final(self).written() == old(self).written().push((key@, value@)),
    {
        let entry = (own(key), bytes_of(value));
        self.writes.push(entry);
        assert(self.written() =~= old(self).written().push((key@, value@)));
        Ok(())
    }
}

/// What existing code does with a store: one write of `value` under `key`.
pub fn existing_consumer() -> (r: Result<DownstreamStore, StoreError>)
    ensures
        r matches Ok(store) && store.written() == seq![("key"@, seq![118u8, 97u8, 108u8, 117u8, 101u8])],
{
    let mut store = DownstreamStore::new();
    let value: Vec<u8> = vec![118u8, 97u8, 108u8, 117u8, 101u8];
    store.write("key", value.as_slice())?;
    assert(value@ =~= seq![118u8, 97u8, 108u8, 117u8, 101u8]);
    assert(store.written() =~= seq![("key"@, seq![118u8, 97u8, 108u8, 117u8, 101u8])]);
    Ok(store)
}

} // verus!
