//! The contract of a key-value store.
use vstd::prelude::*;

verus! {

/// Why a store refused a write.
#[derive(Debug, Clone, PartialEq, Eq)]
pub struct StoreError(pub String);

impl StoreError {
    /// What the error says.
    pub fn message(&self) -> (r: &str)
        ensures
            r@ == self.0@,
    {
        self.0.as_str()
    }
}

/// A store of byte values under text keys.
pub trait Store {
    fn write(&mut self, key: &str, value: &[u8]) -> Result<(), StoreError>;
}

} // verus!
