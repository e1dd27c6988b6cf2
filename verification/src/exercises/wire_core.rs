//! A wire encoder's contract, and the default label that is built on its
//! first use.
use vstd::prelude::*;

use crate::text::own;

verus! {

/// Why an encoder could not push out what it held back.
#[derive(Debug, PartialEq, Eq, Structural)]
pub struct EncodeError;

/// An encoder of byte strings.
pub trait Encoder {
    fn encode(&mut self, input: &[u8]) -> Vec<u8>;

    /// Pushes out what the encoder holds back. An encoder written before
    /// this method existed holds nothing back, so it has nothing to push.
    fn flush(&mut self) -> Result<(), EncodeError> {
        Ok(())
    }
}

/// The label an encoder goes by when none is given.
pub open spec fn default_label_text() -> Seq<char> {
    seq!['w', 'i', 'r', 'e']
}

/// The default label, built the first time it is asked for.
pub struct DefaultLabel {
    label: Option<String>,
}

impl DefaultLabel {
    #[verifier::type_invariant]
    closed spec fn holds_the_default(self) -> bool {
        self.label matches Some(l) ==> l@ == default_label_text()
    }

    /// Whether the label has been built.
    pub closed spec fn initialized(self) -> bool {
        self.label is Some
    }

    pub fn new() -> (r: Self)
        ensures
            !r.initialized(),
    {
        DefaultLabel { label: None }
    }
}

/// The default label, built now if it was not built yet.
pub fn default_label(cell: &mut DefaultLabel) -> (r: String)
    ensures
        r@ == default_label_text(),
        final(cell).initialized(),
{
    proof {
        use_type_invariant(&*cell);
    }
    match &cell.label {
        Some(label) => own(label.as_str()),
        None => {
            proof {
                reveal_strlit("wire");
                assert("wire"@ =~= default_label_text());
            }
            let label = own("wire");
            cell.label = Some(own(label.as_str()));
            label
        },
    }
}

/// Whether the default label has been built, without building it.
pub fn label_is_initialized(cell: &DefaultLabel) -> (r: bool)
    ensures
        r == cell.initialized(),
{
    cell.label.is_some()
}

} // verus!
