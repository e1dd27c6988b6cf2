//! A label that is built on first use, and can be looked at without
//! building it.
use vstd::prelude::*;

use crate::text::own;

verus! {

/// The text of the label.
pub open spec fn label_text() -> Seq<char> {
    seq!['f', 'i', 'x', 't', 'u', 'r', 'e']
}

/// The label, built the first time it is forced.
pub struct Label {
    built: Option<String>,
}

impl Label {
    #[verifier::type_invariant]
    closed spec fn holds_the_text(self) -> bool {
        self.built matches Some(l) ==> l@ == label_text()
    }

    /// Whether the label has been built.
    pub closed spec fn initialized(self) -> bool {
        self.built is Some
    }

    pub fn new() -> (r: Self)
        ensures
            !r.initialized(),
    {
        Label { built: None }
    }
}

/// The label only when another caller has already built it.
pub fn peek_label(cell: &Label) -> (r: Option<String>)
    ensures
        r is Some <==> cell.initialized(),
        r matches Some(l) ==> l@ == label_text(),
{
    proof {
        use_type_invariant(cell);
    }
    match &cell.built {
        Some(l) => Some(own(l.as_str())),
        None => None,
    }
}

/// Builds the label if it was not built yet, and returns it.
pub fn label(cell: &mut Label) -> (r: String)
    ensures
        r@ == label_text(),
        final(cell).initialized(),
{
    proof {
        use_type_invariant(&*cell);
    }
    match &cell.built {
        Some(l) => own(l.as_str()),
        None => {
            proof {
                reveal_strlit("fixture");
                assert("fixture"@ =~= label_text());
            }
            let l = own("fixture");
            cell.built = Some(own(l.as_str()));
            l
        },
    }
}

} // verus!
