//! The predicate position of a fact. Structurally the same as a resource;
//! the separate type keeps the role distinction in signatures.

use vstd::prelude::*;
use crate::uri::{Uri, uri_text};

verus! {

/// An identifier standing in predicate position.
#[derive(Debug, PartialEq, Eq)]
pub struct Relationship(pub Uri);

impl Clone for Relationship {
    fn clone(&self) -> (r: Self)
        ensures
            r == *self,
    {
        Relationship(self.0.clone())
    }
}

impl From<Uri> for Relationship {
    fn from(u: Uri) -> (r: Self)
        ensures
            r == Relationship(u),
    {
        Relationship(u)
    }
}

impl vstd::std_specs::convert::FromSpecImpl<Uri> for Relationship {
    open spec fn obeys_from_spec() -> bool {
        true
    }

    open spec fn from_spec(u: Uri) -> Self {
        Relationship(u)
    }
}

impl Relationship {
    /// The canonical textual form of the underlying identifier.
    pub fn to_text(&self) -> (r: String)
        ensures
            r@ == uri_text(self.0@),
    {
        self.0.to_text()
    }
}

} // verus!
