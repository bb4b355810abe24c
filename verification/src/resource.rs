//! The subject position of a fact: an identifier used as a resource.

use vstd::prelude::*;
use crate::uri::{Uri, uri_text};

verus! {

/// An identifier standing in subject position.
#[derive(Debug, PartialEq, Eq)]
pub struct Resource(pub Uri);

impl Clone for Resource {
    fn clone(&self) -> (r: Self)
        ensures
            r == *self,
    {
        Resource(self.0.clone())
    }
}

impl From<Uri> for Resource {
    fn from(u: Uri) -> (r: Self)
        ensures
            r == Resource(u),
    {
        Resource(u)
    }
}

impl vstd::std_specs::convert::FromSpecImpl<Uri> for Resource {
    open spec fn obeys_from_spec() -> bool {
        true
    }

    open spec fn from_spec(u: Uri) -> Self {
        Resource(u)
    }
}

impl Resource {
    /// The canonical textual form of the underlying identifier.
    pub fn to_text(&self) -> (r: String)
        ensures
            r@ == uri_text(self.0@),
    {
        self.0.to_text()
    }
}

} // verus!
