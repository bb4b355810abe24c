//! An in-memory RDF triple engine: it stores subject-predicate-object facts,
//! resolves their identifiers to a canonical absolute form, derives further
//! facts through depth-bounded RDF-Schema entailment, and answers pattern
//! queries over the combined fact set.

pub mod uri;
pub mod object;
pub mod resource;
pub mod relationship;
pub mod triple;
pub mod text;
pub mod graph;
pub mod querying;
pub mod parsing;
pub mod reasoning;
