//! The entailment layer: a generic executor of guarded production rules,
//! the concrete RDF-Schema rule set, and the depth-bounded forward-chaining
//! closure over a fact set.

pub mod entailment;
pub mod order;
pub mod base;
pub mod rdfs;
