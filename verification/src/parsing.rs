//! Parsing of the Turtle-style text format into the graph model: a
//! character-level tokenizer, a recursive triple parser that desugars
//! blank property lists and collections, and identifier, object and graph
//! parsers. The format is specified only at this interface: parsing
//! either returns the structured value or a recoverable error, never a
//! fatal condition.

pub mod turtle;

use vstd::prelude::*;

verus! {

/// A recoverable parse failure, carrying a human-readable diagnostic.
#[derive(Debug)]
pub struct ParserError(pub String);

} // verus!
