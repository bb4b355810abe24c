//! The object position of a fact: either a literal value or a resource
//! identifier.

use vstd::prelude::*;
use crate::uri::{Uri, UriModel, UriType, uri_text};

verus! {

/// A literal value together with its datatype and an optional language tag.
/// `value` keeps the original quoting as produced by the source text.
#[derive(Debug, PartialEq, Eq)]
pub struct Literal {
    pub value: String,
    pub datatype: Uri,
    pub language: Option<String>,
}

/// The mathematical value of a literal.
pub ghost struct LiteralModel {
    pub value: Seq<char>,
    pub datatype: UriModel,
    pub language: Option<Seq<char>>,
}

impl View for Literal {
    type V = LiteralModel;

    open spec fn view(&self) -> LiteralModel {
        LiteralModel {
            value: self.value@,
            datatype: self.datatype@,
            language: match self.language {
                Some(lang) => Some(lang@),
                None => None,
            },
        }
    }
}

/// The literal that a plain string value denotes: datatype `xsd:string`,
/// no language tag.
pub open spec fn plain_literal(value: Seq<char>) -> LiteralModel {
    LiteralModel {
        value,
        datatype: UriModel { prefix: "xsd:"@, name: "string"@, kind: UriType::Prefixed },
        language: None,
    }
}

/// The canonical textual form of a literal: `value^^datatype`, followed by
/// `@language` when a language tag is present.
pub open spec fn literal_text(l: LiteralModel) -> Seq<char> {
    match l.language {
        Some(lang) => l.value + "^^"@ + uri_text(l.datatype) + "@"@ + lang,
        None => l.value + "^^"@ + uri_text(l.datatype),
    }
}

impl Clone for Literal {
    fn clone(&self) -> (r: Self)
        ensures
            r == *self,
    {
        Literal {
            value: self.value.clone(),
            datatype: self.datatype.clone(),
            language: match &self.language {
                Some(lang) => Some(lang.clone()),
                None => None,
            },
        }
    }
}

impl Literal {
    /// The canonical textual form of the literal.
    pub fn to_text(&self) -> (r: String)
        ensures
            r@ == literal_text(self@),
    {
        let base = self.value.clone().concat("^^").concat(self.datatype.to_text().as_str());
        match &self.language {
            Some(lang) => base.concat("@").concat(lang.as_str()),
            None => base,
        }
    }

    /// A plain string literal: the datatype defaults to `xsd:string` and no
    /// language tag is attached.
    pub fn from_value(value: &str) -> (r: Literal)
        ensures
            r@ == plain_literal(value@),
    {
        Literal {
            value: value.to_owned(),
            datatype: Uri::new("xsd:", "string", UriType::Prefixed),
            language: None,
        }
    }

    /// Structural equality of literals: same value, datatype and language.
    pub fn same_as(&self, other: &Literal) -> (r: bool)
        ensures
            r == (self@ == other@),
    {
        self.value == other.value && self.datatype.same_as(&other.datatype) && match (
            &self.language,
            &other.language,
        ) {
            (Some(a), Some(b)) => *a == *b,
            (None, None) => true,
            _ => false,
        }
    }
}

impl From<&str> for Literal {
    /// A plain string literal, as `Literal::from_value`.
    fn from(value: &str) -> (r: Literal)
        ensures
            r@ == plain_literal(value@),
    {
        Literal::from_value(value)
    }
}

impl vstd::std_specs::convert::FromSpecImpl<&str> for Literal {
    open spec fn obeys_from_spec() -> bool {
        false
    }

    open spec fn from_spec(value: &str) -> Self {
        (choose|l: Literal| l@ == plain_literal(value@))
    }
}

/// What stands in the object role of a fact.
#[derive(Debug, PartialEq, Eq)]
pub enum Object {
    Literal(Literal),
    Resource(Uri),
}

/// The mathematical value of an object.
pub ghost enum ObjectModel {
    Literal(LiteralModel),
    Resource(UriModel),
}

impl View for Object {
    type V = ObjectModel;

    open spec fn view(&self) -> ObjectModel {
        match self {
            Object::Literal(l) => ObjectModel::Literal(l@),
            Object::Resource(u) => ObjectModel::Resource(u@),
        }
    }
}

/// The canonical textual form of an object.
pub open spec fn object_text(o: ObjectModel) -> Seq<char> {
    match o {
        ObjectModel::Literal(l) => literal_text(l),
        ObjectModel::Resource(u) => uri_text(u),
    }
}

impl Clone for Object {
    fn clone(&self) -> (r: Self)
        ensures
            r == *self,
    {
        match self {
            Object::Literal(l) => Object::Literal(l.clone()),
            Object::Resource(u) => Object::Resource(u.clone()),
        }
    }
}

impl Object {
    pub fn is_literal(&self) -> (r: bool)
        ensures
            r == (self@ is Literal),
    {
        match self {
            Object::Literal(_) => true,
            _ => false,
        }
    }

    pub fn is_resource(&self) -> (r: bool)
        ensures
            r == (self@ is Resource),
    {
        match self {
            Object::Resource(_) => true,
            _ => false,
        }
    }

    pub fn literal(&self) -> (r: Option<&Literal>)
        ensures
            match r {
                Some(l) => self@ is Literal && l@ == self@->Literal_0,
                None => !(self@ is Literal),
            },
    {
        match self {
            Object::Literal(l) => Some(l),
            _ => None,
        }
    }

    pub fn resource(&self) -> (r: Option<&Uri>)
        ensures
            match r {
                Some(u) => self@ is Resource && u@ == self@->Resource_0,
                None => !(self@ is Resource),
            },
    {
        match self {
            Object::Resource(u) => Some(u),
            _ => None,
        }
    }

    /// The canonical textual form of the object.
    pub fn to_text(&self) -> (r: String)
        ensures
            r@ == object_text(self@),
    {
        match self {
            Object::Literal(l) => l.to_text(),
            Object::Resource(u) => u.to_text(),
        }
    }

    /// Structural equality of objects: both literals and equal, or both
    /// resources and equal.
    pub fn same_as(&self, other: &Object) -> (r: bool)
        ensures
            r == (self@ == other@),
    {
        match (self, other) {
            (Object::Literal(a), Object::Literal(b)) => a.same_as(b),
            (Object::Resource(a), Object::Resource(b)) => a.same_as(b),
            _ => false,
        }
    }
}

} // verus!
