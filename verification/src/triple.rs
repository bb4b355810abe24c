//! A fact: subject, predicate and object. Equality of facts is derived from
//! their canonical printed form, not from field-wise comparison — two facts
//! are the same fact exactly when their canonical strings are
//! character-identical. This is a deliberate compatibility contract.

use vstd::prelude::*;
use crate::uri::{Uri, UriModel, UriType, Error, uri_text, canon_uri, table_view};
use crate::object::{Object, ObjectModel, object_text};
use crate::resource::Resource;
use crate::relationship::Relationship;

verus! {

/// An RDF fact. Typically constructed from a
/// (`Resource`, `Relationship`, `Object`) tuple with `.into()`.
#[derive(Debug)]
pub struct Triple {
    pub subject: Resource,
    pub predicate: Relationship,
    pub object: Object,
}

/// The mathematical value of a fact: the identifiers in its three roles.
pub ghost struct TripleModel {
    pub subject: UriModel,
    pub predicate: UriModel,
    pub object: ObjectModel,
}

impl View for Triple {
    type V = TripleModel;

    open spec fn view(&self) -> TripleModel {
        TripleModel { subject: self.subject.0@, predicate: self.predicate.0@, object: self.object@ }
    }
}

/// The mathematical values of a fact list.
pub open spec fn views_of(s: Seq<Triple>) -> Seq<TripleModel> {
    s.map_values(|t: Triple| t@)
}

/// Taking views commutes with concatenation.
pub proof fn lemma_views_concat(a: Seq<Triple>, b: Seq<Triple>)
    ensures
        views_of(a + b) == views_of(a) + views_of(b),
{
    assert(views_of(a + b) =~= views_of(a) + views_of(b));
}

/// The canonical printed form of a fact: `subject predicate object .`.
/// Fact equality, hashing and sort order all go by this text.
pub open spec fn triple_text(t: TripleModel) -> Seq<char> {
    uri_text(t.subject) + " "@ + uri_text(t.predicate) + " "@ + object_text(t.object) + " ."@
}

/// Whether a fact matches a pattern: each pattern role either is a blank
/// node (the sole wildcard mechanism) or must equal the fact's role
/// structurally; a literal pattern object matches only an equal literal.
pub open spec fn spec_matches(fact: TripleModel, pattern: TripleModel) -> bool {
    &&& (pattern.subject.kind == UriType::BlankNode || fact.subject == pattern.subject)
    &&& (pattern.predicate.kind == UriType::BlankNode || fact.predicate == pattern.predicate)
    &&& (match pattern.object {
        ObjectModel::Literal(pl) => fact.object matches ObjectModel::Literal(fl) && fl == pl,
        ObjectModel::Resource(pu) => pu.kind == UriType::BlankNode || (
        fact.object matches ObjectModel::Resource(fu) && fu == pu),
    })
}

/// Copies a fact list.
pub fn clone_triples(v: &Vec<Triple>) -> (r: Vec<Triple>)
    ensures
        r@ == v@,
{
    let mut out: Vec<Triple> = Vec::new();
    let mut i: usize = 0;
    while i < v.len()
        invariant
            0 <= i <= v@.len(),
            out@ == v@.take(i as int),
        decreases v@.len() - i,
    {
        out.push(v[i].clone());
        proof {
            assert(v@.take(i + 1) =~= v@.take(i as int).push(v@[i as int]));
        }
        i = i + 1;
    }
    proof {
        assert(v@.take(v@.len() as int) =~= v@);
    }
    out
}

/// Pattern matching is reflexive: a fully resolved fact with no
/// blank-node role matches itself as a pattern.
pub proof fn lemma_matches_reflexive(t: TripleModel)
    requires
        t.subject.kind == UriType::Full,
        t.predicate.kind == UriType::Full,
        t.object matches ObjectModel::Resource(u) ==> u.kind == UriType::Full,
    ensures
        spec_matches(t, t),
{
}

/// A pattern whose three roles are all blank nodes matches every fact.
pub proof fn lemma_matches_wildcard(fact: TripleModel, pattern: TripleModel)
    requires
        pattern.subject.kind == UriType::BlankNode,
        pattern.predicate.kind == UriType::BlankNode,
        pattern.object matches ObjectModel::Resource(u) && u.kind == UriType::BlankNode,
    ensures
        spec_matches(fact, pattern),
{
}

/// What canonicalization does to one fact: each role is canonicalized as an
/// identifier (a literal object passes through), and the first undefined
/// prefix — subject first, then predicate, then object — is the error.
pub open spec fn canon_triple(
    t: TripleModel,
    base: Seq<char>,
    table: Seq<(Seq<char>, Seq<char>)>,
) -> Result<TripleModel, Seq<char>> {
    match canon_uri(t.subject, base, table) {
        Err(p) => Err(p),
        Ok(s) => match canon_uri(t.predicate, base, table) {
            Err(p) => Err(p),
            Ok(pr) => match t.object {
                ObjectModel::Literal(l) => Ok(
                    TripleModel { subject: s, predicate: pr, object: ObjectModel::Literal(l) },
                ),
                ObjectModel::Resource(u) => match canon_uri(u, base, table) {
                    Err(p) => Err(p),
                    Ok(u2) => Ok(
                        TripleModel {
                            subject: s,
                            predicate: pr,
                            object: ObjectModel::Resource(u2),
                        },
                    ),
                },
            },
        },
    }
}

impl Triple {
    /// The canonical printed form, `subject predicate object .`.
    pub fn to_text(&self) -> (r: String)
        ensures
            r@ == triple_text(self@),
    {
        self.subject.to_text().concat(" ").concat(self.predicate.to_text().as_str()).concat(
            " ",
        ).concat(self.object.to_text().as_str()).concat(" .")
    }

    /// Whether this fact matches the given pattern, per `spec_matches`.
    pub fn matches_pattern(&self, other: &Triple) -> (r: bool)
        ensures
            r == spec_matches(self@, other@),
    {
        let subject_ok = other.subject.0.uri_type == UriType::BlankNode || self.subject.0.same_as(
            &other.subject.0,
        );
        let predicate_ok = other.predicate.0.uri_type == UriType::BlankNode
            || self.predicate.0.same_as(&other.predicate.0);
        let object_ok = match &other.object {
            Object::Literal(pl) => match &self.object {
                Object::Literal(fl) => fl.same_as(pl),
                _ => false,
            },
            Object::Resource(pu) => pu.uri_type == UriType::BlankNode || match &self.object {
                Object::Resource(fu) => fu.same_as(pu),
                _ => false,
            },
        };
        subject_ok && predicate_ok && object_ok
    }

    /// Rewrites every identifier of this fact to its canonical form under
    /// the graph's base namespace and prefix table. On an undefined,
    /// non-blank prefix the fact is left unchanged and the offending token
    /// is returned.
    pub fn apply_graph_prefixes(&mut self, base: &str, prefixes: &Vec<(String, String)>) -> (r:
        Result<(), Error>)
        ensures
            match r {
                Ok(()) => canon_triple(old(self)@, base@, table_view(prefixes@)) == Ok::<
                    TripleModel,
                    Seq<char>,
                >(final(self)@),
                Err(Error::UnresolvedPrefix(p)) => canon_triple(
                    old(self)@,
                    base@,
                    table_view(prefixes@),
                ) == Err::<TripleModel, Seq<char>>(p@) && *final(self) == *old(self),
            },
    {
        let subject = match self.subject.0.canonicalize(base, prefixes) {
            Ok(u) => u,
            Err(e) => {
                return Err(e);
            },
        };
        let predicate = match self.predicate.0.canonicalize(base, prefixes) {
            Ok(u) => u,
            Err(e) => {
                return Err(e);
            },
        };
        let object = match &self.object {
            Object::Literal(l) => Object::Literal(l.clone()),
            Object::Resource(u) => match u.canonicalize(base, prefixes) {
                Ok(u2) => Object::Resource(u2),
                Err(e) => {
                    return Err(e);
                },
            },
        };
        self.subject = Resource(subject);
        self.predicate = Relationship(predicate);
        self.object = object;
        Ok(())
    }
}

impl Clone for Triple {
    fn clone(&self) -> (r: Self)
        ensures
            r == *self,
    {
        Triple {
            subject: self.subject.clone(),
            predicate: self.predicate.clone(),
            object: self.object.clone(),
        }
    }
}

impl PartialEq for Triple {
    /// Facts are equal exactly when their canonical printed forms are.
    fn eq(&self, other: &Triple) -> (r: bool) {
        self.to_text() == other.to_text()
    }
}

impl vstd::std_specs::cmp::PartialEqSpecImpl for Triple {
    open spec fn obeys_eq_spec() -> bool {
        true
    }

    open spec fn eq_spec(&self, other: &Triple) -> bool {
        triple_text(self@) == triple_text(other@)
    }
}

impl From<(Resource, Relationship, Object)> for Triple {
    fn from(parts: (Resource, Relationship, Object)) -> (r: Triple)
        ensures
            r == (Triple { subject: parts.0, predicate: parts.1, object: parts.2 }),
    {
        let (subject, predicate, object) = parts;
        Triple { subject, predicate, object }
    }
}

impl vstd::std_specs::convert::FromSpecImpl<(Resource, Relationship, Object)> for Triple {
    open spec fn obeys_from_spec() -> bool {
        true
    }

    open spec fn from_spec(parts: (Resource, Relationship, Object)) -> Triple {
        Triple { subject: parts.0, predicate: parts.1, object: parts.2 }
    }
}

impl From<Triple> for (Resource, Relationship, Object) {
    fn from(t: Triple) -> (r: (Resource, Relationship, Object))
        ensures
            r == (t.subject, t.predicate, t.object),
    {
        (t.subject, t.predicate, t.object)
    }
}

impl vstd::std_specs::convert::FromSpecImpl<Triple> for (Resource, Relationship, Object) {
    open spec fn obeys_from_spec() -> bool {
        true
    }

    open spec fn from_spec(t: Triple) -> (Resource, Relationship, Object) {
        (t.subject, t.predicate, t.object)
    }
}

} // verus!
