//! One entailment rule: an arity-checked guard plus a production. The
//! thirteen RDF-Schema rules are a fixed tagged set, so the rule table is
//! exhaustively matchable; guards compare the canonical texts of the
//! identifiers involved, and productions build the derived facts directly.

use vstd::prelude::*;
use crate::uri::{Uri, UriModel, UriType, uri_text};
use crate::object::{Object, ObjectModel, object_text};
use crate::resource::Resource;
use crate::relationship::Relationship;
use crate::triple::{Triple, TripleModel, views_of};

verus! {

/// Which of the thirteen RDF-Schema entailment rules a rule value stands
/// for.
#[derive(Debug, Clone, Copy, PartialEq, Eq, Structural)]
pub enum RuleKind {
    Rdfs1,
    Rdfs2,
    Rdfs3,
    Rdfs4,
    Rdfs5,
    Rdfs6,
    Rdfs7,
    Rdfs8,
    Rdfs9,
    Rdfs10,
    Rdfs11,
    Rdfs12,
    Rdfs13,
}

/// An entailment rule: how many facts its guard inspects, how many facts
/// its production emits, and which fixed rule it is.
#[derive(Debug, Clone, Copy, PartialEq, Eq, Structural)]
pub struct Entailment {
    pub input_length: usize,
    pub output_length: usize,
    pub kind: RuleKind,
}

/// The canonical text of a fact's predicate.
pub open spec fn predicate_text(t: TripleModel) -> Seq<char> {
    uri_text(t.predicate)
}

/// The canonical text of a fact's subject.
pub open spec fn subject_text(t: TripleModel) -> Seq<char> {
    uri_text(t.subject)
}

/// The canonical text of a fact's object.
pub open spec fn object_text_of(t: TripleModel) -> Seq<char> {
    object_text(t.object)
}

/// A prefixed identifier, as the rule productions write them.
pub open spec fn prefixed(p: Seq<char>, n: Seq<char>) -> UriModel {
    UriModel { prefix: p, name: n, kind: UriType::Prefixed }
}

/// The `rdf:type` predicate.
pub open spec fn rdf_type_uri() -> UriModel {
    prefixed("rdf:"@, "type"@)
}

/// The `rdfs:subPropertyOf` predicate.
pub open spec fn sub_property_of_uri() -> UriModel {
    prefixed("rdfs:"@, "subPropertyOf"@)
}

/// The `rdfs:subClassOf` predicate.
pub open spec fn sub_class_of_uri() -> UriModel {
    prefixed("rdfs:"@, "subClassOf"@)
}

/// The `rdfs:Resource` class.
pub open spec fn rdfs_resource_uri() -> UriModel {
    prefixed("rdfs:"@, "Resource"@)
}

/// How many facts the guard of a rule inspects.
pub open spec fn kind_input_arity(kind: RuleKind) -> int {
    match kind {
        RuleKind::Rdfs1 => 1,
        RuleKind::Rdfs2 => 2,
        RuleKind::Rdfs3 => 2,
        RuleKind::Rdfs4 => 1,
        RuleKind::Rdfs5 => 2,
        RuleKind::Rdfs6 => 1,
        RuleKind::Rdfs7 => 2,
        RuleKind::Rdfs8 => 1,
        RuleKind::Rdfs9 => 2,
        RuleKind::Rdfs10 => 1,
        RuleKind::Rdfs11 => 2,
        RuleKind::Rdfs12 => 1,
        RuleKind::Rdfs13 => 1,
    }
}

/// How many facts the production of a rule emits.
pub open spec fn kind_output_arity(kind: RuleKind) -> int {
    match kind {
        RuleKind::Rdfs1 => 2,
        RuleKind::Rdfs4 => 2,
        _ => 1,
    }
}

/// A rule value whose declared arities agree with its kind. The fixed rule
/// table only holds such values; a mismatched value would make the arity
/// assertion in `apply` fail, which signals a defect in the rule table.
pub open spec fn rule_wf(r: Entailment) -> bool {
    &&& r.input_length == kind_input_arity(r.kind)
    &&& r.output_length == kind_output_arity(r.kind)
}

/// The guard of each rule: whether the given facts (one or two, in order)
/// trigger the rule. Two facts are "the same predicate" for rule matching
/// exactly when their canonical texts match. Binary rules accept their two
/// facts in either order.
pub open spec fn spec_guard(kind: RuleKind, input: Seq<TripleModel>) -> bool {
    match kind {
        RuleKind::Rdfs1 => input.len() == 1 && input[0].object is Literal,
        RuleKind::Rdfs2 => input.len() == 2 && {
            let a = input[0];
            let b = input[1];
            if predicate_text(a) == "rdfs:domain"@ {
                predicate_text(b) == subject_text(a) && a.object is Resource
            } else if predicate_text(b) == "rdfs:domain"@ {
                predicate_text(a) == subject_text(b) && b.object is Resource
            } else {
                false
            }
        },
        RuleKind::Rdfs3 => input.len() == 2 && {
            let a = input[0];
            let b = input[1];
            if predicate_text(a) == "rdfs:range"@ {
                predicate_text(b) == subject_text(a) && a.object is Resource && b.object is Resource
            } else if predicate_text(b) == "rdfs:range"@ {
                predicate_text(a) == subject_text(b) && b.object is Resource && a.object is Resource
            } else {
                false
            }
        },
        RuleKind::Rdfs4 => input.len() == 1 && input[0].object is Resource,
        RuleKind::Rdfs5 => input.len() == 2 && {
            let a = input[0];
            let b = input[1];
            &&& predicate_text(a) == "rdfs:subPropertyOf"@
            &&& predicate_text(b) == "rdfs:subPropertyOf"@
            &&& (object_text_of(a) == subject_text(b) || object_text_of(b) == subject_text(a))
        },
        RuleKind::Rdfs6 => input.len() == 1 && predicate_text(input[0]) == "rdf:type"@
            && object_text_of(input[0]) == "rdf:Property"@,
        RuleKind::Rdfs7 => input.len() == 2 && {
            let a = input[0];
            let b = input[1];
            if predicate_text(a) == "rdfs:subPropertyOf"@ {
                subject_text(a) == predicate_text(b) && a.object is Resource && b.object is Resource
            } else if predicate_text(b) == "rdfs:subPropertyOf"@ {
                subject_text(b) == predicate_text(a) && a.object is Resource && b.object is Resource
            } else {
                false
            }
        },
        RuleKind::Rdfs8 => input.len() == 1 && predicate_text(input[0]) == "rdf:type"@
            && object_text_of(input[0]) == "rdfs:Class"@,
        RuleKind::Rdfs9 => input.len() == 2 && {
            let a = input[0];
            let b = input[1];
            if predicate_text(a) == "rdfs:subClassOf"@ && predicate_text(b) == "rdf:type"@ {
                subject_text(a) == object_text_of(b)
            } else if predicate_text(b) == "rdfs:subClassOf"@ && predicate_text(a) == "rdf:type"@ {
                subject_text(b) == object_text_of(a)
            } else {
                false
            }
        },
        RuleKind::Rdfs10 => input.len() == 1 && predicate_text(input[0]) == "rdf:type"@
            && object_text_of(input[0]) == "rdfs:Class"@,
        RuleKind::Rdfs11 => input.len() == 2 && {
            let a = input[0];
            let b = input[1];
            &&& predicate_text(a) == "rdfs:subClassOf"@
            &&& predicate_text(b) == "rdfs:subClassOf"@
            &&& (object_text_of(a) == subject_text(b) || object_text_of(b) == subject_text(a))
        },
        RuleKind::Rdfs12 => input.len() == 1 && predicate_text(input[0]) == "rdf:type"@
            && object_text_of(input[0]) == "rdfs:ContainerMembershipProperty"@,
        RuleKind::Rdfs13 => input.len() == 1 && predicate_text(input[0]) == "rdf:type"@
            && object_text_of(input[0]) == "rdfs:Datatype"@,
    }
}

/// The production of each rule: the derived facts, in emission order.
/// Meaningful when the rule's guard holds of `input`.
pub open spec fn spec_produce(kind: RuleKind, input: Seq<TripleModel>) -> Seq<TripleModel> {
    match kind {
        RuleKind::Rdfs1 => {
            let a = input[0];
            let blank = prefixed("_:"@, "blank1"@);
            seq![
                TripleModel {
                    subject: blank,
                    predicate: rdf_type_uri(),
                    object: ObjectModel::Resource(a.object->Literal_0.datatype),
                },
                TripleModel {
                    subject: a.subject,
                    predicate: a.predicate,
                    object: ObjectModel::Resource(blank),
                },
            ]
        },
        RuleKind::Rdfs2 => {
            let a = input[0];
            let b = input[1];
            if predicate_text(a) == "rdfs:domain"@ {
                seq![
                    TripleModel {
                        subject: b.subject,
                        predicate: rdf_type_uri(),
                        object: ObjectModel::Resource(a.object->Resource_0),
                    },
                ]
            } else {
                seq![
                    TripleModel {
                        subject: a.subject,
                        predicate: rdf_type_uri(),
                        object: ObjectModel::Resource(b.object->Resource_0),
                    },
                ]
            }
        },
        RuleKind::Rdfs3 => {
            let a = input[0];
            let b = input[1];
            if predicate_text(a) == "rdfs:range"@ {
                seq![
                    TripleModel {
                        subject: b.object->Resource_0,
                        predicate: rdf_type_uri(),
                        object: ObjectModel::Resource(a.object->Resource_0),
                    },
                ]
            } else {
                seq![
                    TripleModel {
                        subject: a.object->Resource_0,
                        predicate: rdf_type_uri(),
                        object: ObjectModel::Resource(b.object->Resource_0),
                    },
                ]
            }
        },
        RuleKind::Rdfs4 => {
            let a = input[0];
            seq![
                TripleModel {
                    subject: a.subject,
                    predicate: rdf_type_uri(),
                    object: ObjectModel::Resource(rdfs_resource_uri()),
                },
                TripleModel {
                    subject: a.object->Resource_0,
                    predicate: rdf_type_uri(),
                    object: ObjectModel::Resource(rdfs_resource_uri()),
                },
            ]
        },
        RuleKind::Rdfs5 => {
            let a = input[0];
            let b = input[1];
            if subject_text(b) == object_text_of(a) {
                seq![
                    TripleModel {
                        subject: a.subject,
                        predicate: sub_property_of_uri(),
                        object: b.object,
                    },
                ]
            } else {
                seq![
                    TripleModel {
                        subject: b.subject,
                        predicate: sub_property_of_uri(),
                        object: a.object,
                    },
                ]
            }
        },
        RuleKind::Rdfs6 => {
            let a = input[0];
            seq![
                TripleModel {
                    subject: a.subject,
                    predicate: sub_property_of_uri(),
                    object: ObjectModel::Resource(a.subject),
                },
            ]
        },
        RuleKind::Rdfs7 => {
            let a = input[0];
            let b = input[1];
            if predicate_text(a) == "rdfs:subPropertyOf"@ {
                seq![
                    TripleModel {
                        subject: b.subject,
                        predicate: a.object->Resource_0,
                        object: b.object,
                    },
                ]
            } else {
                seq![
                    TripleModel {
                        subject: a.subject,
                        predicate: b.object->Resource_0,
                        object: a.object,
                    },
                ]
            }
        },
        RuleKind::Rdfs8 => {
            let a = input[0];
            seq![
                TripleModel {
                    subject: a.subject,
                    predicate: sub_class_of_uri(),
                    object: ObjectModel::Resource(rdfs_resource_uri()),
                },
            ]
        },
        RuleKind::Rdfs9 => {
            let a = input[0];
            let b = input[1];
            if predicate_text(a) == "rdfs:subClassOf"@ {
                seq![
                    TripleModel { subject: b.subject, predicate: rdf_type_uri(), object: a.object },
                ]
            } else {
                seq![
                    TripleModel { subject: a.subject, predicate: rdf_type_uri(), object: b.object },
                ]
            }
        },
        RuleKind::Rdfs10 => {
            let a = input[0];
            seq![
                TripleModel {
                    subject: a.subject,
                    predicate: sub_class_of_uri(),
                    object: ObjectModel::Resource(a.subject),
                },
            ]
        },
        RuleKind::Rdfs11 => {
            let a = input[0];
            let b = input[1];
            if subject_text(b) == object_text_of(a) {
                seq![
                    TripleModel {
                        subject: a.subject,
                        predicate: sub_class_of_uri(),
                        object: b.object,
                    },
                ]
            } else {
                seq![
                    TripleModel {
                        subject: b.subject,
                        predicate: sub_class_of_uri(),
                        object: a.object,
                    },
                ]
            }
        },
        RuleKind::Rdfs12 => {
            let a = input[0];
            seq![
                TripleModel {
                    subject: a.subject,
                    predicate: sub_property_of_uri(),
                    object: ObjectModel::Resource(prefixed("rdfs:"@, "member"@)),
                },
            ]
        },
        RuleKind::Rdfs13 => {
            let a = input[0];
            seq![
                TripleModel {
                    subject: a.subject,
                    predicate: sub_class_of_uri(),
                    object: ObjectModel::Resource(prefixed("rdfs:"@, "Literal"@)),
                },
            ]
        },
    }
}

/// Whether a rule fires on the given facts: the fact count must equal the
/// rule's declared input arity and the guard must accept them.
pub open spec fn spec_verify(r: Entailment, input: Seq<TripleModel>) -> bool {
    input.len() == r.input_length && spec_guard(r.kind, input)
}

/// What `apply` returns: the production when the rule fires, nothing
/// otherwise.
pub open spec fn spec_apply(r: Entailment, input: Seq<TripleModel>) -> Seq<TripleModel> {
    if spec_verify(r, input) {
        spec_produce(r.kind, input)
    } else {
        Seq::empty()
    }
}

/// The production emits exactly the declared number of facts.
pub proof fn lemma_produce_arity(kind: RuleKind, input: Seq<TripleModel>)
    ensures
        spec_produce(kind, input).len() == kind_output_arity(kind),
{
}

impl Entailment {
    /// Whether this rule fires on the given facts: a fact count other than
    /// the rule's declared input arity never matches.
    pub fn verify(&self, input: &Vec<Triple>) -> (r: bool)
        ensures
            r == spec_verify(*self, views_of(input@)),
    {
        if input.len() == self.input_length {
            guard_exec(self.kind, input)
        } else {
            false
        }
    }

    /// The facts this rule derives from the given ones: its production when
    /// the rule fires, nothing otherwise. The production provably emits
    /// exactly `output_length` facts, so the arity check that a defective
    /// rule table would trip cannot fail here.
    pub fn apply(&self, input: &Vec<Triple>) -> (r: Vec<Triple>)
        requires
            rule_wf(*self),
        ensures
            views_of(r@) == spec_apply(*self, views_of(input@)),
            r@.len() == if spec_verify(*self, views_of(input@)) {
                self.output_length as int
            } else {
                0
            },
    {
        if self.verify(input) {
            let out = produce_exec(self.kind, input);
            proof {
                lemma_produce_arity(self.kind, views_of(input@));
            }
            out
        } else {
            let out = Vec::new();
            proof {
                assert(views_of(out@) =~= Seq::<TripleModel>::empty());
            }
            out
        }
    }
}

/// Runs the guard of one rule, comparing role texts.
fn guard_exec(kind: RuleKind, input: &Vec<Triple>) -> (r: bool)
    ensures
        r == spec_guard(kind, views_of(input@)),
{
    match kind {
        RuleKind::Rdfs1 => input.len() == 1 && input[0].object.is_literal(),
        RuleKind::Rdfs2 => input.len() == 2 && {
            let a = &input[0];
            let b = &input[1];
            if a.predicate.to_text() == String::from_str("rdfs:domain") {
                b.predicate.to_text() == a.subject.to_text() && a.object.is_resource()
            } else if b.predicate.to_text() == String::from_str("rdfs:domain") {
                a.predicate.to_text() == b.subject.to_text() && b.object.is_resource()
            } else {
                false
            }
        },
        RuleKind::Rdfs3 => input.len() == 2 && {
            let a = &input[0];
            let b = &input[1];
            if a.predicate.to_text() == String::from_str("rdfs:range") {
                b.predicate.to_text() == a.subject.to_text() && a.object.is_resource()
                    && b.object.is_resource()
            } else if b.predicate.to_text() == String::from_str("rdfs:range") {
                a.predicate.to_text() == b.subject.to_text() && b.object.is_resource()
                    && a.object.is_resource()
            } else {
                false
            }
        },
        RuleKind::Rdfs4 => input.len() == 1 && input[0].object.is_resource(),
        RuleKind::Rdfs5 => input.len() == 2 && {
            let a = &input[0];
            let b = &input[1];
            a.predicate.to_text() == String::from_str("rdfs:subPropertyOf")
                && b.predicate.to_text() == String::from_str("rdfs:subPropertyOf") && (
            a.object.to_text() == b.subject.to_text() || b.object.to_text() == a.subject.to_text())
        },
        RuleKind::Rdfs6 => input.len() == 1 && input[0].predicate.to_text() == String::from_str(
            "rdf:type",
        ) && input[0].object.to_text() == String::from_str("rdf:Property"),
        RuleKind::Rdfs7 => input.len() == 2 && {
            let a = &input[0];
            let b = &input[1];
            if a.predicate.to_text() == String::from_str("rdfs:subPropertyOf") {
                a.subject.to_text() == b.predicate.to_text() && a.object.is_resource()
                    && b.object.is_resource()
            } else if b.predicate.to_text() == String::from_str("rdfs:subPropertyOf") {
                b.subject.to_text() == a.predicate.to_text() && a.object.is_resource()
                    && b.object.is_resource()
            } else {
                false
            }
        },
        RuleKind::Rdfs8 => input.len() == 1 && input[0].predicate.to_text() == String::from_str(
            "rdf:type",
        ) && input[0].object.to_text() == String::from_str("rdfs:Class"),
        RuleKind::Rdfs9 => input.len() == 2 && {
            let a = &input[0];
            let b = &input[1];
            if a.predicate.to_text() == String::from_str("rdfs:subClassOf")
                && b.predicate.to_text() == String::from_str("rdf:type") {
                a.subject.to_text() == b.object.to_text()
            } else if b.predicate.to_text() == String::from_str("rdfs:subClassOf")
                && a.predicate.to_text() == String::from_str("rdf:type") {
                b.subject.to_text() == a.object.to_text()
            } else {
                false
            }
        },
        RuleKind::Rdfs10 => input.len() == 1 && input[0].predicate.to_text() == String::from_str(
            "rdf:type",
        ) && input[0].object.to_text() == String::from_str("rdfs:Class"),
        RuleKind::Rdfs11 => input.len() == 2 && {
            let a = &input[0];
            let b = &input[1];
            a.predicate.to_text() == String::from_str("rdfs:subClassOf") && b.predicate.to_text()
                == String::from_str("rdfs:subClassOf") && (a.object.to_text() == b.subject.to_text()
                || b.object.to_text() == a.subject.to_text())
        },
        RuleKind::Rdfs12 => input.len() == 1 && input[0].predicate.to_text() == String::from_str(
            "rdf:type",
        ) && input[0].object.to_text() == String::from_str("rdfs:ContainerMembershipProperty"),
        RuleKind::Rdfs13 => input.len() == 1 && input[0].predicate.to_text() == String::from_str(
            "rdf:type",
        ) && input[0].object.to_text() == String::from_str("rdfs:Datatype"),
    }
}

/// Runs the production of one rule whose guard holds.
fn produce_exec(kind: RuleKind, input: &Vec<Triple>) -> (r: Vec<Triple>)
    requires
        spec_guard(kind, views_of(input@)),
    ensures
        views_of(r@) == spec_produce(kind, views_of(input@)),
{
    let mut out: Vec<Triple> = Vec::new();
    match kind {
        RuleKind::Rdfs1 => {
            let a = &input[0];
            match &a.object {
                Object::Literal(l) => {
                    let blank = Uri::new("_:", "blank1", UriType::Prefixed);
                    out.push(
                        Triple {
                            subject: Resource(blank.clone()),
                            predicate: Relationship(Uri::new("rdf:", "type", UriType::Prefixed)),
                            object: Object::Resource(l.datatype.clone()),
                        },
                    );
                    out.push(
                        Triple {
                            subject: a.subject.clone(),
                            predicate: a.predicate.clone(),
                            object: Object::Resource(blank),
                        },
                    );
                },
                Object::Resource(_) => {
                    proof {
                        assert(false);
                    }
                },
            }
        },
        RuleKind::Rdfs2 => {
            let a = &input[0];
            let b = &input[1];
            if a.predicate.to_text() == String::from_str("rdfs:domain") {
                match &a.object {
                    Object::Resource(u) => {
                        out.push(
                            Triple {
                                subject: b.subject.clone(),
                                predicate: Relationship(
                                    Uri::new("rdf:", "type", UriType::Prefixed),
                                ),
                                object: Object::Resource(u.clone()),
                            },
                        );
                    },
                    Object::Literal(_) => {
                        proof {
                            assert(false);
                        }
                    },
                }
            } else {
                match &b.object {
                    Object::Resource(u) => {
                        out.push(
                            Triple {
                                subject: a.subject.clone(),
                                predicate: Relationship(
                                    Uri::new("rdf:", "type", UriType::Prefixed),
                                ),
                                object: Object::Resource(u.clone()),
                            },
                        );
                    },
                    Object::Literal(_) => {
                        proof {
                            assert(false);
                        }
                    },
                }
            }
        },
        RuleKind::Rdfs3 => {
            let a = &input[0];
            let b = &input[1];
            if a.predicate.to_text() == String::from_str("rdfs:range") {
                match (&a.object, &b.object) {
                    (Object::Resource(ua), Object::Resource(ub)) => {
                        out.push(
                            Triple {
                                subject: Resource(ub.clone()),
                                predicate: Relationship(
                                    Uri::new("rdf:", "type", UriType::Prefixed),
                                ),
                                object: Object::Resource(ua.clone()),
                            },
                        );
                    },
                    _ => {
                        proof {
                            assert(false);
                        }
                    },
                }
            } else {
                match (&a.object, &b.object) {
                    (Object::Resource(ua), Object::Resource(ub)) => {
                        out.push(
                            Triple {
                                subject: Resource(ua.clone()),
                                predicate: Relationship(
                                    Uri::new("rdf:", "type", UriType::Prefixed),
                                ),
                                object: Object::Resource(ub.clone()),
                            },
                        );
                    },
                    _ => {
                        proof {
                            assert(false);
                        }
                    },
                }
            }
        },
        RuleKind::Rdfs4 => {
            let a = &input[0];
            match &a.object {
                Object::Resource(u) => {
                    out.push(
                        Triple {
                            subject: a.subject.clone(),
                            predicate: Relationship(Uri::new("rdf:", "type", UriType::Prefixed)),
                            object: Object::Resource(
                                Uri::new("rdfs:", "Resource", UriType::Prefixed),
                            ),
                        },
                    );
                    out.push(
                        Triple {
                            subject: Resource(u.clone()),
                            predicate: Relationship(Uri::new("rdf:", "type", UriType::Prefixed)),
                            object: Object::Resource(
                                Uri::new("rdfs:", "Resource", UriType::Prefixed),
                            ),
                        },
                    );
                },
                Object::Literal(_) => {
                    proof {
                        assert(false);
                    }
                },
            }
        },
        RuleKind::Rdfs5 => {
            let a = &input[0];
            let b = &input[1];
            if b.subject.to_text() == a.object.to_text() {
                out.push(
                    Triple {
                        subject: a.subject.clone(),
                        predicate: Relationship(
                            Uri::new("rdfs:", "subPropertyOf", UriType::Prefixed),
                        ),
                        object: b.object.clone(),
                    },
                );
            } else {
                out.push(
                    Triple {
                        subject: b.subject.clone(),
                        predicate: Relationship(
                            Uri::new("rdfs:", "subPropertyOf", UriType::Prefixed),
                        ),
                        object: a.object.clone(),
                    },
                );
            }
        },
        RuleKind::Rdfs6 => {
            let a = &input[0];
            out.push(
                Triple {
                    subject: a.subject.clone(),
                    predicate: Relationship(Uri::new("rdfs:", "subPropertyOf", UriType::Prefixed)),
                    object: Object::Resource(a.subject.0.clone()),
                },
            );
        },
        RuleKind::Rdfs7 => {
            let a = &input[0];
            let b = &input[1];
            if a.predicate.to_text() == String::from_str("rdfs:subPropertyOf") {
                match &a.object {
                    Object::Resource(u) => {
                        out.push(
                            Triple {
                                subject: b.subject.clone(),
                                predicate: Relationship(u.clone()),
                                object: b.object.clone(),
                            },
                        );
                    },
                    Object::Literal(_) => {
                        proof {
                            assert(false);
                        }
                    },
                }
            } else {
                match &b.object {
                    Object::Resource(u) => {
                        out.push(
                            Triple {
                                subject: a.subject.clone(),
                                predicate: Relationship(u.clone()),
                                object: a.object.clone(),
                            },
                        );
                    },
                    Object::Literal(_) => {
                        proof {
                            assert(false);
                        }
                    },
                }
            }
        },
        RuleKind::Rdfs8 => {
            let a = &input[0];
            out.push(
                Triple {
                    subject: a.subject.clone(),
                    predicate: Relationship(Uri::new("rdfs:", "subClassOf", UriType::Prefixed)),
                    object: Object::Resource(Uri::new("rdfs:", "Resource", UriType::Prefixed)),
                },
            );
        },
        RuleKind::Rdfs9 => {
            let a = &input[0];
            let b = &input[1];
            if a.predicate.to_text() == String::from_str("rdfs:subClassOf") {
                out.push(
                    Triple {
                        subject: b.subject.clone(),
                        predicate: Relationship(Uri::new("rdf:", "type", UriType::Prefixed)),
                        object: a.object.clone(),
                    },
                );
            } else {
                out.push(
                    Triple {
                        subject: a.subject.clone(),
                        predicate: Relationship(Uri::new("rdf:", "type", UriType::Prefixed)),
                        object: b.object.clone(),
                    },
                );
            }
        },
        RuleKind::Rdfs10 => {
            let a = &input[0];
            out.push(
                Triple {
                    subject: a.subject.clone(),
                    predicate: Relationship(Uri::new("rdfs:", "subClassOf", UriType::Prefixed)),
                    object: Object::Resource(a.subject.0.clone()),
                },
            );
        },
        RuleKind::Rdfs11 => {
            let a = &input[0];
            let b = &input[1];
            if b.subject.to_text() == a.object.to_text() {
                out.push(
                    Triple {
                        subject: a.subject.clone(),
                        predicate: Relationship(Uri::new("rdfs:", "subClassOf", UriType::Prefixed)),
                        object: b.object.clone(),
                    },
                );
            } else {
                out.push(
                    Triple {
                        subject: b.subject.clone(),
                        predicate: Relationship(Uri::new("rdfs:", "subClassOf", UriType::Prefixed)),
                        object: a.object.clone(),
                    },
                );
            }
        },
        RuleKind::Rdfs12 => {
            let a = &input[0];
            out.push(
                Triple {
                    subject: a.subject.clone(),
                    predicate: Relationship(Uri::new("rdfs:", "subPropertyOf", UriType::Prefixed)),
                    object: Object::Resource(Uri::new("rdfs:", "member", UriType::Prefixed)),
                },
            );
        },
        RuleKind::Rdfs13 => {
            let a = &input[0];
            out.push(
                Triple {
                    subject: a.subject.clone(),
                    predicate: Relationship(Uri::new("rdfs:", "subClassOf", UriType::Prefixed)),
                    object: Object::Resource(Uri::new("rdfs:", "Literal", UriType::Prefixed)),
                },
            );
        },
    }
    proof {
        assert(views_of(out@) =~= spec_produce(kind, views_of(input@)));
    }
    out
}

} // verus!
