//! A graph: an optional base namespace, a prefix table, and an ordered
//! fact list. The graph owns canonicalization and hands queries off to the
//! query builder over a private copy, so querying never mutates the graph.

use vstd::prelude::*;
use crate::uri::{Uri, UriModel, UriType, Error, uri_resolved, table_view};
use crate::object::{Object, ObjectModel};
use crate::resource::Resource;
use crate::relationship::Relationship;
use crate::triple::{Triple, TripleModel, canon_triple, views_of, clone_triples};
use crate::querying::QueryBuilder;
use crate::reasoning::base::{BaseReasoner, inferred_spec};
use crate::reasoning::rdfs::{RDFSReasoner, rdfs_rules};

verus! {

/// A graph of facts with its namespace metadata. The prefix table maps
/// prefix tokens to their expansions; its keys are unique.
#[derive(Debug, PartialEq)]
pub struct Graph {
    pub base_prefix: Option<String>,
    pub prefixes: Vec<(String, String)>,
    pub triples: Vec<Triple>,
}

/// The mathematical value of a graph.
pub ghost struct GraphModel {
    pub base_prefix: Option<Seq<char>>,
    pub prefixes: Seq<(Seq<char>, Seq<char>)>,
    pub triples: Seq<TripleModel>,
}

impl View for Graph {
    type V = GraphModel;

    open spec fn view(&self) -> GraphModel {
        GraphModel {
            base_prefix: match self.base_prefix {
                Some(b) => Some(b@),
                None => None,
            },
            prefixes: table_view(self.prefixes@),
            triples: views_of(self.triples@),
        }
    }
}

/// The base namespace that canonicalization uses: the graph's base prefix,
/// or the empty namespace when none is set.
pub open spec fn base_text(g: GraphModel) -> Seq<char> {
    match g.base_prefix {
        Some(b) => b,
        None => Seq::empty(),
    }
}

/// An identifier that canonicalization can leave as it stands.
pub open spec fn triple_resolved(t: TripleModel) -> bool {
    &&& uri_resolved(t.subject)
    &&& uri_resolved(t.predicate)
    &&& (t.object matches ObjectModel::Resource(u) ==> uri_resolved(u))
}

/// Canonicalizing a fact resolves every identifier in it: afterwards only
/// `Full` and `BlankNode` kinds remain in any role.
pub proof fn lemma_canon_triple_resolved(
    t: TripleModel,
    base: Seq<char>,
    table: Seq<(Seq<char>, Seq<char>)>,
)
    ensures
        canon_triple(t, base, table) matches Ok(c) ==> triple_resolved(c),
{
}

/// Canonicalization resolves the whole graph: when every fact of a graph
/// canonicalizes without error — no undefined prefixes — the rewritten
/// fact list holds only `Full` and `BlankNode` identifiers; no identifier
/// keeps a `Relative`, `Prefixed` or `PrefixedWithBase` kind.
pub proof fn lemma_apply_metadata_resolves(
    ts: Seq<TripleModel>,
    cs: Seq<TripleModel>,
    base: Seq<char>,
    table: Seq<(Seq<char>, Seq<char>)>,
)
    requires
        cs.len() == ts.len(),
        forall|i: int|
            0 <= i < ts.len() ==> canon_triple(#[trigger] ts[i], base, table) == Ok::<
                TripleModel,
                Seq<char>,
            >(cs[i]),
    ensures
        forall|i: int| 0 <= i < cs.len() ==> triple_resolved(#[trigger] cs[i]),
{
    assert forall|i: int| 0 <= i < cs.len() implies triple_resolved(#[trigger] cs[i]) by {
        lemma_canon_triple_resolved(ts[i], base, table);
    }
}

/// The key that a prefix table's *last* entry with the given expansion
/// maps from: the reverse lookup that prefix compression uses.
pub open spec fn rev_lookup(table: Seq<(Seq<char>, Seq<char>)>, value: Seq<char>) -> Option<
    Seq<char>,
>
    decreases table.len(),
{
    if table.len() == 0 {
        None
    } else if table.last().1 == value {
        Some(table.last().0)
    } else {
        rev_lookup(table.drop_last(), value)
    }
}

/// What prefix compression does to one identifier: an identifier that is
/// not already `Prefixed` and whose prefix is some entry's expansion is
/// rewritten to that entry's token and becomes `Prefixed`; otherwise a
/// `PrefixedWithBase` identifier takes the base namespace as its prefix;
/// anything else passes through unchanged.
pub open spec fn compress_uri(
    u: UriModel,
    base: Seq<char>,
    table: Seq<(Seq<char>, Seq<char>)>,
) -> UriModel {
    if u.kind != UriType::Prefixed {
        match rev_lookup(table, u.prefix) {
            Some(key) => UriModel { prefix: key, name: u.name, kind: UriType::Prefixed },
            None => if u.kind == UriType::PrefixedWithBase {
                UriModel { prefix: base, name: u.name, kind: UriType::Prefixed }
            } else {
                u
            },
        }
    } else {
        u
    }
}

/// Prefix compression over one fact: each role's identifier is
/// compressed; a literal object passes through.
pub open spec fn compress_triple(
    t: TripleModel,
    base: Seq<char>,
    table: Seq<(Seq<char>, Seq<char>)>,
) -> TripleModel {
    TripleModel {
        subject: compress_uri(t.subject, base, table),
        predicate: compress_uri(t.predicate, base, table),
        object: match t.object {
            ObjectModel::Literal(l) => ObjectModel::Literal(l),
            ObjectModel::Resource(u) => ObjectModel::Resource(compress_uri(u, base, table)),
        },
    }
}

/// Prefix compression over a fact list, in order.
pub open spec fn compress_triples(
    ts: Seq<TripleModel>,
    base: Seq<char>,
    table: Seq<(Seq<char>, Seq<char>)>,
) -> Seq<TripleModel> {
    ts.map_values(|t: TripleModel| compress_triple(t, base, table))
}

/// Looks up the *last* table entry whose expansion equals `value`.
fn rev_get<'a>(prefixes: &'a Vec<(String, String)>, value: &str) -> (r: Option<&'a String>)
    ensures
        match r {
            Some(k) => rev_lookup(table_view(prefixes@), value@) == Some(k@),
            None => rev_lookup(table_view(prefixes@), value@) is None,
        },
{
    let ghost table = table_view(prefixes@);
    let mut i: usize = prefixes.len();
    proof {
        assert(table.take(prefixes@.len() as int) =~= table);
    }
    while i > 0
        invariant
            0 <= i <= prefixes@.len(),
            table == table_view(prefixes@),
            table.len() == prefixes@.len(),
            forall|k: int| 0 <= k < prefixes@.len() ==> table[k] == (prefixes@[k].0@, prefixes@[k].1@),
            rev_lookup(table, value@) == rev_lookup(table.take(i as int), value@),
        decreases i,
    {
        proof {
            assert(table.take(i as int).last() == table[i - 1]);
            assert(table.take(i as int).drop_last() =~= table.take(i - 1));
        }
        if prefixes[i - 1].1 == value.to_owned() {
            return Some(&prefixes[i - 1].0);
        }
        i = i - 1;
    }
    proof {
        assert(table.take(0) =~= Seq::<(Seq<char>, Seq<char>)>::empty());
    }
    None
}

/// Compresses one identifier, per `compress_uri`.
fn compress_uri_exec(u: &Uri, base: &str, prefixes: &Vec<(String, String)>) -> (r: Uri)
    ensures
        r@ == compress_uri(u@, base@, table_view(prefixes@)),
{
    if u.uri_type != UriType::Prefixed {
        match rev_get(prefixes, u.prefix.as_str()) {
            Some(key) => Uri { prefix: key.clone(), name: u.name.clone(), uri_type: UriType::Prefixed },
            None => {
                if u.uri_type == UriType::PrefixedWithBase {
                    Uri { prefix: base.to_owned(), name: u.name.clone(), uri_type: UriType::Prefixed }
                } else {
                    u.clone()
                }
            },
        }
    } else {
        u.clone()
    }
}

impl Clone for Graph {
    fn clone(&self) -> (r: Self)
        ensures
            r.base_prefix == self.base_prefix,
            r.prefixes@ == self.prefixes@,
            r.triples@ == self.triples@,
    {
        let base_prefix = match &self.base_prefix {
            Some(b) => Some(b.clone()),
            None => None,
        };
        let mut prefixes: Vec<(String, String)> = Vec::new();
        let mut i: usize = 0;
        while i < self.prefixes.len()
            invariant
                0 <= i <= self.prefixes@.len(),
                prefixes@.len() == i,
                forall|k: int| 0 <= k < i ==> prefixes@[k] == self.prefixes@[k],
            decreases self.prefixes@.len() - i,
        {
            prefixes.push((self.prefixes[i].0.clone(), self.prefixes[i].1.clone()));
            i = i + 1;
        }
        proof {
            assert(prefixes@ =~= self.prefixes@);
        }
        Graph { base_prefix, prefixes, triples: clone_triples(&self.triples) }
    }
}

impl Graph {
    /// Canonicalizes the whole graph: rewrites every identifier of every
    /// fact to its canonical form under the graph's base namespace and
    /// prefix table. On an undefined, non-blank prefix the graph is left
    /// unchanged and the first offending token — facts in order, subject
    /// before predicate before object — comes back as the error.
    pub fn apply_metadata(&mut self) -> (r: Result<(), Error>)
        ensures
            final(self).base_prefix == old(self).base_prefix,
            final(self).prefixes == old(self).prefixes,
            match r {
                Ok(()) => {
                    &&& final(self).triples@.len() == old(self).triples@.len()
                    &&& forall|i: int|
                        0 <= i < old(self).triples@.len() ==> canon_triple(
                            #[trigger] old(self).triples@[i]@,
                            base_text(old(self)@),
                            old(self)@.prefixes,
                        ) == Ok::<TripleModel, Seq<char>>(final(self).triples@[i]@)
                },
                Err(Error::UnresolvedPrefix(p)) => {
                    &&& *final(self) == *old(self)
                    &&& exists|i: int|
                        0 <= i < old(self).triples@.len() && canon_triple(
                            #[trigger] old(self).triples@[i]@,
                            base_text(old(self)@),
                            old(self)@.prefixes,
                        ) == Err::<TripleModel, Seq<char>>(p@) && forall|m: int|
                            0 <= m < i ==> canon_triple(
                                #[trigger] old(self).triples@[m]@,
                                base_text(old(self)@),
                                old(self)@.prefixes,
                            ) is Ok
                },
            },
    {
        let base = match &self.base_prefix {
            Some(b) => b.clone(),
            None => String::new(),
        };
        let ghost base_view = base_text(old(self)@);
        let ghost table = old(self)@.prefixes;
        let mut out: Vec<Triple> = Vec::new();
        let mut i: usize = 0;
        while i < self.triples.len()
            invariant
                0 <= i <= self.triples@.len(),
                *self == *old(self),
                base@ == base_view,
                base_view == base_text(old(self)@),
                table == old(self)@.prefixes,
                out@.len() == i,
                forall|m: int|
                    0 <= m < i ==> canon_triple(
                        #[trigger] self.triples@[m]@,
                        base_view,
                        table,
                    ) == Ok::<TripleModel, Seq<char>>(out@[m]@),
            decreases self.triples@.len() - i,
        {
            let mut t = self.triples[i].clone();
            match t.apply_graph_prefixes(base.as_str(), &self.prefixes) {
                Ok(()) => {
                    out.push(t);
                },
                Err(e) => {
                    return Err(e);
                },
            }
            i = i + 1;
        }
        self.triples = out;
        Ok(())
    }

    /// Rewrites every identifier of every fact into prefixed form where
    /// the prefix table allows it, per `compress_triple`: the
    /// normalization that querying applies before matching on prefixed
    /// texts.
    pub fn apply_prefixes(&mut self)
        ensures
            final(self).base_prefix == old(self).base_prefix,
            final(self).prefixes == old(self).prefixes,
            views_of(final(self).triples@) == compress_triples(
                views_of(old(self).triples@),
                base_text(old(self)@),
                old(self)@.prefixes,
            ),
    {
        let base = match &self.base_prefix {
            Some(b) => b.clone(),
            None => String::new(),
        };
        let ghost base_view = base_text(old(self)@);
        let ghost table = old(self)@.prefixes;
        let mut out: Vec<Triple> = Vec::new();
        let mut i: usize = 0;
        while i < self.triples.len()
            invariant
                0 <= i <= self.triples@.len(),
                *self == *old(self),
                base@ == base_view,
                base_view == base_text(old(self)@),
                table == old(self)@.prefixes,
                out@.len() == i,
                forall|m: int|
                    0 <= m < i ==> #[trigger] out@[m]@ == compress_triple(
                        self.triples@[m]@,
                        base_view,
                        table,
                    ),
            decreases self.triples@.len() - i,
        {
            let t = &self.triples[i];
            let subject = compress_uri_exec(&t.subject.0, base.as_str(), &self.prefixes);
            let predicate = compress_uri_exec(&t.predicate.0, base.as_str(), &self.prefixes);
            let object = match &t.object {
                Object::Literal(l) => Object::Literal(l.clone()),
                Object::Resource(u) => Object::Resource(
                    compress_uri_exec(u, base.as_str(), &self.prefixes),
                ),
            };
            out.push(
                Triple { subject: Resource(subject), predicate: Relationship(predicate), object },
            );
            i = i + 1;
        }
        self.triples = out;
        proof {
            assert(views_of(self.triples@) =~= compress_triples(
                views_of(old(self).triples@),
                base_view,
                table,
            ));
        }
    }

    /// Starts a query at the given entailment depth: works on a private
    /// copy of the graph — the graph itself is borrowed immutably and
    /// never changes — normalizes the copy's identifiers into prefixed
    /// form, runs the RDFS closure on its facts, and hands the original
    /// facts followed by the newly inferred ones to a query builder.
    pub fn start_query(&self, inference_depth: usize) -> (r: QueryBuilder)
        ensures
            views_of(r@) == compress_triples(
                views_of(self.triples@),
                base_text(self@),
                self@.prefixes,
            ) + inferred_spec(
                rdfs_rules(),
                compress_triples(views_of(self.triples@), base_text(self@), self@.prefixes),
                inference_depth as nat,
            ),
    {
        let mut graph = self.clone();
        graph.apply_prefixes();
        let mut new_triples = RDFSReasoner::get_inferred_triples(
            clone_triples(&graph.triples),
            inference_depth,
        );
        let ghost graph_view = views_of(graph.triples@);
        let ghost new_view = new_triples@;
        graph.triples.append(&mut new_triples);
        proof {
            crate::triple::lemma_views_concat(graph.triples@.take(graph_view.len() as int), new_view);
            assert(views_of(graph.triples@) =~= compress_triples(
                views_of(self.triples@),
                base_text(self@),
                self@.prefixes,
            ) + inferred_spec(
                rdfs_rules(),
                compress_triples(views_of(self.triples@), base_text(self@), self@.prefixes),
                inference_depth as nat,
            ));
        }
        QueryBuilder::start(graph.triples)
    }
}

} // verus!
