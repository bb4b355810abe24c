//! A chained, read-only filter layer over a resolved fact list. Every
//! filter is a stable retain: it keeps the surviving facts in their
//! original relative order.

use vstd::prelude::*;
use crate::triple::Triple;
use crate::uri::uri_text;
use crate::object::{Object, object_text};

verus! {

/// Keeps the facts selected by a decision sequence, in order: fact `i`
/// survives exactly when `keep[i]` holds.
pub open spec fn mask_filter(input: Seq<Triple>, keep: Seq<bool>) -> Seq<Triple>
    decreases input.len(),
{
    if input.len() == 0 {
        Seq::empty()
    } else {
        let rest = mask_filter(input.drop_last(), keep);
        if keep[input.len() - 1] {
            rest.push(input.last())
        } else {
            rest
        }
    }
}

/// Keeps the facts satisfying a predicate, in order.
pub open spec fn filter_triples(ts: Seq<Triple>, p: spec_fn(Triple) -> bool) -> Seq<Triple>
    decreases ts.len(),
{
    if ts.len() == 0 {
        Seq::empty()
    } else {
        let rest = filter_triples(ts.drop_last(), p);
        if p(ts.last()) {
            rest.push(ts.last())
        } else {
            rest
        }
    }
}

/// Only the decisions at the input's own indices matter.
pub proof fn lemma_mask_filter_prefix(input: Seq<Triple>, k1: Seq<bool>, k2: Seq<bool>)
    requires
        forall|i: int| 0 <= i < input.len() ==> k1[i] == k2[i],
    ensures
        mask_filter(input, k1) == mask_filter(input, k2),
    decreases input.len(),
{
    if input.len() > 0 {
        lemma_mask_filter_prefix(input.drop_last(), k1, k2);
    }
}

/// A decision sequence that mirrors a predicate filters exactly as the
/// predicate does.
pub proof fn lemma_mask_filter_matches(
    input: Seq<Triple>,
    keep: Seq<bool>,
    p: spec_fn(Triple) -> bool,
)
    requires
        forall|i: int| 0 <= i < input.len() ==> keep[i] == p(input[i]),
    ensures
        mask_filter(input, keep) == filter_triples(input, p),
    decreases input.len(),
{
    if input.len() > 0 {
        lemma_mask_filter_matches(input.drop_last(), keep, p);
    }
}

/// Filtering twice composes into filtering once by the conjunction:
/// keeping the facts whose subject text satisfies `p1` and then, of those,
/// the facts whose predicate text satisfies `p2`, returns exactly the facts
/// satisfying both at once — and, being a filter, preserves the original
/// relative order of the survivors.
pub proof fn lemma_query_chain(
    ts: Seq<Triple>,
    p1: spec_fn(Seq<char>) -> bool,
    p2: spec_fn(Seq<char>) -> bool,
)
    ensures
        filter_triples(
            filter_triples(ts, |t: Triple| p1(uri_text(t@.subject))),
            |t: Triple| p2(uri_text(t@.predicate)),
        ) == filter_triples(
            ts,
            |t: Triple| p1(uri_text(t@.subject)) && p2(uri_text(t@.predicate)),
        ),
    decreases ts.len(),
{
    let q1 = |t: Triple| p1(uri_text(t@.subject));
    let q2 = |t: Triple| p2(uri_text(t@.predicate));
    let q12 = |t: Triple| p1(uri_text(t@.subject)) && p2(uri_text(t@.predicate));
    if ts.len() == 0 {
        assert(filter_triples(filter_triples(ts, q1), q2) =~= filter_triples(ts, q12));
    } else {
        lemma_query_chain(ts.drop_last(), p1, p2);
        let t = ts.last();
        if q1(t) {
            assert(filter_triples(ts, q1).drop_last() =~= filter_triples(ts.drop_last(), q1));
            assert(filter_triples(ts, q1).last() == t);
        }
    }
}

/// The query builder: an ephemeral, owned fact list narrowed down by
/// chained filters and read out by a terminal operation.
pub struct QueryBuilder {
    triples: Vec<Triple>,
}

impl View for QueryBuilder {
    type V = Seq<Triple>;

    closed spec fn view(&self) -> Seq<Triple> {
        self.triples@
    }
}

impl QueryBuilder {
    /// Starts a query over an owned fact list.
    pub fn start(triples: Vec<Triple>) -> (r: QueryBuilder)
        ensures
            r@ == triples@,
    {
        QueryBuilder { triples }
    }

    /// Keeps the facts on which `condition` returns true, in order. The
    /// decision sequence records what the condition returned on each fact.
    pub fn select<F: Fn(&Triple) -> bool>(self, condition: F) -> (r: QueryBuilder)
        requires
            forall|t: &Triple| #[trigger] call_requires(condition, (t,)),
        ensures
            exists|keep: Seq<bool>|
                #![trigger mask_filter(self@, keep)]
                {
                    &&& r@ == mask_filter(self@, keep)
                    &&& keep.len() == self@.len()
                    &&& forall|i: int|
                        #![trigger keep[i]]
                        0 <= i < self@.len() ==> call_ensures(condition, (&self@[i],), keep[i])
                },
    {
        let ghost input = self.triples@;
        let mut out: Vec<Triple> = Vec::new();
        let ghost mut keep: Seq<bool> = Seq::empty();
        let mut i: usize = 0;
        proof {
            assert(mask_filter(input.take(0), keep) =~= Seq::<Triple>::empty());
        }
        while i < self.triples.len()
            invariant
                0 <= i <= input.len(),
                input == self.triples@,
                keep.len() == i,
                out@ == mask_filter(input.take(i as int), keep),
                forall|j: int|
                    #![trigger keep[j]]
                    0 <= j < i ==> call_ensures(condition, (&input[j],), keep[j]),
                forall|t: &Triple| #[trigger] call_requires(condition, (t,)),
            decreases input.len() - i,
        {
            let b = condition(&self.triples[i]);
            proof {
                let old_keep = keep;
                keep = keep.push(b);
                lemma_mask_filter_prefix(input.take(i as int), old_keep, keep);
                assert(input.take(i + 1).drop_last() =~= input.take(i as int));
                assert(input.take(i + 1).last() == input[i as int]);
            }
            if b {
                out.push(self.triples[i].clone());
            }
            i = i + 1;
        }
        proof {
            assert(input.take(input.len() as int) =~= input);
            assert(out@ == mask_filter(self@, keep));
            assert(keep.len() == self@.len());
        }
        QueryBuilder { triples: out }
    }

    /// Keeps the facts whose subject's canonical text satisfies
    /// `condition`, in order.
    pub fn subject<F: Fn(String) -> bool>(self, condition: F) -> (r: QueryBuilder)
        requires
            forall|s: String| #[trigger] call_requires(condition, (s,)),
        ensures
            exists|keep: Seq<bool>, texts: Seq<String>|
                #![trigger mask_filter(self@, keep), texts.len()]
                {
                    &&& r@ == mask_filter(self@, keep)
                    &&& keep.len() == self@.len()
                    &&& texts.len() == self@.len()
                    &&& forall|i: int|
                        #![trigger texts[i]]
                        0 <= i < self@.len() ==> texts[i]@ == uri_text(self@[i]@.subject)
                            && call_ensures(condition, (texts[i],), keep[i])
                },
    {
        let ghost input = self.triples@;
        let mut out: Vec<Triple> = Vec::new();
        let ghost mut keep: Seq<bool> = Seq::empty();
        let ghost mut texts: Seq<String> = Seq::empty();
        let mut i: usize = 0;
        proof {
            assert(mask_filter(input.take(0), keep) =~= Seq::<Triple>::empty());
        }
        while i < self.triples.len()
            invariant
                0 <= i <= input.len(),
                input == self.triples@,
                keep.len() == i,
                out@ == mask_filter(input.take(i as int), keep),
                texts.len() == i,
                forall|j: int|
                    #![trigger texts[j]]
                    0 <= j < i ==> texts[j]@ == uri_text(input[j]@.subject) && call_ensures(
                        condition,
                        (texts[j],),
                        keep[j],
                    ),
                forall|s: String| #[trigger] call_requires(condition, (s,)),
            decreases input.len() - i,
        {
            let text = self.triples[i].subject.to_text();
            let ghost text_ghost = text;
            let b = condition(text);
            proof {
                let old_keep = keep;
                keep = keep.push(b);
                texts = texts.push(text_ghost);
                lemma_mask_filter_prefix(input.take(i as int), old_keep, keep);
                assert(input.take(i + 1).drop_last() =~= input.take(i as int));
                assert(input.take(i + 1).last() == input[i as int]);
                assert(texts[i as int]@ == uri_text(input[i as int]@.subject) && call_ensures(
                    condition,
                    (texts[i as int],),
                    keep[i as int],
                ));
            }
            if b {
                out.push(self.triples[i].clone());
            }
            i = i + 1;
        }
        proof {
            assert(input.take(input.len() as int) =~= input);
            assert(out@ == mask_filter(self@, keep));
            assert(keep.len() == self@.len());
            assert(texts.len() == self@.len());
            assert forall|k: int| 0 <= k < self@.len() implies texts[k]@ == uri_text(
                self@[k]@.subject,
            ) && call_ensures(condition, (texts[k],), keep[k]) by {
                assert(texts[k]@ == uri_text(input[k]@.subject) && call_ensures(
                    condition,
                    (texts[k],),
                    keep[k],
                ));
            }
        }
        QueryBuilder { triples: out }
    }

    /// Keeps the facts whose predicate's canonical text satisfies
    /// `condition`, in order.
    pub fn predicate<F: Fn(String) -> bool>(self, condition: F) -> (r: QueryBuilder)
        requires
            forall|s: String| #[trigger] call_requires(condition, (s,)),
        ensures
            exists|keep: Seq<bool>, texts: Seq<String>|
                #![trigger mask_filter(self@, keep), texts.len()]
                {
                    &&& r@ == mask_filter(self@, keep)
                    &&& keep.len() == self@.len()
                    &&& texts.len() == self@.len()
                    &&& forall|i: int|
                        #![trigger texts[i]]
                        0 <= i < self@.len() ==> texts[i]@ == uri_text(self@[i]@.predicate)
                            && call_ensures(condition, (texts[i],), keep[i])
                },
    {
        let ghost input = self.triples@;
        let mut out: Vec<Triple> = Vec::new();
        let ghost mut keep: Seq<bool> = Seq::empty();
        let ghost mut texts: Seq<String> = Seq::empty();
        let mut i: usize = 0;
        proof {
            assert(mask_filter(input.take(0), keep) =~= Seq::<Triple>::empty());
        }
        while i < self.triples.len()
            invariant
                0 <= i <= input.len(),
                input == self.triples@,
                keep.len() == i,
                out@ == mask_filter(input.take(i as int), keep),
                texts.len() == i,
                forall|j: int|
                    #![trigger texts[j]]
                    0 <= j < i ==> texts[j]@ == uri_text(input[j]@.predicate) && call_ensures(
                        condition,
                        (texts[j],),
                        keep[j],
                    ),
                forall|s: String| #[trigger] call_requires(condition, (s,)),
            decreases input.len() - i,
        {
            let text = self.triples[i].predicate.to_text();
            let ghost text_ghost = text;
            let b = condition(text);
            proof {
                let old_keep = keep;
                keep = keep.push(b);
                texts = texts.push(text_ghost);
                lemma_mask_filter_prefix(input.take(i as int), old_keep, keep);
                assert(input.take(i + 1).drop_last() =~= input.take(i as int));
                assert(input.take(i + 1).last() == input[i as int]);
                assert(texts[i as int]@ == uri_text(input[i as int]@.predicate) && call_ensures(
                    condition,
                    (texts[i as int],),
                    keep[i as int],
                ));
            }
            if b {
                out.push(self.triples[i].clone());
            }
            i = i + 1;
        }
        proof {
            assert(input.take(input.len() as int) =~= input);
            assert(out@ == mask_filter(self@, keep));
            assert(keep.len() == self@.len());
            assert(texts.len() == self@.len());
            assert forall|k: int| 0 <= k < self@.len() implies texts[k]@ == uri_text(
                self@[k]@.predicate,
            ) && call_ensures(condition, (texts[k],), keep[k]) by {
                assert(texts[k]@ == uri_text(input[k]@.predicate) && call_ensures(
                    condition,
                    (texts[k],),
                    keep[k],
                ));
            }
        }
        QueryBuilder { triples: out }
    }

    /// Keeps the facts whose object's canonical text satisfies `condition`,
    /// in order.
    pub fn object<F: Fn(String) -> bool>(self, condition: F) -> (r: QueryBuilder)
        requires
            forall|s: String| #[trigger] call_requires(condition, (s,)),
        ensures
            exists|keep: Seq<bool>, texts: Seq<String>|
                #![trigger mask_filter(self@, keep), texts.len()]
                {
                    &&& r@ == mask_filter(self@, keep)
                    &&& keep.len() == self@.len()
                    &&& texts.len() == self@.len()
                    &&& forall|i: int|
                        #![trigger texts[i]]
                        0 <= i < self@.len() ==> texts[i]@ == object_text(self@[i]@.object)
                            && call_ensures(condition, (texts[i],), keep[i])
                },
    {
        let ghost input = self.triples@;
        let mut out: Vec<Triple> = Vec::new();
        let ghost mut keep: Seq<bool> = Seq::empty();
        let ghost mut texts: Seq<String> = Seq::empty();
        let mut i: usize = 0;
        proof {
            assert(mask_filter(input.take(0), keep) =~= Seq::<Triple>::empty());
        }
        while i < self.triples.len()
            invariant
                0 <= i <= input.len(),
                input == self.triples@,
                keep.len() == i,
                out@ == mask_filter(input.take(i as int), keep),
                texts.len() == i,
                forall|j: int|
                    #![trigger texts[j]]
                    0 <= j < i ==> texts[j]@ == object_text(input[j]@.object) && call_ensures(
                        condition,
                        (texts[j],),
                        keep[j],
                    ),
                forall|s: String| #[trigger] call_requires(condition, (s,)),
            decreases input.len() - i,
        {
            let text = self.triples[i].object.to_text();
            let ghost text_ghost = text;
            let b = condition(text);
            proof {
                let old_keep = keep;
                keep = keep.push(b);
                texts = texts.push(text_ghost);
                lemma_mask_filter_prefix(input.take(i as int), old_keep, keep);
                assert(input.take(i + 1).drop_last() =~= input.take(i as int));
                assert(input.take(i + 1).last() == input[i as int]);
                assert(texts[i as int]@ == object_text(input[i as int]@.object) && call_ensures(
                    condition,
                    (texts[i as int],),
                    keep[i as int],
                ));
            }
            if b {
                out.push(self.triples[i].clone());
            }
            i = i + 1;
        }
        proof {
            assert(input.take(input.len() as int) =~= input);
            assert(out@ == mask_filter(self@, keep));
            assert(keep.len() == self@.len());
            assert(texts.len() == self@.len());
            assert forall|k: int| 0 <= k < self@.len() implies texts[k]@ == object_text(
                self@[k]@.object,
            ) && call_ensures(condition, (texts[k],), keep[k]) by {
                assert(texts[k]@ == object_text(input[k]@.object) && call_ensures(
                    condition,
                    (texts[k],),
                    keep[k],
                ));
            }
        }
        QueryBuilder { triples: out }
    }

    /// The object of the first remaining fact, or nothing when no fact
    /// remains. An empty-valued literal in a remaining fact is `Some`, not
    /// `None`: the two cases stay distinct.
    pub fn value(self) -> (r: Option<Object>)
        ensures
            match r {
                Some(o) => self@.len() > 0 && o == self@[0].object,
                None => self@.len() == 0,
            },
    {
        if self.triples.len() > 0 {
            Some(self.triples[0].object.clone())
        } else {
            None
        }
    }

    /// The objects of all remaining facts in order, or nothing when no fact
    /// remains. An empty list of matches is `None`, never `Some` of an
    /// empty list.
    pub fn values(self) -> (r: Option<Vec<Object>>)
        ensures
            match r {
                Some(os) => self@.len() > 0 && os@.len() == self@.len() && forall|i: int|
                    0 <= i < self@.len() ==> os@[i] == self@[i].object,
                None => self@.len() == 0,
            },
    {
        if self.triples.len() > 0 {
            let mut os: Vec<Object> = Vec::new();
            let mut i: usize = 0;
            while i < self.triples.len()
                invariant
                    0 <= i <= self.triples@.len(),
                    os@.len() == i,
                    forall|j: int| 0 <= j < i ==> os@[j] == self.triples@[j].object,
                decreases self.triples@.len() - i,
            {
                os.push(self.triples[i].object.clone());
                i = i + 1;
            }
            Some(os)
        } else {
            None
        }
    }

    /// The remaining fact list, as it stands.
    pub fn query(self) -> (r: Vec<Triple>)
        ensures
            r@ == self@,
    {
        self.triples
    }
}

} // verus!
