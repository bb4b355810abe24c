//! The entailment engine: a depth-bounded forward-chaining closure. Each
//! of `depth` iterations applies every rule to every fact and every
//! ordered pair of facts of the current level's working set, and the facts
//! produced become the next level's working set. The concatenated new
//! levels are sorted by canonical text, deduplicated, and stripped of the
//! original facts: what remains are the newly inferred facts alone, in a
//! deterministic order.

use vstd::prelude::*;
use crate::triple::{Triple, TripleModel, triple_text, views_of, lemma_views_concat, clone_triples};
use crate::reasoning::entailment::{Entailment, rule_wf, spec_apply};
use crate::reasoning::order::{
    sort_by_text,
    dedup_by_text,
    remove_texts,
    texts_of,
    text_in,
    sorted_by_text,
    distinct_texts,
    sort_triples,
    dedup_triples,
    remove_banned,
    lemma_sort_sorted,
    lemma_dedup_sorted_distinct,
    lemma_remove_texts,
};

verus! {

/// What one rule appends for the single fact at `i`.
pub open spec fn single_out(r: Entailment, w: Seq<TripleModel>, i: int) -> Seq<TripleModel> {
    spec_apply(r, seq![w[i]])
}

/// What one rule appends for the ordered pair of facts at `i` and `j`.
pub open spec fn pair_out(r: Entailment, w: Seq<TripleModel>, i: int, j: int) -> Seq<
    TripleModel,
> {
    spec_apply(r, seq![w[i], w[j]])
}

/// What one rule appends for fact `i` paired with each fact at an index in
/// `[i, j)`, in order.
pub open spec fn pairs_upto(r: Entailment, w: Seq<TripleModel>, i: int, j: int) -> Seq<
    TripleModel,
>
    decreases j - i,
{
    if j <= i {
        Seq::empty()
    } else {
        pairs_upto(r, w, i, j - 1) + pair_out(r, w, i, j - 1)
    }
}

/// What one rule appends for fact `i`: its single pass, then its pair
/// passes against every fact from `i` on.
pub open spec fn rule_out_at(r: Entailment, w: Seq<TripleModel>, i: int) -> Seq<TripleModel> {
    single_out(r, w, i) + pairs_upto(r, w, i, w.len() as int)
}

/// What the first `k` rules append for fact `i`, in rule order.
pub open spec fn rules_upto(rules: Seq<Entailment>, w: Seq<TripleModel>, i: int, k: int) -> Seq<
    TripleModel,
>
    decreases k,
{
    if k <= 0 {
        Seq::empty()
    } else {
        rules_upto(rules, w, i, k - 1) + rule_out_at(rules[k - 1], w, i)
    }
}

/// What one level appends for the facts at indices below `i`.
pub open spec fn level_upto(rules: Seq<Entailment>, w: Seq<TripleModel>, i: int) -> Seq<
    TripleModel,
>
    decreases i,
{
    if i <= 0 {
        Seq::empty()
    } else {
        level_upto(rules, w, i - 1) + rules_upto(rules, w, i - 1, rules.len() as int)
    }
}

/// One level of the closure: everything the rules produce from the
/// working set `w`, in evaluation order.
pub open spec fn level_out(rules: Seq<Entailment>, w: Seq<TripleModel>) -> Seq<TripleModel> {
    level_upto(rules, w, w.len() as int)
}

/// The working set after `d` levels; level 0 is the seed itself.
pub open spec fn bucket_at(rules: Seq<Entailment>, seed: Seq<TripleModel>, d: nat) -> Seq<
    TripleModel,
>
    decreases d,
{
    if d == 0 {
        seed
    } else {
        level_out(rules, bucket_at(rules, seed, (d - 1) as nat))
    }
}

/// The concatenation of levels 1 through `d`: the seed level itself is
/// excluded from the output.
pub open spec fn levels_concat(rules: Seq<Entailment>, seed: Seq<TripleModel>, d: nat) -> Seq<
    TripleModel,
>
    decreases d,
{
    if d == 0 {
        Seq::empty()
    } else {
        levels_concat(rules, seed, (d - 1) as nat) + bucket_at(rules, seed, d)
    }
}

/// The whole closure: the concatenated levels, stable-sorted by canonical
/// text, with adjacent duplicates removed by the same key, and with every
/// fact whose text matches an original input fact removed — strictly the
/// newly inferred facts, deduplicated and deterministically ordered.
pub open spec fn inferred_spec(
    rules: Seq<Entailment>,
    seed: Seq<TripleModel>,
    depth: nat,
) -> Seq<TripleModel> {
    remove_texts(
        dedup_by_text(sort_by_text(levels_concat(rules, seed, depth))),
        texts_of(seed),
    )
}

/// Computes one level of the closure: for every fact, every rule's single
/// pass and then its pair passes against that fact and each later one.
fn level_exec(rules: &Vec<Entailment>, w: &Vec<Triple>) -> (r: Vec<Triple>)
    requires
        forall|k: int| 0 <= k < rules@.len() ==> rule_wf(#[trigger] rules@[k]),
    ensures
        views_of(r@) == level_out(rules@, views_of(w@)),
    decreases w@.len(),
{
    let ghost vw = views_of(w@);
    let mut out: Vec<Triple> = Vec::new();
    let mut i: usize = 0;
    proof {
        assert(views_of(out@) =~= Seq::<TripleModel>::empty());
    }
    while i < w.len()
        invariant
            0 <= i <= w@.len(),
            vw == views_of(w@),
            forall|k: int| 0 <= k < rules@.len() ==> rule_wf(#[trigger] rules@[k]),
            views_of(out@) == level_upto(rules@, vw, i as int),
        decreases w@.len() - i,
    {
        let mut k: usize = 0;
        while k < rules.len()
            invariant
                0 <= i < w@.len(),
                0 <= k <= rules@.len(),
                vw == views_of(w@),
                forall|m: int| 0 <= m < rules@.len() ==> rule_wf(#[trigger] rules@[m]),
                views_of(out@) == level_upto(rules@, vw, i as int) + rules_upto(
                    rules@,
                    vw,
                    i as int,
                    k as int,
                ),
            decreases rules@.len() - k,
        {
            let rule = rules[k];
            // Single-input pass.
            let mut single_input: Vec<Triple> = Vec::new();
            single_input.push(w[i].clone());
            let mut produced = rule.apply(&single_input);
            let ghost out_before = out@;
            let ghost produced_view = produced@;
            proof {
                assert(views_of(single_input@) =~= seq![vw[i as int]]);
                assert(views_of(produced_view) == single_out(rule, vw, i as int));
            }
            out.append(&mut produced);
            proof {
                assert(out@ == out_before + produced_view);
                lemma_views_concat(out_before, produced_view);
                assert(views_of(out@) =~= level_upto(rules@, vw, i as int) + rules_upto(
                    rules@,
                    vw,
                    i as int,
                    k as int,
                ) + single_out(rule, vw, i as int));
            }
            // Pair passes against this fact and each later one.
            let mut j: usize = i;
            proof {
                assert(pairs_upto(rule, vw, i as int, i as int) =~= Seq::<TripleModel>::empty());
                assert(views_of(out@) =~= level_upto(rules@, vw, i as int) + rules_upto(
                    rules@,
                    vw,
                    i as int,
                    k as int,
                ) + single_out(rule, vw, i as int) + pairs_upto(rule, vw, i as int, i as int));
            }
            while j < w.len()
                invariant
                    0 <= i <= j <= w@.len(),
                    k < rules@.len(),
                    rule == rules@[k as int],
                    vw == views_of(w@),
                    forall|m: int| 0 <= m < rules@.len() ==> rule_wf(#[trigger] rules@[m]),
                    views_of(out@) == level_upto(rules@, vw, i as int) + rules_upto(
                        rules@,
                        vw,
                        i as int,
                        k as int,
                    ) + single_out(rule, vw, i as int) + pairs_upto(
                        rule,
                        vw,
                        i as int,
                        j as int,
                    ),
                decreases w@.len() - j,
            {
                let mut pair_input: Vec<Triple> = Vec::new();
                pair_input.push(w[i].clone());
                pair_input.push(w[j].clone());
                let mut produced = rule.apply(&pair_input);
                let ghost out_before = out@;
                let ghost produced_view = produced@;
                proof {
                    assert(views_of(pair_input@) =~= seq![vw[i as int], vw[j as int]]);
                    assert(views_of(produced_view) == pair_out(rule, vw, i as int, j as int));
                }
                out.append(&mut produced);
                proof {
                    assert(out@ == out_before + produced_view);
                    lemma_views_concat(out_before, produced_view);
                    assert(pairs_upto(rule, vw, i as int, j + 1) == pairs_upto(
                        rule,
                        vw,
                        i as int,
                        j as int,
                    ) + pair_out(rule, vw, i as int, j as int));
                    assert(views_of(out@) =~= level_upto(rules@, vw, i as int) + rules_upto(
                        rules@,
                        vw,
                        i as int,
                        k as int,
                    ) + single_out(rule, vw, i as int) + pairs_upto(
                        rule,
                        vw,
                        i as int,
                        j + 1,
                    ));
                }
                j = j + 1;
            }
            proof {
                assert(views_of(out@) =~= level_upto(rules@, vw, i as int) + rules_upto(
                    rules@,
                    vw,
                    i as int,
                    k + 1,
                ));
            }
            k = k + 1;
        }
        proof {
            assert(views_of(out@) =~= level_upto(rules@, vw, i + 1));
        }
        i = i + 1;
    }
    out
}

/// Runs the whole closure: `depth` levels, then sort, deduplicate, and
/// subtract the input facts.
pub fn infer(rules: &Vec<Entailment>, triples: &Vec<Triple>, depth: usize) -> (r: Vec<Triple>)
    requires
        forall|k: int| 0 <= k < rules@.len() ==> rule_wf(#[trigger] rules@[k]),
    ensures
        views_of(r@) == inferred_spec(rules@, views_of(triples@), depth as nat),
        sorted_by_text(views_of(r@)),
        distinct_texts(views_of(r@)),
        forall|i: int|
            0 <= i < r@.len() ==> !text_in(
                texts_of(views_of(triples@)),
                triple_text(#[trigger] r@[i]@),
            ),
        depth == 0 ==> r@.len() == 0,
{
    let ghost seed = views_of(triples@);
    let mut working: Vec<Triple> = clone_triples(triples);
    let mut collected: Vec<Triple> = Vec::new();
    let mut d: usize = 0;
    proof {
        assert(views_of(collected@) =~= Seq::<TripleModel>::empty());
    }
    while d < depth
        invariant
            0 <= d <= depth,
            seed == views_of(triples@),
            forall|k: int| 0 <= k < rules@.len() ==> rule_wf(#[trigger] rules@[k]),
            views_of(working@) == bucket_at(rules@, seed, d as nat),
            views_of(collected@) == levels_concat(rules@, seed, d as nat),
        decreases depth - d,
    {
        let next = level_exec(rules, &working);
        let mut next_copy = clone_triples(&next);
        let ghost collected_before = collected@;
        let ghost next_view = next_copy@;
        collected.append(&mut next_copy);
        working = next;
        proof {
            assert(collected@ == collected_before + next_view);
            lemma_views_concat(collected_before, next_view);
            assert(views_of(next_view) == bucket_at(rules@, seed, (d + 1) as nat));
            assert(views_of(collected@) =~= levels_concat(rules@, seed, (d + 1) as nat));
        }
        d = d + 1;
    }
    // Sort, deduplicate, and subtract the original facts by canonical
    // text.
    let sorted = sort_triples(&collected);
    let deduped = dedup_triples(sorted);
    let mut input_texts: Vec<String> = Vec::new();
    let mut i: usize = 0;
    while i < triples.len()
        invariant
            0 <= i <= triples@.len(),
            seed == views_of(triples@),
            input_texts@.len() == i,
            forall|m: int|
                0 <= m < i ==> (#[trigger] input_texts@[m])@ == triple_text(seed[m]),
        decreases triples@.len() - i,
    {
        input_texts.push(triples[i].to_text());
        i = i + 1;
    }
    proof {
        assert(input_texts@.map_values(|s: String| s@) =~= texts_of(seed));
    }
    let result = remove_banned(deduped, &input_texts);
    proof {
        let raw = levels_concat(rules@, seed, depth as nat);
        lemma_sort_sorted(raw);
        lemma_dedup_sorted_distinct(sort_by_text(raw));
        lemma_remove_texts(dedup_by_text(sort_by_text(raw)), texts_of(seed));
        if depth == 0 {
            assert(raw =~= Seq::<TripleModel>::empty());
            assert(sort_by_text(raw) =~= Seq::<TripleModel>::empty());
            assert(dedup_by_text(sort_by_text(raw)) =~= Seq::<TripleModel>::empty());
            assert(views_of(result@) =~= Seq::<TripleModel>::empty());
        }
        assert forall|i2: int| 0 <= i2 < result@.len() implies !text_in(
            texts_of(seed),
            triple_text(#[trigger] result@[i2]@),
        ) by {
            assert(views_of(result@)[i2] == result@[i2]@);
        }
    }
    result
}

/// A reasoner: a fixed rule table plus the depth-bounded closure over it.
pub trait BaseReasoner {
    /// The rule table, as a mathematical sequence.
    spec fn spec_rules() -> Seq<Entailment>;

    /// The rule table. Every rule in it is well formed.
    fn get_entailment_patterns() -> (r: Vec<Entailment>)
        ensures
            r@ == Self::spec_rules(),
            forall|k: int| 0 <= k < r@.len() ==> rule_wf(#[trigger] r@[k]),
    ;

    /// The depth-bounded closure under this reasoner's rules: strictly the
    /// newly inferred facts, sorted by canonical text and deduplicated,
    /// with no fact whose text matches an input fact; a depth of zero
    /// infers nothing.
    fn get_inferred_triples(triples: Vec<Triple>, depth: usize) -> (r: Vec<Triple>)
        ensures
            views_of(r@) == inferred_spec(Self::spec_rules(), views_of(triples@), depth as nat),
            sorted_by_text(views_of(r@)),
            distinct_texts(views_of(r@)),
            forall|i: int|
                0 <= i < r@.len() ==> !text_in(
                    texts_of(views_of(triples@)),
                    triple_text(#[trigger] r@[i]@),
                ),
            depth == 0 ==> r@.len() == 0,
    {
        let rules = Self::get_entailment_patterns();
        infer(&rules, &triples, depth)
    }
}

} // verus!
