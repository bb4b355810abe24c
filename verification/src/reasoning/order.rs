//! Deterministic post-processing of inferred facts: a stable sort by
//! canonical text, removal of adjacent duplicates by the same key, and
//! removal of facts whose text matches an original input fact.

use vstd::prelude::*;
use crate::triple::{Triple, TripleModel, triple_text, views_of};
use crate::text::{lex_leq, lex_leq_exec, lemma_lex_total, lemma_lex_antisym, lemma_lex_trans};

verus! {

/// Inserts a fact into a sorted run, after any facts of equal text: the
/// insertion of a stable sort.
pub open spec fn insert_sorted(s: Seq<TripleModel>, t: TripleModel) -> Seq<TripleModel>
    decreases s.len(),
{
    if s.len() > 0 && !lex_leq(triple_text(s.last()), triple_text(t)) {
        insert_sorted(s.drop_last(), t).push(s.last())
    } else {
        s.push(t)
    }
}

/// Stable insertion sort by canonical text: facts of equal text keep their
/// original relative order.
pub open spec fn sort_by_text(s: Seq<TripleModel>) -> Seq<TripleModel>
    decreases s.len(),
{
    if s.len() == 0 {
        Seq::empty()
    } else {
        insert_sorted(sort_by_text(s.drop_last()), s.last())
    }
}

/// Sorted (non-strictly) by canonical text.
pub open spec fn sorted_by_text(s: Seq<TripleModel>) -> bool {
    forall|i: int, j: int|
        0 <= i < j < s.len() ==> lex_leq(triple_text(s[i]), triple_text(s[j]))
}

/// No two facts share a canonical text.
pub open spec fn distinct_texts(s: Seq<TripleModel>) -> bool {
    forall|i: int, j: int| 0 <= i < j < s.len() ==> triple_text(s[i]) != triple_text(s[j])
}

/// Removes each fact whose text equals its predecessor's, keeping the
/// first of every run of equal-text facts.
pub open spec fn dedup_by_text(s: Seq<TripleModel>) -> Seq<TripleModel>
    decreases s.len(),
{
    if s.len() <= 1 {
        s
    } else if triple_text(s[s.len() - 1]) == triple_text(s[s.len() - 2]) {
        dedup_by_text(s.drop_last())
    } else {
        dedup_by_text(s.drop_last()).push(s.last())
    }
}

/// The canonical texts of a fact list, in order.
pub open spec fn texts_of(s: Seq<TripleModel>) -> Seq<Seq<char>> {
    s.map_values(|t: TripleModel| triple_text(t))
}

/// Whether a text occurs in a list of texts.
pub open spec fn text_in(texts: Seq<Seq<char>>, t: Seq<char>) -> bool {
    exists|i: int| 0 <= i < texts.len() && texts[i] == t
}

/// Removes every fact whose text occurs in `banned`, keeping the rest in
/// order.
pub open spec fn remove_texts(s: Seq<TripleModel>, banned: Seq<Seq<char>>) -> Seq<TripleModel>
    decreases s.len(),
{
    if s.len() == 0 {
        Seq::empty()
    } else {
        let rest = remove_texts(s.drop_last(), banned);
        if text_in(banned, triple_text(s.last())) {
            rest
        } else {
            rest.push(s.last())
        }
    }
}

/// Inserting into a sorted run keeps it sorted; every element of the
/// result is the inserted fact or one of the run's own.
pub proof fn lemma_insert_sorted_sorted(s: Seq<TripleModel>, t: TripleModel)
    requires
        sorted_by_text(s),
    ensures
        sorted_by_text(insert_sorted(s, t)),
        insert_sorted(s, t).len() == s.len() + 1,
        forall|i: int|
            #![trigger insert_sorted(s, t)[i]]
            0 <= i < insert_sorted(s, t).len() ==> (insert_sorted(s, t)[i] == t || exists|j: int|
                0 <= j < s.len() && insert_sorted(s, t)[i] == s[j]),
    decreases s.len(),
{
    let r = insert_sorted(s, t);
    if s.len() > 0 && !lex_leq(triple_text(s.last()), triple_text(t)) {
        let dl = s.drop_last();
        assert(sorted_by_text(dl)) by {
            assert forall|i: int, j: int| 0 <= i < j < dl.len() implies lex_leq(
                triple_text(dl[i]),
                triple_text(dl[j]),
            ) by {
                assert(dl[i] == s[i] && dl[j] == s[j]);
            }
        }
        lemma_insert_sorted_sorted(dl, t);
        let inner = insert_sorted(dl, t);
        lemma_lex_total(triple_text(s.last()), triple_text(t));
        assert(lex_leq(triple_text(t), triple_text(s.last())));
        assert forall|i: int, j: int| 0 <= i < j < r.len() implies lex_leq(
            triple_text(r[i]),
            triple_text(r[j]),
        ) by {
            if j < r.len() - 1 {
                assert(r[i] == inner[i] && r[j] == inner[j]);
            } else {
                assert(r[j] == s.last());
                assert(r[i] == inner[i]);
                if inner[i] == t {
                } else {
                    let k = choose|k: int| 0 <= k < dl.len() && inner[i] == dl[k];
                    assert(dl[k] == s[k]);
                    assert(lex_leq(triple_text(s[k]), triple_text(s.last())));
                }
            }
        }
        assert forall|i: int| #![trigger r[i]] 0 <= i < r.len() implies (r[i] == t || exists|j: int|
            0 <= j < s.len() && r[i] == s[j]) by {
            if i < r.len() - 1 {
                assert(r[i] == inner[i]);
                if inner[i] != t {
                    let k = choose|k: int| 0 <= k < dl.len() && inner[i] == dl[k];
                    assert(r[i] == s[k]);
                }
            } else {
                assert(r[i] == s.last());
                assert(r[i] == s[s.len() - 1]);
            }
        }
    } else {
        assert(r == s.push(t));
        if s.len() > 0 {
            assert(lex_leq(triple_text(s.last()), triple_text(t)));
        }
        assert forall|i: int, j: int| 0 <= i < j < r.len() implies lex_leq(
            triple_text(r[i]),
            triple_text(r[j]),
        ) by {
            if j < r.len() - 1 {
                assert(r[i] == s[i] && r[j] == s[j]);
            } else {
                assert(r[j] == t);
                if i < s.len() - 1 {
                    assert(r[i] == s[i]);
                    assert(lex_leq(triple_text(s[i]), triple_text(s[s.len() - 1])));
                    lemma_lex_trans(
                        triple_text(s[i]),
                        triple_text(s[s.len() - 1]),
                        triple_text(t),
                    );
                } else {
                    assert(r[i] == s[s.len() - 1]);
                }
            }
        }
    }
}

/// A stable sort by text leaves the run sorted.
pub proof fn lemma_sort_sorted(s: Seq<TripleModel>)
    ensures
        sorted_by_text(sort_by_text(s)),
    decreases s.len(),
{
    if s.len() > 0 {
        lemma_sort_sorted(s.drop_last());
        lemma_insert_sorted_sorted(sort_by_text(s.drop_last()), s.last());
    }
}

/// Removing adjacent equal-text facts from a sorted run leaves a sorted
/// run whose texts are pairwise distinct.
pub proof fn lemma_dedup_sorted_distinct(s: Seq<TripleModel>)
    requires
        sorted_by_text(s),
    ensures
        sorted_by_text(dedup_by_text(s)),
        distinct_texts(dedup_by_text(s)),
        dedup_by_text(s).len() <= s.len(),
        forall|i: int|
            #![trigger dedup_by_text(s)[i]]
            0 <= i < dedup_by_text(s).len() ==> exists|j: int|
                0 <= j < s.len() && dedup_by_text(s)[i] == s[j],
    decreases s.len(),
{
    let r = dedup_by_text(s);
    if s.len() <= 1 {
    } else {
        let dl = s.drop_last();
        assert(sorted_by_text(dl)) by {
            assert forall|i: int, j: int| 0 <= i < j < dl.len() implies lex_leq(
                triple_text(dl[i]),
                triple_text(dl[j]),
            ) by {
                assert(dl[i] == s[i] && dl[j] == s[j]);
            }
        }
        lemma_dedup_sorted_distinct(dl);
        let inner = dedup_by_text(dl);
        if triple_text(s[s.len() - 1]) == triple_text(s[s.len() - 2]) {
            assert forall|i: int| #![trigger r[i]] 0 <= i < r.len() implies exists|j: int|
                0 <= j < s.len() && r[i] == s[j] by {
                let k = choose|k: int| 0 <= k < dl.len() && inner[i] == dl[k];
                assert(r[i] == s[k]);
            }
        } else {
            let last = s.last();
            // The pushed fact's text is strictly above every text in the
            // deduplicated prefix.
            assert forall|i: int| 0 <= i < inner.len() implies triple_text(inner[i])
                != triple_text(last) by {
                let k = choose|k: int| 0 <= k < dl.len() && inner[i] == dl[k];
                if triple_text(inner[i]) == triple_text(last) {
                    if k < s.len() - 2 {
                        assert(lex_leq(triple_text(s[k]), triple_text(s[s.len() - 2])));
                    }
                    assert(lex_leq(triple_text(s[s.len() - 2]), triple_text(s[s.len() - 1])));
                    if k < s.len() - 2 {
                        lemma_lex_antisym(triple_text(s[s.len() - 2]), triple_text(s[s.len() - 1]));
                    } else {
                        assert(k == s.len() - 2);
                    }
                }
            }
            assert forall|i: int, j: int| 0 <= i < j < r.len() implies lex_leq(
                triple_text(r[i]),
                triple_text(r[j]),
            ) && triple_text(r[i]) != triple_text(r[j]) by {
                if j < r.len() - 1 {
                    assert(r[i] == inner[i] && r[j] == inner[j]);
                } else {
                    assert(r[j] == last);
                    assert(r[i] == inner[i]);
                    let k = choose|k: int| 0 <= k < dl.len() && inner[i] == dl[k];
                    assert(lex_leq(triple_text(s[k]), triple_text(s[s.len() - 1])));
                }
            }
            assert forall|i: int| #![trigger r[i]] 0 <= i < r.len() implies exists|j: int|
                0 <= j < s.len() && r[i] == s[j] by {
                if i < r.len() - 1 {
                    let k = choose|k: int| 0 <= k < dl.len() && inner[i] == dl[k];
                    assert(r[i] == s[k]);
                } else {
                    assert(r[i] == s[s.len() - 1]);
                }
            }
        }
    }
}

/// Removing banned texts keeps the run's order and distinctness; no
/// banned text survives.
pub proof fn lemma_remove_texts(s: Seq<TripleModel>, banned: Seq<Seq<char>>)
    ensures
        remove_texts(s, banned).len() <= s.len(),
        sorted_by_text(s) ==> sorted_by_text(remove_texts(s, banned)),
        distinct_texts(s) ==> distinct_texts(remove_texts(s, banned)),
        forall|i: int|
            #![trigger remove_texts(s, banned)[i]]
            0 <= i < remove_texts(s, banned).len() ==> !text_in(
                banned,
                triple_text(remove_texts(s, banned)[i]),
            ),
        forall|i: int|
            #![trigger remove_texts(s, banned)[i]]
            0 <= i < remove_texts(s, banned).len() ==> exists|j: int|
                0 <= j < s.len() && remove_texts(s, banned)[i] == s[j],
    decreases s.len(),
{
    let r = remove_texts(s, banned);
    if s.len() > 0 {
        let dl = s.drop_last();
        lemma_remove_texts(dl, banned);
        let inner = remove_texts(dl, banned);
        assert forall|i: int| #![trigger r[i]] 0 <= i < r.len() implies exists|j: int|
            0 <= j < s.len() && r[i] == s[j] by {
            if i < inner.len() {
                assert(r[i] == inner[i]);
                let k = choose|k: int| 0 <= k < dl.len() && inner[i] == dl[k];
                assert(r[i] == s[k]);
            } else {
                assert(r[i] == s[s.len() - 1]);
            }
        }
        if sorted_by_text(s) {
            assert(sorted_by_text(dl)) by {
                assert forall|i: int, j: int| 0 <= i < j < dl.len() implies lex_leq(
                    triple_text(dl[i]),
                    triple_text(dl[j]),
                ) by {
                    assert(dl[i] == s[i] && dl[j] == s[j]);
                }
            }
            assert forall|i: int, j: int| 0 <= i < j < r.len() implies lex_leq(
                triple_text(r[i]),
                triple_text(r[j]),
            ) by {
                if j < inner.len() {
                    assert(r[i] == inner[i] && r[j] == inner[j]);
                } else {
                    assert(r[i] == inner[i]);
                    let k = choose|k: int| 0 <= k < dl.len() && inner[i] == dl[k];
                    assert(lex_leq(triple_text(s[k]), triple_text(s[s.len() - 1])));
                }
            }
        }
        if distinct_texts(s) {
            assert(distinct_texts(dl)) by {
                assert forall|i: int, j: int| 0 <= i < j < dl.len() implies triple_text(dl[i])
                    != triple_text(dl[j]) by {
                    assert(dl[i] == s[i] && dl[j] == s[j]);
                }
            }
            assert forall|i: int, j: int| 0 <= i < j < r.len() implies triple_text(r[i])
                != triple_text(r[j]) by {
                if j < inner.len() {
                    assert(r[i] == inner[i] && r[j] == inner[j]);
                } else {
                    assert(r[i] == inner[i]);
                    let k = choose|k: int| 0 <= k < dl.len() && inner[i] == dl[k];
                    assert(triple_text(s[k]) != triple_text(s[s.len() - 1]));
                }
            }
        }
    }
}

/// Splitting the insertion point: inserting at the first position from the
/// right whose predecessor is not above the new fact.
proof fn lemma_insert_split(s: Seq<TripleModel>, t: TripleModel, i: int)
    requires
        0 <= i <= s.len(),
        forall|k: int| i <= k < s.len() ==> !lex_leq(triple_text(s[k]), triple_text(t)),
        i > 0 ==> lex_leq(triple_text(s[i - 1]), triple_text(t)),
    ensures
        insert_sorted(s, t) == s.take(i) + seq![t] + s.skip(i),
    decreases s.len() - i,
{
    if i == s.len() {
        assert(insert_sorted(s, t) == s.push(t));
        assert(s.push(t) =~= s.take(i) + seq![t] + s.skip(i));
    } else {
        assert(!lex_leq(triple_text(s[s.len() - 1]), triple_text(t)));
        let dl = s.drop_last();
        lemma_insert_split(dl, t, i);
        assert(insert_sorted(s, t) == insert_sorted(dl, t).push(s.last()));
        assert((dl.take(i) + seq![t] + dl.skip(i)).push(s.last()) =~= s.take(i) + seq![t] + s.skip(
            i,
        ));
    }
}

/// Inserts a fact into a sorted vector, after any facts of equal text.
fn insert_by_text(out: &mut Vec<Triple>, t: Triple)
    ensures
        views_of(final(out)@) == insert_sorted(views_of(old(out)@), t@),
{
    let t_text = t.to_text();
    let mut i: usize = out.len();
    loop
        invariant_except_break
            0 <= i <= out@.len(),
            out@ == old(out)@,
            t_text@ == triple_text(t@),
            forall|k: int|
                i <= k < out@.len() ==> !lex_leq(triple_text(out@[k]@), triple_text(t@)),
        ensures
            0 <= i <= out@.len(),
            out@ == old(out)@,
            t_text@ == triple_text(t@),
            forall|k: int|
                i <= k < out@.len() ==> !lex_leq(triple_text(out@[k]@), triple_text(t@)),
            i > 0 ==> lex_leq(triple_text(out@[i - 1]@), triple_text(t@)),
        decreases i,
    {
        if i == 0 {
            break;
        }
        let prev = out[i - 1].to_text();
        if lex_leq_exec(prev.as_str(), t_text.as_str()) {
            break;
        }
        i = i - 1;
    }
    proof {
        lemma_insert_split(views_of(out@), t@, i as int);
    }
    let ghost before = out@;
    out.insert(i, t);
    proof {
        assert(views_of(out@) =~= views_of(before).take(i as int) + seq![t@] + views_of(
            before,
        ).skip(i as int));
    }
}

/// Stable-sorts facts by their canonical text.
pub fn sort_triples(input: &Vec<Triple>) -> (r: Vec<Triple>)
    ensures
        views_of(r@) == sort_by_text(views_of(input@)),
{
    let mut out: Vec<Triple> = Vec::new();
    let mut j: usize = 0;
    proof {
        assert(views_of(input@).take(0) =~= Seq::<TripleModel>::empty());
        assert(views_of(out@) =~= Seq::<TripleModel>::empty());
    }
    while j < input.len()
        invariant
            0 <= j <= input@.len(),
            views_of(out@) == sort_by_text(views_of(input@).take(j as int)),
        decreases input@.len() - j,
    {
        insert_by_text(&mut out, input[j].clone());
        proof {
            assert(views_of(input@).take(j + 1).drop_last() =~= views_of(input@).take(j as int));
            assert(views_of(input@).take(j + 1).last() == input@[j as int]@);
        }
        j = j + 1;
    }
    proof {
        assert(views_of(input@).take(input@.len() as int) =~= views_of(input@));
    }
    out
}

/// Removes adjacent facts of equal text, keeping the first of each run.
pub fn dedup_triples(input: Vec<Triple>) -> (r: Vec<Triple>)
    ensures
        views_of(r@) == dedup_by_text(views_of(input@)),
{
    let mut out: Vec<Triple> = Vec::new();
    let mut j: usize = 0;
    proof {
        assert(views_of(input@).take(0) =~= Seq::<TripleModel>::empty());
        assert(views_of(out@) =~= Seq::<TripleModel>::empty());
    }
    while j < input.len()
        invariant
            0 <= j <= input@.len(),
            views_of(out@) == dedup_by_text(views_of(input@).take(j as int)),
        decreases input@.len() - j,
    {
        proof {
            assert(views_of(input@).take(j + 1).drop_last() =~= views_of(input@).take(j as int));
            assert(views_of(input@).take(j + 1).last() == input@[j as int]@);
        }
        if j == 0 {
            out.push(input[0].clone());
            proof {
                assert(views_of(out@) =~= views_of(input@).take(1));
            }
        } else {
            if input[j].to_text() == input[j - 1].to_text() {
            } else {
                out.push(input[j].clone());
                proof {
                    assert(views_of(out@).drop_last() =~= dedup_by_text(
                        views_of(input@).take(j as int),
                    ));
                }
            }
        }
        j = j + 1;
    }
    proof {
        assert(views_of(input@).take(input@.len() as int) =~= views_of(input@));
    }
    out
}

/// Removes every fact whose canonical text occurs among `banned`.
pub fn remove_banned(input: Vec<Triple>, banned: &Vec<String>) -> (r: Vec<Triple>)
    ensures
        views_of(r@) == remove_texts(
            views_of(input@),
            banned@.map_values(|s: String| s@),
        ),
{
    let ghost banned_texts = banned@.map_values(|s: String| s@);
    let mut out: Vec<Triple> = Vec::new();
    let mut j: usize = 0;
    proof {
        assert(views_of(input@).take(0) =~= Seq::<TripleModel>::empty());
        assert(views_of(out@) =~= Seq::<TripleModel>::empty());
        assert(remove_texts(views_of(input@).take(0), banned_texts) =~= Seq::<
            TripleModel,
        >::empty());
    }
    while j < input.len()
        invariant
            0 <= j <= input@.len(),
            banned_texts == banned@.map_values(|s: String| s@),
            views_of(out@) == remove_texts(views_of(input@).take(j as int), banned_texts),
        decreases input@.len() - j,
    {
        proof {
            assert(views_of(input@).take(j + 1).drop_last() =~= views_of(input@).take(j as int));
            assert(views_of(input@).take(j + 1).last() == input@[j as int]@);
        }
        let text = input[j].to_text();
        let mut found = false;
        let mut k: usize = 0;
        while k < banned.len()
            invariant
                0 <= k <= banned@.len(),
                banned_texts == banned@.map_values(|s: String| s@),
                text@ == triple_text(input@[j as int]@),
                j < input@.len(),
                found == exists|m: int| 0 <= m < k && banned_texts[m] == text@,
            decreases banned@.len() - k,
        {
            proof {
                assert(banned_texts[k as int] == banned@[k as int]@);
            }
            if banned[k] == text {
                found = true;
            }
            k = k + 1;
        }
        proof {
            assert(found == text_in(banned_texts, triple_text(input@[j as int]@)));
        }
        if !found {
            out.push(input[j].clone());
        }
        j = j + 1;
    }
    proof {
        assert(views_of(input@).take(input@.len() as int) =~= views_of(input@));
    }
    out
}

} // verus!
