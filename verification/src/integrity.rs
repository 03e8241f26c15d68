//! The integrity laws of the conversation history.
//!
//! Each public lemma states, over the spec-level model, that one history
//! operation preserves the structural invariant [`history_inv`]: every
//! remaining tool result resolves to a tool call of an earlier model
//! response, and no tool call has more than one result.

use vstd::prelude::*;

use crate::interaction::{
    calls_unique, first_id_idx, first_result_idx_from, has_result, history_inv, ids_unique, is_first_id,
    is_first_result_from, iv_calls, iv_has_call, iv_id, iv_is_empty, iv_is_llm, iv_is_result,
    delete_calls_loop, is_last_llm, iv_result_id, keep_finished_calls, keep_non_empty,
    keep_other_calls, keep_other_ids, last_llm_idx, lemma_first_id_idx,
    lemma_first_result_idx_from, prune, spec_clean_unfinished, spec_delete_by_id,
    spec_delete_by_tool_id, strip_calls, strip_unfinished, InteractionV,
};

verus! {

/// Filtering the empty sequence yields the empty sequence.
pub proof fn lemma_filter_empty<A>(p: spec_fn(A) -> bool)
    ensures
        Seq::<A>::empty().filter(p) =~= Seq::<A>::empty(),
{
    reveal(Seq::filter);
}

/// Every element of a filtered sequence occurs in the original.
pub proof fn lemma_filter_sub<A>(s: Seq<A>, p: spec_fn(A) -> bool)
    ensures
        forall|j: int|
            0 <= j < s.filter(p).len() ==> exists|k: int|
                0 <= k < s.len() && s[k] == #[trigger] s.filter(p)[j],
    decreases s.len(),
{
    reveal(Seq::filter);
    if s.len() == 0 {
    } else {
        let s0 = s.drop_last();
        let x = s.last();
        lemma_filter_sub(s0, p);
        assert forall|j: int| 0 <= j < s.filter(p).len() implies exists|k: int|
            0 <= k < s.len() && s[k] == #[trigger] s.filter(p)[j] by {
            if j < s0.filter(p).len() {
                assert(s.filter(p)[j] == s0.filter(p)[j]);
                let k = choose|k: int| 0 <= k < s0.len() && s0[k] == s0.filter(p)[j];
                assert(s[k] == s0[k]);
            } else {
                assert(s.filter(p)[j] == x);
                assert(s[s.len() - 1] == x);
            }
        }
    }
}

/// An element of the original that the predicate keeps occurs in the filtered
/// sequence.
pub proof fn lemma_filter_keeps<A>(s: Seq<A>, p: spec_fn(A) -> bool, k: int)
    requires
        0 <= k < s.len(),
        p(s[k]),
    ensures
        exists|j: int| 0 <= j < s.filter(p).len() && s.filter(p)[j] == s[k],
    decreases s.len(),
{
    reveal(Seq::filter);
    if k == s.len() - 1 {
        assert(s.filter(p).last() == s[k]);
    } else {
        let s0 = s.drop_last();
        lemma_filter_keeps(s0, p, k);
        let j = choose|j: int| 0 <= j < s0.filter(p).len() && s0.filter(p)[j] == s0[k];
        assert(s.filter(p)[j] == s0[k]);
        assert(s0[k] == s[k]);
    }
}

/// Filtering a history preserves the structural invariant, as long as every
/// kept tool result keeps some witness for its tool call.
pub proof fn lemma_filter_preserves_inv(h: Seq<InteractionV>, keep: spec_fn(InteractionV) -> bool)
    requires
        history_inv(h),
        forall|j: int|
            0 <= j < h.len() && iv_is_result(#[trigger] h[j]) && keep(h[j]) ==> exists|w: int|
                0 <= w < j && iv_has_call(#[trigger] h[w], iv_result_id(h[j])) && keep(h[w]),
    ensures
        history_inv(h.filter(keep)),
    decreases h.len(),
{
    reveal(Seq::filter);
    if h.len() == 0 {
    } else {
        let s0 = h.drop_last();
        let x = h.last();
        let f0 = s0.filter(keep);
        let f = h.filter(keep);
        assert forall|j: int|
            0 <= j < s0.len() && iv_is_result(#[trigger] s0[j]) && keep(s0[j]) implies exists|
            w: int,
        |
            0 <= w < j && iv_has_call(#[trigger] s0[w], iv_result_id(s0[j])) && keep(s0[w]) by {
            assert(s0[j] == h[j]);
            let w = choose|w: int|
                0 <= w < j && iv_has_call(#[trigger] h[w], iv_result_id(h[j])) && keep(h[w]);
            assert(s0[w] == h[w]);
        }
        assert(history_inv(s0)) by {
            assert forall|j: int|
                0 <= j < s0.len() && iv_is_result(#[trigger] s0[j]) implies exists|w: int|
                0 <= w < j && iv_has_call(#[trigger] s0[w], iv_result_id(s0[j])) by {
                assert(s0[j] == h[j]);
                let w = choose|w: int|
                    0 <= w < j && iv_has_call(#[trigger] h[w], iv_result_id(h[j]));
                assert(s0[w] == h[w]);
            }
            assert forall|j1: int, j2: int|
                0 <= j1 < j2 < s0.len() && iv_is_result(#[trigger] s0[j1]) && iv_is_result(
                    #[trigger] s0[j2],
                ) implies iv_result_id(s0[j1]) != iv_result_id(s0[j2]) by {
                assert(s0[j1] == h[j1] && s0[j2] == h[j2]);
            }
        }
        lemma_filter_preserves_inv(s0, keep);
        lemma_filter_sub(s0, keep);
        if keep(x) {
            assert(f =~= f0.push(x));
            // Every result of `f` resolves backwards.
            assert forall|j: int| 0 <= j < f.len() && iv_is_result(#[trigger] f[j]) implies exists|
                w: int,
            | 0 <= w < j && iv_has_call(#[trigger] f[w], iv_result_id(f[j])) by {
                if j < f0.len() {
                    assert(f[j] == f0[j]);
                    let w = choose|w: int|
                        0 <= w < j && iv_has_call(#[trigger] f0[w], iv_result_id(f0[j]));
                    assert(f[w] == f0[w]);
                    assert(iv_has_call(f[w], iv_result_id(f[j])));
                } else {
                    assert(f[j] == x);
                    let w = choose|w: int|
                        0 <= w < h.len() - 1 && iv_has_call(#[trigger] h[w], iv_result_id(x))
                            && keep(h[w]);
                    assert(s0[w] == h[w]);
                    lemma_filter_keeps(s0, keep, w);
                    let wi = choose|wi: int| 0 <= wi < f0.len() && f0[wi] == s0[w];
                    assert(f[wi] == f0[wi]);
                    assert(iv_has_call(f[wi], iv_result_id(f[j])));
                }
            }
            // No two results of `f` answer the same call.
            assert forall|j1: int, j2: int|
                0 <= j1 < j2 < f.len() && iv_is_result(#[trigger] f[j1]) && iv_is_result(
                    #[trigger] f[j2],
                ) implies iv_result_id(f[j1]) != iv_result_id(f[j2]) by {
                if j2 < f0.len() {
                    assert(f[j1] == f0[j1] && f[j2] == f0[j2]);
                } else {
                    assert(f[j2] == x);
                    assert(f[j1] == f0[j1]);
                    let k = choose|k: int| 0 <= k < s0.len() && s0[k] == f0[j1];
                    assert(h[k] == s0[k]);
                    assert(h[h.len() - 1] == x);
                    assert(iv_result_id(h[k]) != iv_result_id(h[h.len() - 1]));
                }
            }
        } else {
            assert(f =~= f0);
        }
    }
}

/// Filtering a history keeps interaction identifiers unique.
pub proof fn lemma_filter_preserves_ids_unique(
    h: Seq<InteractionV>,
    keep: spec_fn(InteractionV) -> bool,
)
    requires
        ids_unique(h),
    ensures
        ids_unique(h.filter(keep)),
    decreases h.len(),
{
    reveal(Seq::filter);
    if h.len() == 0 {
    } else {
        let s0 = h.drop_last();
        let x = h.last();
        let f0 = s0.filter(keep);
        let f = h.filter(keep);
        assert(ids_unique(s0));
        lemma_filter_preserves_ids_unique(s0, keep);
        lemma_filter_sub(s0, keep);
        if keep(x) {
            assert(f =~= f0.push(x));
            assert forall|j1: int, j2: int| 0 <= j1 < j2 < f.len() implies iv_id(
                #[trigger] f[j1],
            ) != iv_id(#[trigger] f[j2]) by {
                if j2 < f0.len() {
                    assert(f[j1] == f0[j1] && f[j2] == f0[j2]);
                } else {
                    assert(f[j2] == x);
                    assert(f[j1] == f0[j1]);
                    let k = choose|k: int| 0 <= k < s0.len() && s0[k] == f0[j1];
                    assert(h[k] == s0[k]);
                    assert(h[h.len() - 1] == x);
                    assert(iv_id(h[k]) != iv_id(h[h.len() - 1]));
                }
            }
        } else {
            assert(f =~= f0);
        }
    }
}

/// Pushing a user message or a model response never breaks the structural
/// invariant: neither is a tool result, so nothing new has to resolve.
pub proof fn lemma_push_non_result_preserves_inv(h: Seq<InteractionV>, i: InteractionV)
    requires
        history_inv(h),
        !iv_is_result(i),
    ensures
        history_inv(h.push(i)),
{
    let h1 = h.push(i);
    assert forall|j: int| 0 <= j < h1.len() && iv_is_result(#[trigger] h1[j]) implies exists|
        w: int,
    | 0 <= w < j && iv_has_call(#[trigger] h1[w], iv_result_id(h1[j])) by {
        assert(h1[j] == h[j]);
        let w = choose|w: int| 0 <= w < j && iv_has_call(#[trigger] h[w], iv_result_id(h[j]));
        assert(h1[w] == h[w]);
    }
    assert forall|j1: int, j2: int|
        0 <= j1 < j2 < h1.len() && iv_is_result(#[trigger] h1[j1]) && iv_is_result(
            #[trigger] h1[j2],
        ) implies iv_result_id(h1[j1]) != iv_result_id(h1[j2]) by {
        assert(h1[j1] == h[j1]);
        assert(h1[j2] == h[j2]);
    }
}

/// Pushing a tool result preserves the structural invariant exactly when the
/// result answers a tool call already in the history and no earlier result
/// answers the same call.
pub proof fn lemma_push_result_preserves_inv(h: Seq<InteractionV>, i: InteractionV)
    requires
        history_inv(h),
        iv_is_result(i),
        exists|w: int| 0 <= w < h.len() && iv_has_call(#[trigger] h[w], iv_result_id(i)),
        !has_result(h, iv_result_id(i)),
    ensures
        history_inv(h.push(i)),
{
    let h1 = h.push(i);
    assert forall|j: int| 0 <= j < h1.len() && iv_is_result(#[trigger] h1[j]) implies exists|
        w: int,
    | 0 <= w < j && iv_has_call(#[trigger] h1[w], iv_result_id(h1[j])) by {
        if j < h.len() {
            assert(h1[j] == h[j]);
            let w = choose|w: int| 0 <= w < j && iv_has_call(#[trigger] h[w], iv_result_id(h[j]));
            assert(h1[w] == h[w]);
        } else {
            assert(h1[j] == i);
            let w = choose|w: int| 0 <= w < h.len() && iv_has_call(#[trigger] h[w], iv_result_id(i));
            assert(h1[w] == h[w]);
        }
    }
    assert forall|j1: int, j2: int|
        0 <= j1 < j2 < h1.len() && iv_is_result(#[trigger] h1[j1]) && iv_is_result(
            #[trigger] h1[j2],
        ) implies iv_result_id(h1[j1]) != iv_result_id(h1[j2]) by {
        assert(h1[j1] == h[j1]);
        if j2 < h.len() {
            assert(h1[j2] == h[j2]);
        } else {
            assert(h1[j2] == i);
            if iv_result_id(h[j1]) == iv_result_id(i) {
                assert(has_result(h, iv_result_id(i)));
            }
        }
    }
}

/// Pushing any interaction keeps identifiers unique as long as the new
/// identifier is fresh.
pub proof fn lemma_push_preserves_ids_unique(h: Seq<InteractionV>, i: InteractionV)
    requires
        ids_unique(h),
        forall|j: int| 0 <= j < h.len() ==> iv_id(#[trigger] h[j]) != iv_id(i),
    ensures
        ids_unique(h.push(i)),
{
    let h1 = h.push(i);
    assert forall|j1: int, j2: int| 0 <= j1 < j2 < h1.len() implies iv_id(#[trigger] h1[j1])
        != iv_id(#[trigger] h1[j2]) by {
        assert(h1[j1] == h[j1]);
        if j2 < h.len() {
            assert(h1[j2] == h[j2]);
        } else {
            assert(h1[j2] == i);
        }
    }
}

/// If some interaction carries `id`, a first one does.
pub proof fn lemma_first_id_exists(h: Seq<InteractionV>, id: usize, j: int)
    requires
        0 <= j < h.len(),
        iv_id(h[j]) == id,
    ensures
        exists|k: int| is_first_id(h, id, k),
    decreases j,
{
    if forall|x: int| 0 <= x < j ==> iv_id(#[trigger] h[x]) != id {
        assert(is_first_id(h, id, j));
    } else {
        let x = choose|x: int| 0 <= x < j && iv_id(#[trigger] h[x]) == id;
        lemma_first_id_exists(h, id, x);
    }
}

/// If some tool result at or after `from` answers `tcid`, a first one does.
pub proof fn lemma_first_result_from_exists(
    h: Seq<InteractionV>,
    from: int,
    tcid: Seq<char>,
    p: int,
)
    requires
        from <= p < h.len(),
        iv_is_result(h[p]),
        iv_result_id(h[p]) == tcid,
    ensures
        exists|j: int| is_first_result_from(h, from, tcid, j),
    decreases p - from,
{
    if forall|x: int|
        from <= x < p ==> !(iv_is_result(#[trigger] h[x]) && iv_result_id(h[x]) == tcid) {
        assert(is_first_result_from(h, from, tcid, p));
    } else {
        let x = choose|x: int|
            from <= x < p && iv_is_result(#[trigger] h[x]) && iv_result_id(h[x]) == tcid;
        lemma_first_result_from_exists(h, from, tcid, x);
    }
}

/// A tool call stripped of one id keeps exactly its other calls.
pub proof fn lemma_strip_calls_facts(i: InteractionV, tcid: Seq<char>)
    ensures
        iv_id(strip_calls(i, tcid)) == iv_id(i),
        iv_is_result(strip_calls(i, tcid)) == iv_is_result(i),
        iv_is_result(i) ==> strip_calls(i, tcid) == i,
        iv_result_id(strip_calls(i, tcid)) == iv_result_id(i),
        iv_calls(strip_calls(i, tcid)) == iv_calls(i).filter(keep_other_calls(tcid)),
{
    match i {
        InteractionV::LlmResponse { tool_calls: Some(cs), .. } => {},
        _ => {
            lemma_filter_empty(keep_other_calls(tcid));
            assert(iv_calls(i) =~= Seq::<crate::openrouter::ToolCallV>::empty());
        },
    }
}

/// The effect of deleting one tool-call/result pair: the structural
/// invariant and the uniqueness of identifiers are preserved, nothing empty
/// remains, the interaction that carried the call keeps exactly its other
/// calls, every surviving tool result was already present, and every tool
/// result answering a different call survives.
pub proof fn lemma_delete_by_tool_id_effect(h: Seq<InteractionV>, lid: usize, tcid: Seq<char>)
    requires
        history_inv(h),
        ids_unique(h),
    ensures
        ({
            let r = spec_delete_by_tool_id(h, lid, tcid);
            &&& history_inv(r)
            &&& ids_unique(r)
            &&& forall|q: int| 0 <= q < r.len() ==> !iv_is_empty(#[trigger] r[q])
            &&& first_id_idx(h, lid) >= 0 ==> forall|q: int|
                0 <= q < r.len() && iv_id(#[trigger] r[q]) == lid ==> r[q] == strip_calls(
                    h[first_id_idx(h, lid)],
                    tcid,
                )
            &&& first_id_idx(h, lid) < 0 ==> forall|q: int|
                0 <= q < r.len() ==> iv_id(#[trigger] r[q]) != lid
            &&& forall|q: int|
                0 <= q < r.len() && iv_is_result(#[trigger] r[q]) ==> exists|p: int|
                    0 <= p < h.len() && h[p] == r[q]
            &&& forall|p: int|
                0 <= p < h.len() && iv_is_result(#[trigger] h[p]) && iv_result_id(h[p]) != tcid
                    ==> exists|q: int| 0 <= q < r.len() && r[q] == h[p]
            &&& forall|q: int|
                0 <= q < r.len() ==> exists|p: int|
                    0 <= p < h.len() && (#[trigger] r[q] == h[p] || r[q] == strip_calls(
                        h[p],
                        tcid,
                    ))
            &&& calls_unique(h) ==> calls_unique(r)
            &&& (calls_unique(h) && first_id_idx(h, lid) >= 0 && iv_has_call(
                h[first_id_idx(h, lid)],
                tcid,
            )) ==> !has_result(r, tcid)
        }),
{
    broadcast use vstd::seq_lib::group_filter_ensures;

    let r = spec_delete_by_tool_id(h, lid, tcid);
    let k = first_id_idx(h, lid);
    if k < 0 {
        assert(r == prune(h));
        // No interaction carries `lid` at all.
        assert forall|p: int| 0 <= p < h.len() implies iv_id(#[trigger] h[p]) != lid by {
            if iv_id(h[p]) == lid {
                lemma_first_id_exists(h, lid, p);
                let kk = choose|kk: int| is_first_id(h, lid, kk);
                lemma_first_id_idx(h, lid, kk);
            }
        }
        lemma_prune_effect(h);
        lemma_filter_sub(h, keep_non_empty());
        assert forall|q: int| 0 <= q < r.len() implies iv_id(#[trigger] r[q]) != lid by {
            let p = choose|p: int| 0 <= p < h.len() && h[p] == r[q];
        }
        assert forall|q: int| 0 <= q < r.len() implies exists|p: int|
            0 <= p < h.len() && (#[trigger] r[q] == h[p] || r[q] == strip_calls(h[p], tcid)) by {
            let p = choose|p: int| 0 <= p < h.len() && h[p] == r[q];
        }
        assert forall|p: int|
            0 <= p < h.len() && iv_is_result(#[trigger] h[p]) && iv_result_id(h[p]) != tcid
            implies exists|q: int| 0 <= q < r.len() && r[q] == h[p] by {
            lemma_filter_keeps(h, keep_non_empty(), p);
        }
        if calls_unique(h) {
            lemma_filter_preserves_calls_unique(h, keep_non_empty());
        }
    } else {
        assert(is_first_id(h, lid, k)) by {
            if exists|kk: int| is_first_id(h, lid, kk) {
            } else {
                assert(first_id_idx(h, lid) == -1);
            }
            let kk = choose|kk: int| is_first_id(h, lid, kk);
            lemma_first_id_idx(h, lid, kk);
        }
        let x = strip_calls(h[k], tcid);
        let h1 = h.update(k, x);
        let j = first_result_idx_from(h1, k, tcid);
        let h2 = if j < 0 { h1 } else { h1.remove(j) };
        lemma_strip_calls_facts(h[k], tcid);
        // Results of h1 coincide with those of h, element for element.
        assert forall|p: int| 0 <= p < h1.len() implies iv_is_result(#[trigger] h1[p])
            == iv_is_result(h[p]) && (iv_is_result(h[p]) ==> h1[p] == h[p]) && iv_id(h1[p]) == iv_id(
            h[p],
        ) by {
            if p != k {
                assert(h1[p] == h[p]);
            }
        }
        if j >= 0 {
            assert(is_first_result_from(h1, k, tcid, j)) by {
                let jj = choose|jj: int| is_first_result_from(h1, k, tcid, jj);
                lemma_first_result_idx_from(h1, k, tcid, jj);
            }
        } else {
            // No tool result answering `tcid` stands at or after k.
            assert forall|p: int| k <= p < h1.len() implies !(iv_is_result(#[trigger] h1[p])
                && iv_result_id(h1[p]) == tcid) by {
                if iv_is_result(h1[p]) && iv_result_id(h1[p]) == tcid {
                    lemma_first_result_from_exists(h1, k, tcid, p);
                    let jj = choose|jj: int| is_first_result_from(h1, k, tcid, jj);
                    lemma_first_result_idx_from(h1, k, tcid, jj);
                }
            }
        }
        // The index map from h2 back to h1.
        let m = |q: int| if j < 0 || q < j { q } else { q + 1 };
        assert forall|q: int| 0 <= q < h2.len() implies h2[q] == h1[m(q)] && 0 <= m(q) < h1.len()
            && (j < 0 || m(q) != j) by {}
        // The structural invariant holds of h2.
        assert forall|q: int| 0 <= q < h2.len() && iv_is_result(#[trigger] h2[q]) implies exists|
            w: int,
        | 0 <= w < q && iv_has_call(#[trigger] h2[w], iv_result_id(h2[q])) by {
            let p = m(q);
            let rid = iv_result_id(h2[q]);
            assert(h2[q] == h1[p]);
            assert(iv_is_result(h[p]) && h1[p] == h[p]);
            let w = choose|w: int| 0 <= w < p && iv_has_call(#[trigger] h[w], iv_result_id(h[p]));
            if rid == tcid {
                // The result survives, so it stands before k (else it would
                // have been the first match and been removed).
                assert(j < 0 || p != j);
                if p >= k {
                    if j >= 0 {
                        // h1[j] and h1[p] are distinct results with the same id.
                        assert(iv_is_result(h[j]) && iv_result_id(h[j]) == tcid);
                        assert(false);
                    } else {
                        assert(false);
                    }
                }
                assert(p < k);
                assert(w < p < k);
                assert(h1[w] == h[w]);
                // With j < 0 or p < k <= j, positions below p are unshifted.
                assert(iv_has_call(h2[w], rid));
            } else {
                // The witness survives: either untouched, or it is h[k]
                // which keeps every call other than tcid.
                assert(iv_has_call(h1[w], rid)) by {
                    if w == k {
                        let ci = choose|ci: int|
                            0 <= ci < iv_calls(h[k]).len() && iv_calls(h[k])[ci].id == rid;
                        assert((keep_other_calls(tcid))(iv_calls(h[k])[ci]));
                        lemma_filter_keeps(iv_calls(h[k]), keep_other_calls(tcid), ci);
                        let ci2 = choose|ci2: int|
                            0 <= ci2 < iv_calls(x).len() && iv_calls(x)[ci2] == iv_calls(h[k])[ci];
                    } else {
                        assert(h1[w] == h[w]);
                    }
                }
                // Map w into h2.
                if j >= 0 && w == j {
                    // h1[j] is a tool result and holds no calls.
                    let ci = choose|ci: int|
                        0 <= ci < iv_calls(h1[w]).len() && iv_calls(h1[w])[ci].id == rid;
                    assert(false);
                }
                let w2 = if j < 0 || w < j { w } else { w - 1 };
                assert(h2[w2] == h1[w]);
                assert(w2 < q);
                assert(iv_has_call(h2[w2], rid));
            }
        }
        assert forall|q1: int, q2: int|
            0 <= q1 < q2 < h2.len() && iv_is_result(#[trigger] h2[q1]) && iv_is_result(
                #[trigger] h2[q2],
            ) implies iv_result_id(h2[q1]) != iv_result_id(h2[q2]) by {
            let p1 = m(q1);
            let p2 = m(q2);
            assert(h2[q1] == h1[p1] && h2[q2] == h1[p2]);
            assert(p1 < p2);
            assert(iv_is_result(h[p1]) && iv_is_result(h[p2]));
        }
        assert(history_inv(h2));
        assert forall|q1: int, q2: int| 0 <= q1 < q2 < h2.len() implies iv_id(#[trigger] h2[q1])
            != iv_id(#[trigger] h2[q2]) by {
            let p1 = m(q1);
            let p2 = m(q2);
            assert(h2[q1] == h1[p1] && h2[q2] == h1[p2]);
            assert(p1 < p2);
        }
        assert(ids_unique(h2));
        // Prune, carrying the invariant through the filter.
        assert(r == prune(h2));
        assert forall|q: int|
            0 <= q < h2.len() && iv_is_result(#[trigger] h2[q]) && (keep_non_empty())(h2[q])
            implies exists|w: int|
            0 <= w < q && iv_has_call(#[trigger] h2[w], iv_result_id(h2[q])) && (keep_non_empty())(
                h2[w],
            ) by {
            let w = choose|w: int| 0 <= w < q && iv_has_call(#[trigger] h2[w], iv_result_id(h2[q]));
            let ci = choose|ci: int|
                0 <= ci < iv_calls(h2[w]).len() && iv_calls(h2[w])[ci].id == iv_result_id(h2[q]);
            assert(!iv_is_empty(h2[w]));
        }
        lemma_filter_preserves_inv(h2, keep_non_empty());
        lemma_filter_preserves_ids_unique(h2, keep_non_empty());
        lemma_filter_sub(h2, keep_non_empty());
        // Anything still carrying lid is the stripped interaction.
        assert forall|q: int| 0 <= q < r.len() && iv_id(#[trigger] r[q]) == lid implies r[q]
            == strip_calls(h[k], tcid) by {
            let q2 = choose|q2: int| 0 <= q2 < h2.len() && h2[q2] == r[q];
            let p = m(q2);
            assert(h2[q2] == h1[p]);
            assert(iv_id(h1[p]) == iv_id(h[p]));
            if p != k {
                assert(iv_id(h[p]) != iv_id(h[k]));
                assert(false);
            }
            assert(h1[p] == x);
        }
        // Surviving results were already present.
        assert forall|q: int| 0 <= q < r.len() && iv_is_result(#[trigger] r[q]) implies exists|
            p: int,
        | 0 <= p < h.len() && h[p] == r[q] by {
            let q2 = choose|q2: int| 0 <= q2 < h2.len() && h2[q2] == r[q];
            let p = m(q2);
            assert(h2[q2] == h1[p]);
            assert(h1[p] == h[p]);
        }
        // Results answering other calls survive.
        assert forall|p: int|
            0 <= p < h.len() && iv_is_result(#[trigger] h[p]) && iv_result_id(h[p]) != tcid
            implies exists|q: int| 0 <= q < r.len() && r[q] == h[p] by {
            assert(h1[p] == h[p]);
            if j >= 0 && p == j {
                assert(iv_result_id(h1[j]) == tcid);
                assert(false);
            }
            let q2 = if j < 0 || p < j { p } else { p - 1 };
            assert(h2[q2] == h1[p]);
            assert(!iv_is_empty(h2[q2]));
            lemma_filter_keeps(h2, keep_non_empty(), q2);
        }
        assert forall|q: int| 0 <= q < r.len() implies exists|p: int|
            0 <= p < h.len() && (#[trigger] r[q] == h[p] || r[q] == strip_calls(h[p], tcid)) by {
            let q2 = choose|q2: int| 0 <= q2 < h2.len() && h2[q2] == r[q];
            let p = m(q2);
            assert(h2[q2] == h1[p]);
            if p == k {
                assert(r[q] == strip_calls(h[k], tcid));
            } else {
                assert(r[q] == h[p]);
            }
        }
        if calls_unique(h) {
            // Call ids stay unique: the stripped response keeps a subset of
            // its calls, everything else is untouched.
            let cs = iv_calls(h[k]);
            let fcs = cs.filter(keep_other_calls(tcid));
            lemma_filter_sub(cs, keep_other_calls(tcid));
            lemma_filter_pair(cs, keep_other_calls(tcid));
            assert(calls_unique(h2)) by {
                assert forall|q1: int, c1: int, q2: int, c2: int|
                    0 <= q1 < h2.len() && 0 <= c1 < iv_calls(h2[q1]).len() && 0 <= q2 < h2.len()
                        && 0 <= c2 < iv_calls(h2[q2]).len() && (q1 != q2 || c1 != c2) implies (
                #[trigger] iv_calls(h2[q1])[c1]).id != (#[trigger] iv_calls(h2[q2])[c2]).id by {
                    let p1 = m(q1);
                    let p2 = m(q2);
                    assert(h2[q1] == h1[p1] && h2[q2] == h1[p2]);
                    if q1 == q2 {
                        if p1 == k {
                            let (o1, o2) = if c1 < c2 {
                                choose|o1: int, o2: int|
                                    0 <= o1 < o2 < cs.len() && cs[o1] == fcs[c1] && cs[o2]
                                        == fcs[c2]
                            } else {
                                let (a, b) = choose|a: int, b: int|
                                    0 <= a < b < cs.len() && cs[a] == fcs[c2] && cs[b] == fcs[c1];
                                (b, a)
                            };
                            assert(iv_calls(h[k])[o1].id != iv_calls(h[k])[o2].id);
                        } else {
                            assert(h1[p1] == h[p1]);
                            assert(iv_calls(h[p1])[c1].id != iv_calls(h[p1])[c2].id);
                        }
                    } else {
                        assert(p1 != p2);
                        let o1 = if p1 == k {
                            choose|o1: int| 0 <= o1 < cs.len() && cs[o1] == fcs[c1]
                        } else {
                            c1
                        };
                        let o2 = if p2 == k {
                            choose|o2: int| 0 <= o2 < cs.len() && cs[o2] == fcs[c2]
                        } else {
                            c2
                        };
                        assert(iv_calls(h2[q1])[c1] == iv_calls(h[p1])[o1]) by {
                            if p1 == k {
                            } else {
                                assert(h1[p1] == h[p1]);
                            }
                        }
                        assert(iv_calls(h2[q2])[c2] == iv_calls(h[p2])[o2]) by {
                            if p2 == k {
                            } else {
                                assert(h1[p2] == h[p2]);
                            }
                        }
                        assert(iv_calls(h[p1])[o1].id != iv_calls(h[p2])[o2].id);
                    }
                }
            }
            lemma_filter_preserves_calls_unique(h2, keep_non_empty());
            // The pair is gone: no surviving result answers the deleted call.
            if iv_has_call(h[k], tcid) {
                assert(!has_result(r, tcid)) by {
                    if has_result(r, tcid) {
                        let q = choose|q: int|
                            0 <= q < r.len() && iv_is_result(#[trigger] r[q]) && iv_result_id(
                                r[q],
                            ) == tcid;
                        let q2 = choose|q2: int| 0 <= q2 < h2.len() && h2[q2] == r[q];
                        let p2 = m(q2);
                        assert(h2[q2] == h1[p2]);
                        assert(h1[p2] == h[p2]);
                        assert(iv_is_result(h[p2]) && iv_result_id(h[p2]) == tcid);
                        // The result at p2 resolves, and by call uniqueness
                        // its witness is k itself, so p2 > k.
                        let w = choose|w: int| 0 <= w < p2 && iv_has_call(#[trigger] h[w], tcid);
                        assert(w == k) by {
                            if w != k {
                                let cw = choose|cw: int|
                                    0 <= cw < iv_calls(h[w]).len() && iv_calls(h[w])[cw].id
                                        == tcid;
                                let ck = choose|ck: int|
                                    0 <= ck < iv_calls(h[k]).len() && iv_calls(h[k])[ck].id
                                        == tcid;
                                assert(iv_calls(h[w])[cw].id != iv_calls(h[k])[ck].id);
                            }
                        }
                        assert(k < p2);
                        // So a first matching result from k exists and was
                        // removed; but the survivor is a second one.
                        lemma_first_result_from_exists(h1, k, tcid, p2);
                        assert(j >= 0);
                        assert(p2 != j);
                        assert(iv_is_result(h1[j]) && iv_result_id(h1[j]) == tcid);
                        assert(iv_is_result(h[j]) && iv_result_id(h[j]) == tcid);
                        assert(iv_result_id(h[p2]) != iv_result_id(h[j]));
                    }
                }
            }
        }
    }
}

/// Pruning preserves the structural invariant, keeps identifiers unique, and
/// leaves nothing empty behind.
pub proof fn lemma_prune_effect(h: Seq<InteractionV>)
    requires
        history_inv(h),
        ids_unique(h),
    ensures
        history_inv(prune(h)),
        ids_unique(prune(h)),
        forall|q: int| 0 <= q < prune(h).len() ==> !iv_is_empty(#[trigger] prune(h)[q]),
        forall|q: int|
            0 <= q < prune(h).len() && iv_is_result(#[trigger] prune(h)[q]) ==> exists|p: int|
                0 <= p < h.len() && h[p] == prune(h)[q],
{
    broadcast use vstd::seq_lib::group_filter_ensures;

    assert forall|p: int|
        0 <= p < h.len() && iv_is_result(#[trigger] h[p]) && (keep_non_empty())(h[p]) implies exists|
        w: int,
    |
        0 <= w < p && iv_has_call(#[trigger] h[w], iv_result_id(h[p])) && (keep_non_empty())(
            h[w],
        ) by {
        let w = choose|w: int| 0 <= w < p && iv_has_call(#[trigger] h[w], iv_result_id(h[p]));
        let ci = choose|ci: int|
            0 <= ci < iv_calls(h[w]).len() && iv_calls(h[w])[ci].id == iv_result_id(h[p]);
        assert(!iv_is_empty(h[w]));
    }
    lemma_filter_preserves_inv(h, keep_non_empty());
    lemma_filter_preserves_ids_unique(h, keep_non_empty());
    lemma_filter_sub(h, keep_non_empty());
}

/// Deleting the pairs of a list of tool calls one after the other keeps the
/// structural invariant and the uniqueness of identifiers, and leaves the
/// targeted interaction without any tool call, provided every one of its
/// calls is named in the list.
pub proof fn lemma_delete_calls_loop_effect(h: Seq<InteractionV>, lid: usize, ids: Seq<Seq<char>>)
    requires
        history_inv(h),
        ids_unique(h),
        forall|jq: int, ci: int|
            0 <= jq < h.len() && iv_id(#[trigger] h[jq]) == lid && 0 <= ci < iv_calls(
                h[jq],
            ).len() ==> ids.contains((#[trigger] iv_calls(h[jq])[ci]).id),
    ensures
        ({
            let r = delete_calls_loop(h, lid, ids);
            &&& history_inv(r)
            &&& ids_unique(r)
            &&& forall|q: int|
                0 <= q < r.len() && iv_id(#[trigger] r[q]) == lid ==> iv_calls(r[q]).len() == 0
            &&& ids.len() > 0 ==> forall|q: int| 0 <= q < r.len() ==> !iv_is_empty(#[trigger] r[q])
        }),
    decreases ids.len(),
{
    broadcast use vstd::seq_lib::group_filter_ensures;

    if ids.len() == 0 {
        assert forall|q: int|
            0 <= q < h.len() && iv_id(#[trigger] h[q]) == lid implies iv_calls(h[q]).len()
            == 0 by {
            if iv_calls(h[q]).len() > 0 {
                assert(ids.contains(iv_calls(h[q])[0].id));
                let n = choose|n: int| 0 <= n < ids.len() && ids[n] == iv_calls(h[q])[0].id;
            }
        }
    } else {
        let tcid = ids[0];
        let h1 = spec_delete_by_tool_id(h, lid, tcid);
        lemma_delete_by_tool_id_effect(h, lid, tcid);
        let k = first_id_idx(h, lid);
        // Every call still carried by the lid interaction is named in the
        // remaining list.
        assert forall|jq: int, ci: int|
            0 <= jq < h1.len() && iv_id(#[trigger] h1[jq]) == lid && 0 <= ci < iv_calls(
                h1[jq],
            ).len() implies ids.drop_first().contains((#[trigger] iv_calls(h1[jq])[ci]).id) by {
            if k >= 0 {
                assert(h1[jq] == strip_calls(h[k], tcid));
                lemma_strip_calls_facts(h[k], tcid);
                let cs = iv_calls(h[k]);
                let fcs = cs.filter(keep_other_calls(tcid));
                assert(iv_calls(h1[jq]) == fcs);
                lemma_filter_sub(cs, keep_other_calls(tcid));
                let c0 = choose|c0: int| 0 <= c0 < cs.len() && cs[c0] == fcs[ci];
                assert(is_first_id(h, lid, k)) by {
                    if exists|kk: int| is_first_id(h, lid, kk) {
                        let kk = choose|kk: int| is_first_id(h, lid, kk);
                        lemma_first_id_idx(h, lid, kk);
                    }
                }
                assert(ids.contains(cs[c0].id));
                let n = choose|n: int| 0 <= n < ids.len() && ids[n] == cs[c0].id;
                assert((keep_other_calls(tcid))(fcs[ci]));
                assert(fcs[ci].id != tcid);
                assert(n != 0);
                assert(ids.drop_first()[n - 1] == ids[n]);
            }
        }
        lemma_delete_calls_loop_effect(h1, lid, ids.drop_first());
        let r = delete_calls_loop(h, lid, ids);
        assert(r == delete_calls_loop(h1, lid, ids.drop_first()));
        if ids.len() == 1 {
            // The loop ends on h1 itself, which the delete already pruned.
            assert(ids.drop_first().len() == 0);
            assert(r == h1);
        }
    }
}

/// Deleting an interaction by its identifier preserves the structural
/// invariant and the uniqueness of identifiers.
pub proof fn lemma_delete_by_id_preserves_inv(h: Seq<InteractionV>, id: usize)
    requires
        history_inv(h),
        ids_unique(h),
    ensures
        history_inv(spec_delete_by_id(h, id)),
        ids_unique(spec_delete_by_id(h, id)),
{
    broadcast use vstd::seq_lib::group_filter_ensures;

    let k = first_id_idx(h, id);
    let keep = keep_other_ids(id);
    if k < 0 {
        // Nothing carries the id: every witness survives the final filter.
        assert forall|p: int| 0 <= p < h.len() implies iv_id(#[trigger] h[p]) != id by {
            if iv_id(h[p]) == id {
                lemma_first_id_exists(h, id, p);
                let kk = choose|kk: int| is_first_id(h, id, kk);
                lemma_first_id_idx(h, id, kk);
            }
        }
        assert forall|j: int|
            0 <= j < h.len() && iv_is_result(#[trigger] h[j]) && keep(h[j]) implies exists|w: int|
            0 <= w < j && iv_has_call(#[trigger] h[w], iv_result_id(h[j])) && keep(h[w]) by {
            let w = choose|w: int| 0 <= w < j && iv_has_call(#[trigger] h[w], iv_result_id(h[j]));
        }
        lemma_filter_preserves_inv(h, keep);
        lemma_filter_preserves_ids_unique(h, keep);
    } else {
        assert(is_first_id(h, id, k)) by {
            if exists|kk: int| is_first_id(h, id, kk) {
                let kk = choose|kk: int| is_first_id(h, id, kk);
                lemma_first_id_idx(h, id, kk);
            }
        }
        match h[k] {
            InteractionV::LlmResponse { tool_calls: Some(cs), .. } => {
                let ids0 = cs.map_values(crate::interaction::call_id_of());
                assert forall|jq: int, ci: int|
                    0 <= jq < h.len() && iv_id(#[trigger] h[jq]) == id && 0 <= ci < iv_calls(
                        h[jq],
                    ).len() implies ids0.contains((#[trigger] iv_calls(h[jq])[ci]).id) by {
                    assert(jq == k);
                    assert(iv_calls(h[k]) == cs);
                    assert(ids0[ci] == cs[ci].id);
                }
                lemma_delete_calls_loop_effect(h, id, ids0);
                let h1 = delete_calls_loop(h, id, ids0);
                assert forall|j: int|
                    0 <= j < h1.len() && iv_is_result(#[trigger] h1[j]) && keep(h1[j])
                    implies exists|w: int|
                    0 <= w < j && iv_has_call(#[trigger] h1[w], iv_result_id(h1[j])) && keep(
                        h1[w],
                    ) by {
                    let w = choose|w: int|
                        0 <= w < j && iv_has_call(#[trigger] h1[w], iv_result_id(h1[j]));
                    if iv_id(h1[w]) == id {
                        assert(iv_calls(h1[w]).len() == 0);
                        let ci = choose|ci: int|
                            0 <= ci < iv_calls(h1[w]).len() && iv_calls(h1[w])[ci].id
                                == iv_result_id(h1[j]);
                        assert(false);
                    }
                }
                lemma_filter_preserves_inv(h1, keep);
                lemma_filter_preserves_ids_unique(h1, keep);
            },
            InteractionV::ToolResult { tool_call_id: tcid, .. } => {
                let m = crate::interaction::first_holder_idx(h, tcid);
                if m < 0 {
                    assert forall|j: int|
                        0 <= j < h.len() && iv_is_result(#[trigger] h[j]) && keep(h[j])
                        implies exists|w: int|
                        0 <= w < j && iv_has_call(#[trigger] h[w], iv_result_id(h[j])) && keep(
                            h[w],
                        ) by {
                        let w = choose|w: int|
                            0 <= w < j && iv_has_call(#[trigger] h[w], iv_result_id(h[j]));
                        if iv_id(h[w]) == id {
                            assert(w == k);
                            let ci = choose|ci: int|
                                0 <= ci < iv_calls(h[k]).len() && iv_calls(h[k])[ci].id
                                    == iv_result_id(h[j]);
                            assert(false);
                        }
                    }
                    lemma_filter_preserves_inv(h, keep);
                    lemma_filter_preserves_ids_unique(h, keep);
                } else {
                    let lid2 = iv_id(h[m]);
                    lemma_delete_by_tool_id_effect(h, lid2, tcid);
                    let h1 = spec_delete_by_tool_id(h, lid2, tcid);
                    assert forall|j: int|
                        0 <= j < h1.len() && iv_is_result(#[trigger] h1[j]) && keep(h1[j])
                        implies exists|w: int|
                        0 <= w < j && iv_has_call(#[trigger] h1[w], iv_result_id(h1[j])) && keep(
                            h1[w],
                        ) by {
                        let w = choose|w: int|
                            0 <= w < j && iv_has_call(#[trigger] h1[w], iv_result_id(h1[j]));
                        if iv_id(h1[w]) == id {
                            let p = choose|p: int|
                                0 <= p < h.len() && (#[trigger] h1[w] == h[p] || h1[w]
                                    == strip_calls(h[p], tcid));
                            lemma_strip_calls_facts(h[p], tcid);
                            assert(iv_id(h[p]) == id);
                            assert(p == k);
                            assert(iv_is_result(h1[w]));
                            let ci = choose|ci: int|
                                0 <= ci < iv_calls(h1[w]).len() && iv_calls(h1[w])[ci].id
                                    == iv_result_id(h1[j]);
                            assert(false);
                        }
                    }
                    lemma_filter_preserves_inv(h1, keep);
                    lemma_filter_preserves_ids_unique(h1, keep);
                }
            },
            _ => {
                assert forall|j: int|
                    0 <= j < h.len() && iv_is_result(#[trigger] h[j]) && keep(h[j]) implies exists|
                    w: int,
                |
                    0 <= w < j && iv_has_call(#[trigger] h[w], iv_result_id(h[j])) && keep(
                        h[w],
                    ) by {
                    let w = choose|w: int|
                        0 <= w < j && iv_has_call(#[trigger] h[w], iv_result_id(h[j]));
                    if iv_id(h[w]) == id {
                        assert(w == k);
                        assert(iv_calls(h[k]).len() == 0);
                        let ci = choose|ci: int|
                            0 <= ci < iv_calls(h[k]).len() && iv_calls(h[k])[ci].id
                                == iv_result_id(h[j]);
                        assert(false);
                    }
                }
                lemma_filter_preserves_inv(h, keep);
                lemma_filter_preserves_ids_unique(h, keep);
            },
        }
    }
}

/// The cancellation repair preserves the structural invariant and the
/// uniqueness of identifiers, leaves no empty interaction behind, keeps
/// every non-empty interaction other than the most recent model response
/// untouched, and leaves every tool call still carried by that response
/// with a matching result.
pub proof fn lemma_clean_unfinished_effect(h: Seq<InteractionV>)
    requires
        history_inv(h),
        ids_unique(h),
    ensures
        ({
            let r = spec_clean_unfinished(h);
            let k = last_llm_idx(h);
            &&& history_inv(r)
            &&& ids_unique(r)
            &&& k >= 0 ==> forall|q: int| 0 <= q < r.len() ==> !iv_is_empty(#[trigger] r[q])
            &&& forall|j: int|
                0 <= j < h.len() && j != k && !iv_is_empty(#[trigger] h[j]) ==> exists|q: int|
                    0 <= q < r.len() && r[q] == h[j]
            &&& k >= 0 ==> forall|q: int, ci: int|
                0 <= q < r.len() && iv_id(r[q]) == iv_id(h[k]) && 0 <= ci < iv_calls(
                    r[q],
                ).len() ==> has_result(r, (#[trigger] iv_calls(r[q])[ci]).id)
        }),
{
    broadcast use vstd::seq_lib::group_filter_ensures;

    let r = spec_clean_unfinished(h);
    let k = last_llm_idx(h);
    if k < 0 {
    } else {
        let x = strip_unfinished(h[k], h);
        let h1 = h.update(k, x);
        assert(r == prune(h1));
        // The stripped response keeps its identity and is still a response.
        assert(iv_id(x) == iv_id(h[k]) && !iv_is_result(x)) by {
            match h[k] {
                InteractionV::LlmResponse { tool_calls: Some(cs), .. } => {},
                _ => {},
            }
        }
        assert(!iv_is_result(h[k]));
        assert forall|p: int| 0 <= p < h1.len() implies iv_is_result(#[trigger] h1[p])
            == iv_is_result(h[p]) && (iv_is_result(h[p]) ==> h1[p] == h[p]) && iv_id(h1[p]) == iv_id(
            h[p],
        ) by {
            if p != k {
                assert(h1[p] == h[p]);
            }
        }
        // Results answered before are answered still, and vice versa.
        assert forall|id: Seq<char>| has_result(h, id) implies has_result(h1, id) by {
            let j = choose|j: int|
                0 <= j < h.len() && iv_is_result(#[trigger] h[j]) && iv_result_id(h[j]) == id;
            assert(iv_is_result(h1[j]) && iv_result_id(h1[j]) == id);
        }
        // The kept calls of the stripped response all have results.
        assert(iv_calls(x) == iv_calls(h[k]).filter(keep_finished_calls(h))) by {
            match h[k] {
                InteractionV::LlmResponse { tool_calls: Some(cs), .. } => {},
                _ => {
                    lemma_filter_empty(keep_finished_calls(h));
                    assert(iv_calls(h[k]) =~= Seq::<crate::openrouter::ToolCallV>::empty());
                },
            }
        }
        assert forall|ci: int| 0 <= ci < iv_calls(x).len() implies has_result(
            h1,
            (#[trigger] iv_calls(x)[ci]).id,
        ) by {
            assert((keep_finished_calls(h))(iv_calls(x)[ci]));
            assert(has_result(h, iv_calls(x)[ci].id));
        }
        // The structural invariant carries over to the updated history.
        assert forall|j: int| 0 <= j < h1.len() && iv_is_result(#[trigger] h1[j]) implies exists|
            w: int,
        | 0 <= w < j && iv_has_call(#[trigger] h1[w], iv_result_id(h1[j])) by {
            assert(h1[j] == h[j]);
            let rid = iv_result_id(h[j]);
            let w = choose|w: int| 0 <= w < j && iv_has_call(#[trigger] h[w], rid);
            if w == k {
                let ci = choose|ci: int|
                    0 <= ci < iv_calls(h[k]).len() && iv_calls(h[k])[ci].id == rid;
                assert((keep_finished_calls(h))(iv_calls(h[k])[ci])) by {
                    assert(iv_is_result(h[j]) && iv_result_id(h[j]) == rid);
                }
                lemma_filter_keeps(iv_calls(h[k]), keep_finished_calls(h), ci);
                let ci2 = choose|ci2: int|
                    0 <= ci2 < iv_calls(x).len() && iv_calls(x)[ci2] == iv_calls(h[k])[ci];
                assert(iv_has_call(h1[w], rid));
            } else {
                assert(h1[w] == h[w]);
            }
        }
        assert forall|j1: int, j2: int|
            0 <= j1 < j2 < h1.len() && iv_is_result(#[trigger] h1[j1]) && iv_is_result(
                #[trigger] h1[j2],
            ) implies iv_result_id(h1[j1]) != iv_result_id(h1[j2]) by {
            assert(h1[j1] == h[j1] && h1[j2] == h[j2]);
        }
        assert(history_inv(h1));
        assert forall|j1: int, j2: int| 0 <= j1 < j2 < h1.len() implies iv_id(#[trigger] h1[j1])
            != iv_id(#[trigger] h1[j2]) by {}
        assert(ids_unique(h1));
        // Prune the emptied remains, carrying everything through the filter.
        assert forall|q: int|
            0 <= q < h1.len() && iv_is_result(#[trigger] h1[q]) && (keep_non_empty())(h1[q])
            implies exists|w: int|
            0 <= w < q && iv_has_call(#[trigger] h1[w], iv_result_id(h1[q])) && (keep_non_empty())(
                h1[w],
            ) by {
            let w = choose|w: int| 0 <= w < q && iv_has_call(#[trigger] h1[w], iv_result_id(h1[q]));
            let ci = choose|ci: int|
                0 <= ci < iv_calls(h1[w]).len() && iv_calls(h1[w])[ci].id == iv_result_id(h1[q]);
            assert(!iv_is_empty(h1[w]));
        }
        lemma_filter_preserves_inv(h1, keep_non_empty());
        lemma_filter_preserves_ids_unique(h1, keep_non_empty());
        lemma_filter_sub(h1, keep_non_empty());
        // Untouched non-empty interactions survive.
        assert forall|j: int|
            0 <= j < h.len() && j != k && !iv_is_empty(#[trigger] h[j]) implies exists|q: int|
            0 <= q < r.len() && r[q] == h[j] by {
            assert(h1[j] == h[j]);
            lemma_filter_keeps(h1, keep_non_empty(), j);
        }
        // Results survive pruning, so answered stays answered.
        assert forall|id: Seq<char>| has_result(h1, id) implies has_result(r, id) by {
            let j = choose|j: int|
                0 <= j < h1.len() && iv_is_result(#[trigger] h1[j]) && iv_result_id(h1[j]) == id;
            lemma_filter_keeps(h1, keep_non_empty(), j);
            let q = choose|q: int| 0 <= q < r.len() && r[q] == h1[j];
        }
        // Whatever still carries the response's identifier is the stripped
        // response itself, and each of its calls is answered.
        assert forall|q: int, ci: int|
            0 <= q < r.len() && iv_id(r[q]) == iv_id(h[k]) && 0 <= ci < iv_calls(r[q]).len()
            implies has_result(r, (#[trigger] iv_calls(r[q])[ci]).id) by {
            let p = choose|p: int| 0 <= p < h1.len() && h1[p] == r[q];
            if p != k {
                assert(iv_id(h1[p]) == iv_id(h[p]));
                assert(iv_id(h[p]) != iv_id(h[k]));
                assert(false);
            }
            assert(r[q] == x);
            assert(has_result(h1, iv_calls(x)[ci].id));
        }
    }
}

/// After deleting a tool-call/result pair, no empty model response remains:
/// the operation ends by pruning every empty interaction.
pub proof fn lemma_delete_by_tool_id_no_empty(h: Seq<InteractionV>, lid: usize, tcid: Seq<char>)
    requires
        history_inv(h),
        ids_unique(h),
    ensures
        forall|q: int|
            0 <= q < spec_delete_by_tool_id(h, lid, tcid).len() ==> !iv_is_empty(
                #[trigger] spec_delete_by_tool_id(h, lid, tcid)[q],
            ),
{
    lemma_delete_by_tool_id_effect(h, lid, tcid);
}

/// After deleting an interaction by identifier, no empty model response
/// remains, provided none stood in the history before.
pub proof fn lemma_delete_by_id_no_empty(h: Seq<InteractionV>, id: usize)
    requires
        history_inv(h),
        ids_unique(h),
        forall|j: int| 0 <= j < h.len() ==> !iv_is_empty(#[trigger] h[j]),
    ensures
        forall|q: int|
            0 <= q < spec_delete_by_id(h, id).len() ==> !iv_is_empty(
                #[trigger] spec_delete_by_id(h, id)[q],
            ),
{
    broadcast use vstd::seq_lib::group_filter_ensures;

    let r = spec_delete_by_id(h, id);
    let k = first_id_idx(h, id);
    let keep = keep_other_ids(id);
    if k < 0 {
        lemma_filter_sub(h, keep);
        assert forall|q: int| 0 <= q < r.len() implies !iv_is_empty(#[trigger] r[q]) by {
            let p = choose|p: int| 0 <= p < h.len() && h[p] == r[q];
        }
    } else {
        match h[k] {
            InteractionV::LlmResponse { tool_calls: Some(cs), .. } => {
                let ids0 = cs.map_values(crate::interaction::call_id_of());
                assert forall|jq: int, ci: int|
                    0 <= jq < h.len() && iv_id(#[trigger] h[jq]) == id && 0 <= ci < iv_calls(
                        h[jq],
                    ).len() implies ids0.contains((#[trigger] iv_calls(h[jq])[ci]).id) by {
                    assert(is_first_id(h, id, k)) by {
                        if exists|kk: int| is_first_id(h, id, kk) {
                            let kk = choose|kk: int| is_first_id(h, id, kk);
                            lemma_first_id_idx(h, id, kk);
                        }
                    }
                    assert(jq == k);
                    assert(iv_calls(h[k]) == cs);
                    assert(ids0[ci] == cs[ci].id);
                }
                lemma_delete_calls_loop_effect(h, id, ids0);
                let h1 = delete_calls_loop(h, id, ids0);
                lemma_filter_sub(h1, keep);
                if ids0.len() == 0 {
                    assert(h1 == h);
                }
                assert forall|q: int| 0 <= q < r.len() implies !iv_is_empty(#[trigger] r[q]) by {
                    let p = choose|p: int| 0 <= p < h1.len() && h1[p] == r[q];
                }
            },
            InteractionV::ToolResult { tool_call_id: tcid, .. } => {
                let m = crate::interaction::first_holder_idx(h, tcid);
                if m < 0 {
                    lemma_filter_sub(h, keep);
                    assert forall|q: int| 0 <= q < r.len() implies !iv_is_empty(
                        #[trigger] r[q],
                    ) by {
                        let p = choose|p: int| 0 <= p < h.len() && h[p] == r[q];
                    }
                } else {
                    lemma_delete_by_tool_id_effect(h, iv_id(h[m]), tcid);
                    let h1 = spec_delete_by_tool_id(h, iv_id(h[m]), tcid);
                    lemma_filter_sub(h1, keep);
                    assert forall|q: int| 0 <= q < r.len() implies !iv_is_empty(
                        #[trigger] r[q],
                    ) by {
                        let p = choose|p: int| 0 <= p < h1.len() && h1[p] == r[q];
                    }
                }
            },
            _ => {
                lemma_filter_sub(h, keep);
                assert forall|q: int| 0 <= q < r.len() implies !iv_is_empty(#[trigger] r[q]) by {
                    let p = choose|p: int| 0 <= p < h.len() && h[p] == r[q];
                }
            },
        }
    }
}

/// Any two positions of a filtered sequence come from two distinct,
/// order-respecting positions of the original.
pub proof fn lemma_filter_pair<A>(s: Seq<A>, p: spec_fn(A) -> bool)
    ensures
        forall|j1: int, j2: int|
            #![trigger s.filter(p)[j1], s.filter(p)[j2]]
            0 <= j1 < j2 < s.filter(p).len() ==> exists|k1: int, k2: int|
                0 <= k1 < k2 < s.len() && s[k1] == s.filter(p)[j1] && s[k2] == s.filter(p)[j2],
    decreases s.len(),
{
    reveal(Seq::filter);
    if s.len() == 0 {
    } else {
        let s0 = s.drop_last();
        let x = s.last();
        let f0 = s0.filter(p);
        let f = s.filter(p);
        lemma_filter_pair(s0, p);
        lemma_filter_sub(s0, p);
        assert forall|j1: int, j2: int|
            #![trigger f[j1], f[j2]]
            0 <= j1 < j2 < f.len() implies exists|k1: int, k2: int|
            0 <= k1 < k2 < s.len() && s[k1] == f[j1] && s[k2] == f[j2] by {
            if j2 < f0.len() {
                assert(f[j1] == f0[j1] && f[j2] == f0[j2]);
                let (k1, k2) = choose|k1: int, k2: int|
                    0 <= k1 < k2 < s0.len() && s0[k1] == f0[j1] && s0[k2] == f0[j2];
                assert(s[k1] == s0[k1] && s[k2] == s0[k2]);
            } else {
                assert(p(x));
                assert(f =~= f0.push(x));
                assert(f[j2] == x);
                assert(f[j1] == f0[j1]);
                let k1 = choose|k1: int| 0 <= k1 < s0.len() && s0[k1] == f0[j1];
                assert(s[k1] == s0[k1]);
                assert(s[s.len() - 1] == x);
            }
        }
    }
}

/// Filtering a history keeps tool-call ids unique across it.
pub proof fn lemma_filter_preserves_calls_unique(
    h: Seq<InteractionV>,
    keep: spec_fn(InteractionV) -> bool,
)
    requires
        calls_unique(h),
    ensures
        calls_unique(h.filter(keep)),
{
    let f = h.filter(keep);
    lemma_filter_sub(h, keep);
    lemma_filter_pair(h, keep);
    assert forall|q1: int, c1: int, q2: int, c2: int|
        0 <= q1 < f.len() && 0 <= c1 < iv_calls(f[q1]).len() && 0 <= q2 < f.len() && 0 <= c2
            < iv_calls(f[q2]).len() && (q1 != q2 || c1 != c2) implies (#[trigger] iv_calls(
        f[q1],
    )[c1]).id != (#[trigger] iv_calls(f[q2])[c2]).id by {
        if q1 == q2 {
            let p = choose|p: int| 0 <= p < h.len() && h[p] == f[q1];
            assert(iv_calls(h[p])[c1].id != iv_calls(h[p])[c2].id);
        } else if q1 < q2 {
            let (k1, k2) = choose|k1: int, k2: int|
                0 <= k1 < k2 < h.len() && h[k1] == f[q1] && h[k2] == f[q2];
            assert(iv_calls(h[k1])[c1].id != iv_calls(h[k2])[c2].id);
        } else {
            let (k2, k1) = choose|k2: int, k1: int|
                0 <= k2 < k1 < h.len() && h[k2] == f[q2] && h[k1] == f[q1];
            assert(iv_calls(h[k1])[c1].id != iv_calls(h[k2])[c2].id);
        }
    }
}

/// If some model response holds a call named `tcid`, a first holder does.
pub proof fn lemma_first_holder_exists(h: Seq<InteractionV>, tcid: Seq<char>, p: int)
    requires
        0 <= p < h.len(),
        iv_has_call(h[p], tcid),
    ensures
        exists|k: int| crate::interaction::is_first_holder(h, tcid, k),
    decreases p,
{
    if forall|x: int| 0 <= x < p ==> !iv_has_call(#[trigger] h[x], tcid) {
        assert(crate::interaction::is_first_holder(h, tcid, p));
    } else {
        let x = choose|x: int| 0 <= x < p && iv_has_call(#[trigger] h[x], tcid);
        lemma_first_holder_exists(h, tcid, x);
    }
}

/// Deleting the pairs of a list of distinct tool calls, all held by the
/// targeted interaction, removes every one of their results.
pub proof fn lemma_delete_calls_loop_removes_results(
    h: Seq<InteractionV>,
    lid: usize,
    ids: Seq<Seq<char>>,
)
    requires
        history_inv(h),
        ids_unique(h),
        calls_unique(h),
        forall|n1: int, n2: int|
            #![trigger ids[n1], ids[n2]]
            0 <= n1 < n2 < ids.len() ==> ids[n1] != ids[n2],
        forall|n: int|
            0 <= n < ids.len() && has_result(h, #[trigger] ids[n]) ==> first_id_idx(h, lid) >= 0
                && iv_has_call(h[first_id_idx(h, lid)], ids[n]),
    ensures
        ({
            let r = delete_calls_loop(h, lid, ids);
            forall|n: int| 0 <= n < ids.len() ==> !has_result(r, #[trigger] ids[n])
        }),
    decreases ids.len(),
{
    broadcast use vstd::seq_lib::group_filter_ensures;

    if ids.len() == 0 {
    } else {
        let tcid = ids[0];
        let h1 = spec_delete_by_tool_id(h, lid, tcid);
        lemma_delete_by_tool_id_effect(h, lid, tcid);
        let k = first_id_idx(h, lid);
        let r = delete_calls_loop(h, lid, ids);
        assert(r == delete_calls_loop(h1, lid, ids.drop_first()));
        // The head id has no result left, now or later.
        assert(!has_result(h1, tcid)) by {
            if has_result(h, tcid) {
                assert(k >= 0 && iv_has_call(h[k], tcid));
            } else {
                if has_result(h1, tcid) {
                    let q = choose|q: int|
                        0 <= q < h1.len() && iv_is_result(#[trigger] h1[q]) && iv_result_id(
                            h1[q],
                        ) == tcid;
                    let p = choose|p: int| 0 <= p < h.len() && h[p] == h1[q];
                }
            }
        }
        // Ids that still have a result are still held by the target.
        assert forall|n: int|
            0 <= n < ids.drop_first().len() && has_result(h1, #[trigger] ids.drop_first()[n])
            implies first_id_idx(h1, lid) >= 0 && iv_has_call(
            h1[first_id_idx(h1, lid)],
            ids.drop_first()[n],
        ) by {
            let x = ids.drop_first()[n];
            assert(x == ids[n + 1]);
            assert(x != tcid);
            // The result survived, so it already existed.
            let q = choose|q: int|
                0 <= q < h1.len() && iv_is_result(#[trigger] h1[q]) && iv_result_id(h1[q]) == x;
            let p = choose|p: int| 0 <= p < h.len() && h[p] == h1[q];
            assert(has_result(h, x));
            assert(k >= 0 && iv_has_call(h[k], x));
            lemma_target_keeps_other_call(h, lid, tcid, x);
        }
        lemma_delete_calls_loop_removes_results(h1, lid, ids.drop_first());
        // Results never reappear: carry the head id through the rest.
        lemma_delete_calls_loop_keeps_no_result(h1, lid, ids.drop_first(), tcid);
        assert forall|n: int| 0 <= n < ids.len() implies !has_result(r, #[trigger] ids[n]) by {
            if n > 0 {
                assert(ids[n] == ids.drop_first()[n - 1]);
            }
        }
    }
}

/// A call id that has no result keeps having none through the loop: the
/// operations only remove results.
pub proof fn lemma_delete_calls_loop_keeps_no_result(
    h: Seq<InteractionV>,
    lid: usize,
    ids: Seq<Seq<char>>,
    tcid: Seq<char>,
)
    requires
        history_inv(h),
        ids_unique(h),
        !has_result(h, tcid),
    ensures
        !has_result(delete_calls_loop(h, lid, ids), tcid),
    decreases ids.len(),
{
    if ids.len() == 0 {
    } else {
        let h1 = spec_delete_by_tool_id(h, lid, ids[0]);
        lemma_delete_by_tool_id_effect(h, lid, ids[0]);
        assert(!has_result(h1, tcid)) by {
            if has_result(h1, tcid) {
                let q = choose|q: int|
                    0 <= q < h1.len() && iv_is_result(#[trigger] h1[q]) && iv_result_id(h1[q])
                        == tcid;
                let p = choose|p: int| 0 <= p < h.len() && h[p] == h1[q];
            }
        }
        lemma_delete_calls_loop_keeps_no_result(h1, lid, ids.drop_first(), tcid);
    }
}

/// After deleting one pair, the targeted interaction still holds each of
/// its other calls, and is still found by its identifier.
pub proof fn lemma_target_keeps_other_call(
    h: Seq<InteractionV>,
    lid: usize,
    tcid: Seq<char>,
    x: Seq<char>,
)
    requires
        history_inv(h),
        ids_unique(h),
        first_id_idx(h, lid) >= 0,
        iv_has_call(h[first_id_idx(h, lid)], x),
        x != tcid,
    ensures
        ({
            let h1 = spec_delete_by_tool_id(h, lid, tcid);
            first_id_idx(h1, lid) >= 0 && iv_has_call(h1[first_id_idx(h1, lid)], x)
        }),
{
    broadcast use vstd::seq_lib::group_filter_ensures;

    let k = first_id_idx(h, lid);
    let h1 = spec_delete_by_tool_id(h, lid, tcid);
    lemma_delete_by_tool_id_effect(h, lid, tcid);
    // The stripped target keeps the x call and survives pruning.
    lemma_strip_calls_facts(h[k], tcid);
    let cs = iv_calls(h[k]);
    let ci = choose|ci: int| 0 <= ci < cs.len() && cs[ci].id == x;
    assert((keep_other_calls(tcid))(cs[ci]));
    lemma_filter_keeps(cs, keep_other_calls(tcid), ci);
    let sx = strip_calls(h[k], tcid);
    assert(iv_has_call(sx, x)) by {
        let ci2 = choose|ci2: int| 0 <= ci2 < iv_calls(sx).len() && iv_calls(sx)[ci2] == cs[ci];
    }
    // sx stands somewhere in h1.
    let h1u = h.update(k, sx);
    let j = crate::interaction::first_result_idx_from(h1u, k, tcid);
    assert(iv_calls(sx).len() > 0);
    assert(!iv_is_empty(sx));
    let h2 = if j < 0 {
        h1u
    } else {
        h1u.remove(j)
    };
    assert(exists|q2: int| 0 <= q2 < h2.len() && h2[q2] == sx) by {
        if j >= 0 {
            assert(j == crate::interaction::first_result_idx_from(h1u, k, tcid));
            assert(crate::interaction::is_first_result_from(h1u, k, tcid, j)) by {
                let jj = choose|jj: int|
                    crate::interaction::is_first_result_from(h1u, k, tcid, jj);
                lemma_first_result_idx_from(h1u, k, tcid, jj);
            }
            assert(iv_is_result(h1u[j]));
            assert(j != k);
            if k < j {
                assert(h2[k] == h1u[k]);
            } else {
                assert(h2[k - 1] == h1u[k]);
            }
        } else {
            assert(h2[k] == h1u[k]);
        }
    };
    let q2 = choose|q2: int| 0 <= q2 < h2.len() && h2[q2] == sx;
    lemma_filter_keeps(h2, keep_non_empty(), q2);
    assert(h1 == h2.filter(keep_non_empty()));
    let q3 = choose|q3: int| 0 <= q3 < h1.len() && h1[q3] == sx;
    assert(iv_id(sx) == lid);
    lemma_first_id_exists(h1, lid, q3);
    let kk = choose|kk: int| is_first_id(h1, lid, kk);
    lemma_first_id_idx(h1, lid, kk);
    assert(first_id_idx(h1, lid) == kk && kk >= 0);
    assert(h1[kk] == strip_calls(h[k], tcid));
    assert(iv_has_call(h1[kk], x));
}

/// Cascading delete: after deleting a model response by its identifier, no
/// tool result answering any of that response's tool calls remains.
pub proof fn lemma_cascading_delete(h: Seq<InteractionV>, id: usize)
    requires
        history_inv(h),
        ids_unique(h),
        calls_unique(h),
        first_id_idx(h, id) >= 0,
        iv_is_llm(h[first_id_idx(h, id)]),
    ensures
        ({
            let r = spec_delete_by_id(h, id);
            forall|q: int|
                0 <= q < r.len() && iv_is_result(#[trigger] r[q]) ==> !iv_has_call(
                    h[first_id_idx(h, id)],
                    iv_result_id(r[q]),
                )
        }),
{
    broadcast use vstd::seq_lib::group_filter_ensures;

    let k = first_id_idx(h, id);
    let r = spec_delete_by_id(h, id);
    assert(is_first_id(h, id, k)) by {
        if exists|kk: int| is_first_id(h, id, kk) {
            let kk = choose|kk: int| is_first_id(h, id, kk);
            lemma_first_id_idx(h, id, kk);
        }
    }
    match h[k] {
        InteractionV::LlmResponse { tool_calls: Some(cs), .. } => {
            let ids0 = cs.map_values(crate::interaction::call_id_of());
            assert(iv_calls(h[k]) == cs);
            assert forall|n1: int, n2: int|
                #![trigger ids0[n1], ids0[n2]]
                0 <= n1 < n2 < ids0.len() implies ids0[n1] != ids0[n2] by {
                assert(ids0[n1] == cs[n1].id && ids0[n2] == cs[n2].id);
                assert(iv_calls(h[k])[n1].id != iv_calls(h[k])[n2].id);
            }
            assert forall|n: int|
                0 <= n < ids0.len() && has_result(h, #[trigger] ids0[n]) implies first_id_idx(
                h,
                id,
            ) >= 0 && iv_has_call(h[first_id_idx(h, id)], ids0[n]) by {
                assert(ids0[n] == cs[n].id);
                assert(iv_calls(h[k])[n].id == ids0[n]);
            }
            lemma_delete_calls_loop_removes_results(h, id, ids0);
            let h1 = delete_calls_loop(h, id, ids0);
            lemma_filter_sub(h1, keep_other_ids(id));
            assert(r == h1.filter(keep_other_ids(id)));
            assert forall|q: int|
                0 <= q < r.len() && iv_is_result(#[trigger] r[q]) implies !iv_has_call(
                h[k],
                iv_result_id(r[q]),
            ) by {
                let p = choose|p: int| 0 <= p < h1.len() && h1[p] == r[q];
                if iv_has_call(h[k], iv_result_id(r[q])) {
                    let ci = choose|ci: int|
                        0 <= ci < iv_calls(h[k]).len() && iv_calls(h[k])[ci].id == iv_result_id(
                            r[q],
                        );
                    assert(ids0[ci] == iv_result_id(r[q]));
                    assert(has_result(h1, ids0[ci]));
                }
            }
        },
        _ => {
            assert(iv_calls(h[k]).len() == 0);
            assert forall|q: int|
                0 <= q < r.len() && iv_is_result(#[trigger] r[q]) implies !iv_has_call(
                h[k],
                iv_result_id(r[q]),
            ) by {
                if iv_has_call(h[k], iv_result_id(r[q])) {
                    let ci = choose|ci: int|
                        0 <= ci < iv_calls(h[k]).len() && iv_calls(h[k])[ci].id == iv_result_id(
                            r[q],
                        );
                }
            }
        },
    }
}

/// Deleting one tool result removes only its own pairing: its result and
/// its call are gone, and every other tool result survives.
pub proof fn lemma_delete_result_spares_siblings(h: Seq<InteractionV>, id: usize)
    requires
        history_inv(h),
        ids_unique(h),
        calls_unique(h),
        first_id_idx(h, id) >= 0,
        iv_is_result(h[first_id_idx(h, id)]),
    ensures
        ({
            let r = spec_delete_by_id(h, id);
            let k = first_id_idx(h, id);
            &&& !has_result(r, iv_result_id(h[k]))
            &&& forall|p: int|
                0 <= p < h.len() && p != k && iv_is_result(#[trigger] h[p]) ==> exists|q: int|
                    0 <= q < r.len() && r[q] == h[p]
        }),
{
    broadcast use vstd::seq_lib::group_filter_ensures;

    let k = first_id_idx(h, id);
    let r = spec_delete_by_id(h, id);
    assert(is_first_id(h, id, k)) by {
        if exists|kk: int| is_first_id(h, id, kk) {
            let kk = choose|kk: int| is_first_id(h, id, kk);
            lemma_first_id_idx(h, id, kk);
        }
    }
    match h[k] {
        InteractionV::ToolResult { tool_call_id: tcid, .. } => {
            assert(iv_result_id(h[k]) == tcid);
            // The result resolves, so a first holder of its call exists.
            let w = choose|w: int| 0 <= w < k && iv_has_call(#[trigger] h[w], tcid);
            lemma_first_holder_exists(h, tcid, w);
            let m = crate::interaction::first_holder_idx(h, tcid);
            assert(crate::interaction::is_first_holder(h, tcid, m)) by {
                let mm = choose|mm: int| crate::interaction::is_first_holder(h, tcid, mm);
                crate::interaction::lemma_first_holder_idx(h, tcid, mm);
            }
            assert(m >= 0);
            let lid2 = iv_id(h[m]);
            let h1 = spec_delete_by_tool_id(h, lid2, tcid);
            lemma_delete_by_tool_id_effect(h, lid2, tcid);
            assert(r == h1.filter(keep_other_ids(id)));
            // The deleted call had this holder, found by its own identifier.
            assert(first_id_idx(h, lid2) == m) by {
                assert(is_first_id(h, lid2, m)) by {
                    assert forall|j: int| 0 <= j < m implies iv_id(#[trigger] h[j]) != lid2 by {}
                }
                lemma_first_id_idx(h, lid2, m);
            }
            assert(!has_result(h1, tcid));
            lemma_filter_sub(h1, keep_other_ids(id));
            assert(!has_result(r, tcid)) by {
                if has_result(r, tcid) {
                    let q = choose|q: int|
                        0 <= q < r.len() && iv_is_result(#[trigger] r[q]) && iv_result_id(r[q])
                            == tcid;
                    let p = choose|p: int| 0 <= p < h1.len() && h1[p] == r[q];
                }
            }
            // Every other result survives the pair deletion and the final
            // filter: its call id differs, and its identifier differs.
            assert forall|p: int|
                0 <= p < h.len() && p != k && iv_is_result(#[trigger] h[p]) implies exists|q: int|
                0 <= q < r.len() && r[q] == h[p] by {
                assert(iv_result_id(h[p]) != tcid) by {
                    if p < k {
                        assert(iv_result_id(h[p]) != iv_result_id(h[k]));
                    } else {
                        assert(iv_result_id(h[k]) != iv_result_id(h[p]));
                    }
                }
                let q1 = choose|q1: int| 0 <= q1 < h1.len() && h1[q1] == h[p];
                assert(iv_id(h[p]) != id) by {
                    if p < k {
                        assert(iv_id(h[p]) != iv_id(h[k]));
                    } else {
                        assert(iv_id(h[k]) != iv_id(h[p]));
                    }
                }
                assert((keep_other_ids(id))(h1[q1]));
                lemma_filter_keeps(h1, keep_other_ids(id), q1);
            }
        },
        _ => {},
    }
}

} // verus!