//! What coalescing promises of every batch: it is idempotent, keeps every
//! request other than `Recompute` in order, and leaves at most one
//! `Recompute`, at the end.
use vstd::prelude::*;
use crate::worker::{coalesced, has_recompute, not_recompute, Request};

verus! {

/// The requests of `reqs` other than `Recompute`, in order.
pub open spec fn kept(reqs: Seq<Request>) -> Seq<Request> {
    reqs.filter(|r: Request| not_recompute(r))
}

/// Every request of `kept(reqs)` is not a `Recompute`.
proof fn lemma_filtered_not_recompute(reqs: Seq<Request>)
    ensures
        forall|i: int| 0 <= i < kept(reqs).len() ==> not_recompute(#[trigger] kept(reqs)[i]),
{
    let pred = |r: Request| not_recompute(r);
    assert forall|i: int| 0 <= i < reqs.filter(pred).len() implies pred(#[trigger] reqs.filter(pred)[i]) by {
        reqs.lemma_filter_pred(pred, i);
    }
}

proof fn lemma_filter_all(s: Seq<Request>, pred: spec_fn(Request) -> bool)
    requires
        forall|i: int| 0 <= i < s.len() ==> pred(#[trigger] s[i]),
    ensures
        s.filter(pred) == s,
    decreases s.len(),
{
    if s.len() > 0 {
        lemma_filter_all(s.drop_last(), pred);
        s.drop_last().lemma_filter_push(s.last(), pred);
        assert(s.drop_last().push(s.last()) =~= s);
    } else {
        reveal(Seq::filter);
        assert(s.filter(pred) =~= s);
    }
}

/// The shape of a coalesced batch: the requests other than `Recompute`,
/// then one `Recompute` exactly when the batch held one.
pub(crate) proof fn lemma_coalesced_shape(reqs: Seq<Request>)
    ensures
        forall|i: int| 0 <= i < kept(reqs).len() ==> not_recompute(#[trigger] kept(reqs)[i]),
        kept(kept(reqs)) == kept(reqs),
        coalesced(reqs) == if has_recompute(reqs) { kept(reqs).push(Request::Recompute) } else { kept(reqs) },
        kept(coalesced(reqs)) == kept(reqs),
{
    let pred = |r: Request| not_recompute(r);
    let f = kept(reqs);
    lemma_filtered_not_recompute(reqs);
    assert(kept(f) == f) by {
        lemma_filter_all(f, pred);
    }
    if has_recompute(reqs) {
        assert(coalesced(reqs) == f.push(Request::Recompute)) by {
            assert(coalesced(reqs) =~= f.push(Request::Recompute));
        }
        assert(kept(f.push(Request::Recompute)) == kept(f)) by {
            f.lemma_filter_push(Request::Recompute, pred);
        }
    } else {
        assert(coalesced(reqs) == f) by {
            assert(coalesced(reqs) =~= f);
        }
    }
}

proof fn lemma_coalesced_keeps_recompute(reqs: Seq<Request>)
    ensures
        has_recompute(coalesced(reqs)) == has_recompute(reqs),
        kept(coalesced(reqs)) == kept(reqs),
{
    lemma_coalesced_shape(reqs);
    let c = coalesced(reqs);
    if has_recompute(reqs) {
        let last = c.len() - 1;
        assert(c[last] is Recompute);
    } else if has_recompute(c) {
        let i = choose|i: int| 0 <= i < c.len() && (#[trigger] c[i]) is Recompute;
        assert(not_recompute(kept(reqs)[i]));
    }
}

/// Coalescing is idempotent: a coalesced batch coalesces to itself.
pub proof fn law_coalesce_idempotent(reqs: Seq<Request>)
    ensures
        coalesced(coalesced(reqs)) == coalesced(reqs),
{
    lemma_coalesced_keeps_recompute(reqs);
}

pub(crate) proof fn lemma_only_last_recompute(f: Seq<Request>, c: Seq<Request>)
    requires
        forall|i: int| 0 <= i < f.len() ==> not_recompute(#[trigger] f[i]),
        c == f.push(Request::Recompute) || c == f,
    ensures
        forall|i: int| 0 <= i < c.len() - 1 ==> !(#[trigger] c[i] is Recompute),
        c == f ==> (c.len() == 0 || !(c.last() is Recompute)),
{
    assert forall|i: int| 0 <= i < c.len() - 1 implies !(#[trigger] c[i] is Recompute) by {
        assert(c[i] == f[i]);
        assert(not_recompute(f[i]));
    }
    if c == f && c.len() > 0 {
        assert(not_recompute(f[f.len() - 1]));
    }
}

proof fn lemma_ends_in_recompute(reqs: Seq<Request>)
    ensures
        has_recompute(reqs) ==> coalesced(reqs).len() > 0 && coalesced(reqs).last() is Recompute,
        !has_recompute(reqs) ==> coalesced(reqs).len() == 0 || !(coalesced(reqs).last() is Recompute),
{
    let f = kept(reqs);
    if has_recompute(reqs) {
        assert(coalesced(reqs) == f.push(Request::Recompute)) by {
            lemma_coalesced_shape(reqs);
        }
    } else {
        assert(coalesced(reqs) == f) by {
            lemma_coalesced_shape(reqs);
        }
        if f.len() > 0 {
            let j = f.len() - 1;
            assert(not_recompute(f[j])) by {
                lemma_filtered_not_recompute(reqs);
            }
        }
    }
}

/// A coalesced batch holds at most one `Recompute`, and only at its end;
/// every other request of the batch is kept, in order.
pub proof fn law_coalesce_recompute_last(reqs: Seq<Request>)
    ensures
        forall|i: int| 0 <= i < coalesced(reqs).len() - 1 ==> !(#[trigger] coalesced(reqs)[i] is Recompute),
        has_recompute(reqs) <==> (coalesced(reqs).len() > 0 && coalesced(reqs).last() is Recompute),
        kept(coalesced(reqs)) == kept(reqs),
{
    let c = coalesced(reqs);
    let f = kept(reqs);
    lemma_coalesced_shape(reqs);
    lemma_only_last_recompute(f, c);
    lemma_ends_in_recompute(reqs);
}

} // verus!
