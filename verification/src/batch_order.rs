//! The order in which the worker handles one drained batch of requests.
use vstd::prelude::*;
use crate::batching::{kept, lemma_coalesced_shape, lemma_only_last_recompute};
use crate::worker::{batch_jobs, coalesced, job_for, not_recompute, Request};

verus! {

/// Whether `q` holds a `Shutdown`.
pub open spec fn has_shutdown(q: Seq<Request>) -> bool {
    exists|i: int| 0 <= i < q.len() && (#[trigger] q[i]) is Shutdown
}

/// The jobs of a queue are those of its requests, in order, up to the first
/// `Shutdown`, which is the last one handled.
proof fn lemma_batch_jobs_shape(q: Seq<Request>)
    ensures
        batch_jobs(q).len() <= q.len(),
        forall|i: int| 0 <= i < batch_jobs(q).len() ==> #[trigger] batch_jobs(q)[i] == job_for(q[i]),
        forall|i: int| 0 <= i < batch_jobs(q).len() - 1 ==> !(#[trigger] q[i] is Shutdown),
        forall|i: int| 0 <= i < batch_jobs(q).len() - 1 ==> !(#[trigger] batch_jobs(q)[i] is Stop),
        has_shutdown(q) ==> batch_jobs(q).len() >= 1 && q[batch_jobs(q).len() - 1] is Shutdown,
        !has_shutdown(q) ==> batch_jobs(q).len() == q.len(),
    decreases q.len(),
{
    if q.len() > 0 && !(q[0] is Shutdown) {
        let t = q.drop_first();
        lemma_batch_jobs_shape(t);
        let j = batch_jobs(q);
        let jt = batch_jobs(t);
        assert(j == seq![job_for(q[0])] + jt);
        assert forall|i: int| 0 <= i < j.len() implies #[trigger] j[i] == job_for(q[i]) by {
            if i > 0 {
                assert(j[i] == jt[i - 1]);
                assert(t[i - 1] == q[i]);
            }
        }
        assert forall|i: int| 0 <= i < j.len() - 1 implies !(#[trigger] q[i] is Shutdown) by {
            if i > 0 {
                assert(t[i - 1] == q[i]);
            }
        }
        if has_shutdown(q) {
            let k = choose|k: int| 0 <= k < q.len() && (#[trigger] q[k]) is Shutdown;
            assert(t[k - 1] == q[k]);
            assert(has_shutdown(t));
            assert(t[jt.len() - 1] == q[j.len() - 1]);
        } else {
            assert forall|i: int| 0 <= i < t.len() implies !(#[trigger] t[i] is Shutdown) by {
                assert(t[i] == q[i + 1]);
            }
        }
    } else if q.len() > 0 {
        assert(has_shutdown(q));
    } else {
        assert(!has_shutdown(q));
    }
}

/// Only the last request of a coalesced batch can be a `Recompute`.
proof fn lemma_recompute_only_last(b: Seq<Request>)
    ensures
        forall|i: int| 0 <= i < coalesced(b).len() - 1 ==> !(#[trigger] coalesced(b)[i] is Recompute),
{
    lemma_coalesced_shape(b);
    lemma_only_last_recompute(kept(b), coalesced(b));
}

/// Coalescing keeps a batch's `Shutdown`, and adds none.
proof fn lemma_shutdown_kept(b: Seq<Request>)
    ensures
        has_shutdown(coalesced(b)) == has_shutdown(b),
{
    let c = coalesced(b);
    let f = kept(b);
    let pred = |r: Request| not_recompute(r);
    assert(c == f || c == f.push(Request::Recompute)) by {
        lemma_coalesced_shape(b);
    }
    if has_shutdown(b) {
        let k = choose|k: int| 0 <= k < b.len() && (#[trigger] b[k]) is Shutdown;
        b.lemma_filter_contains(pred, k);
        let m = choose|m: int| 0 <= m < f.len() && f[m] == b[k];
        assert(c[m] == f[m]);
    }
    if has_shutdown(c) {
        let k = choose|k: int| 0 <= k < c.len() && (#[trigger] c[k]) is Shutdown;
        if k < f.len() {
            assert(c[k] == f[k]);
            assert(f.contains(f[k]));
            b.lemma_filter_contains_rev(pred, f[k]);
            let j = choose|j: int| 0 <= j < b.len() && b[j] == f[k];
            assert(b[j] is Shutdown);
        }
    }
}

proof fn lemma_jobs_status(q: Seq<Request>)
    requires
        forall|i: int| 0 <= i < q.len() - 1 ==> !(#[trigger] q[i] is Recompute),
    ensures
        forall|i: int| 0 <= i < batch_jobs(q).len() - 1 ==> !(#[trigger] batch_jobs(q)[i] is Status),
        has_shutdown(q) ==> batch_jobs(q).len() > 0 && batch_jobs(q).last() is Stop
            && forall|i: int| 0 <= i < batch_jobs(q).len() ==> !(#[trigger] batch_jobs(q)[i] is Status),
{
    let jobs = batch_jobs(q);
    lemma_batch_jobs_shape(q);
    assert forall|i: int| 0 <= i < jobs.len() - 1 implies !(#[trigger] jobs[i] is Status) by {
        assert(jobs[i] == job_for(q[i]));
        assert(!(q[i] is Recompute));
    }
    if has_shutdown(q) {
        let n = jobs.len() - 1;
        assert(jobs[n] == job_for(q[n]));
        assert forall|i: int| 0 <= i < jobs.len() implies !(#[trigger] jobs[i] is Status) by {
            assert(jobs[i] == job_for(q[i]));
            if i < n {
                assert(!(q[i] is Recompute));
            }
        }
    }
}

/// How the worker answers one drained batch `b`: it handles the coalesced
/// requests in order; a status sweep comes after every diff and switch of
/// the batch, at most once; a `Shutdown` is the last thing handled, so the
/// sweep it overtook is not done; without one, every request is handled.
pub proof fn law_batch_order(b: Seq<Request>)
    ensures
        forall|i: int| 0 <= i < batch_jobs(coalesced(b)).len() ==> #[trigger] batch_jobs(coalesced(b))[i] == job_for(coalesced(b)[i]),
        forall|i: int| 0 <= i < batch_jobs(coalesced(b)).len() - 1
            ==> !(#[trigger] batch_jobs(coalesced(b))[i] is Status) && !(batch_jobs(coalesced(b))[i] is Stop),
        has_shutdown(b) ==> batch_jobs(coalesced(b)).len() > 0 && batch_jobs(coalesced(b)).last() is Stop
            && forall|i: int| 0 <= i < batch_jobs(coalesced(b)).len() ==> !(#[trigger] batch_jobs(coalesced(b))[i] is Status),
        !has_shutdown(b) ==> batch_jobs(coalesced(b)).len() == coalesced(b).len(),
{
    let c = coalesced(b);
    lemma_recompute_only_last(b);
    lemma_shutdown_kept(b);
    lemma_batch_jobs_shape(c);
    lemma_jobs_status(c);
}

} // verus!
