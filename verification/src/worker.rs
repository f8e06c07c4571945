//! The messages exchanged with the git worker, and how the worker batches
//! the requests that piled up while it was busy.
use vstd::prelude::*;
use std::collections::VecDeque;
use crossbeam_channel::Sender;
use crate::git::{FileDiff, FileEntry, ObjectId};

verus! {

/// Token used to discard stale diff results: each diff request carries the
/// token current when it was sent, and a reply whose token is no longer
/// current is dropped.
pub type DiffToken = u64;

/// Requests the main thread sends to the worker.
#[derive(Debug)]
pub enum Request {
    /// Recompute status and branch metadata. Coalesced: only one pending
    /// Recompute is kept when the worker drains its channel.
    Recompute,
    /// Compute the diff for a single file.
    Diff { path: String, token: DiffToken },
    /// Re-open the worker's repository at a new path.
    SwitchRepo(String),
    /// Stop the worker thread.
    Shutdown,
}

/// Responses the worker sends back to the main thread.
#[derive(Debug)]
pub enum Response {
    /// Result of a `Recompute` request.
    Status(Box<StatusBundle>),
    /// Result of a `Diff` request; `token` echoes the request's token.
    Diff { path: String, token: DiffToken, diff: FileDiff },
    /// Sent after a `SwitchRepo` request finishes: `true` on success.
    SwitchAck(bool),
    /// A non-fatal error while processing a request.
    Error(String),
}

/// All the git-derived state a `Recompute` returns.
#[derive(Debug)]
pub struct StatusBundle {
    pub files: Vec<FileEntry>,
    pub merge_base: Option<ObjectId>,
    pub base_branch: String,
    pub branch: String,
    pub head: Option<(String, String)>,
    pub stash_count: usize,
    pub ahead_behind: Option<(usize, usize)>,
    pub repo_state: Option<String>,
    pub repo_name: String,
    pub worktree_name: String,
}

impl Default for StatusBundle {
    fn default() -> (r: StatusBundle)
        ensures
            r.files@.len() == 0,
            r.merge_base is None,
            r.base_branch@ == Seq::<char>::empty(),
            r.branch@ == Seq::<char>::empty(),
            r.head is None,
            r.stash_count == 0,
            r.ahead_behind is None,
            r.repo_state is None,
            r.repo_name@ == Seq::<char>::empty(),
            r.worktree_name@ == Seq::<char>::empty(),
    {
        StatusBundle {
            files: Vec::new(),
            merge_base: None,
            base_branch: String::new(),
            branch: String::new(),
            head: None,
            stash_count: 0,
            ahead_behind: None,
            repo_state: None,
            repo_name: String::new(),
            worktree_name: String::new(),
        }
    }
}

/// The worker thread harness. Its thread owns the repository and runs in
/// the program around this library, which holds what it exchanges with the
/// main thread ([`Request`], [`Response`]), how it batches what piled up
/// ([`coalesce`]) and how it assembles a status ([`assemble_status`]).
pub struct Worker;

pub open spec fn not_recompute(r: Request) -> bool {
    !(r is Recompute)
}

/// Whether `reqs` holds a `Recompute`.
pub open spec fn has_recompute(reqs: Seq<Request>) -> bool {
    exists|i: int| 0 <= i < reqs.len() && (#[trigger] reqs[i]) is Recompute
}

/// The batch after coalescing: every request other than `Recompute`, in
/// order, followed by one `Recompute` if the batch held any.
pub open spec fn coalesced(reqs: Seq<Request>) -> Seq<Request> {
    reqs.filter(|r: Request| not_recompute(r)) + if has_recompute(reqs) {
        seq![Request::Recompute]
    } else {
        Seq::empty()
    }
}

/// Coalesces a batch of pending requests so redundant `Recompute` messages
/// collapse to one, appended at the end so that every `Diff` and
/// `SwitchRepo` is processed before the next status sweep. Other requests
/// keep their order.
pub fn coalesce(input: VecDeque<Request>) -> (r: VecDeque<Request>)
    ensures
        r@ == coalesced(input@),
{
    let ghost orig = input@;
    let ghost pred = |r: Request| not_recompute(r);
    let mut input = input;
    let mut seen_recompute = false;
    let mut output: VecDeque<Request> = VecDeque::new();
    let ghost mut k: int = 0;
    loop
        invariant
            0 <= k <= orig.len(),
            input@ == orig.subrange(k, orig.len() as int),
            output@ == orig.take(k).filter(pred),
            seen_recompute == has_recompute(orig.take(k)),
            pred == (|r: Request| not_recompute(r)),
        ensures
            output@ == orig.filter(pred),
            seen_recompute == has_recompute(orig),
        decreases orig.len() - k,
    {
        match input.pop_front() {
            Some(req) => {
                proof {
                    assert(req == orig[k]);
                    orig.take(k).lemma_filter_push(orig[k], pred);
                    assert(orig.take(k + 1) =~= orig.take(k).push(orig[k]));
                    assert(has_recompute(orig.take(k + 1)) == (has_recompute(orig.take(k)) || orig[k] is Recompute)) by {
                        if has_recompute(orig.take(k + 1)) && !(orig[k] is Recompute) {
                            let i = choose|i: int| 0 <= i < orig.take(k + 1).len() && (#[trigger] orig.take(k + 1)[i]) is Recompute;
                            assert(orig.take(k)[i] is Recompute);
                        }
                        if has_recompute(orig.take(k)) {
                            let i = choose|i: int| 0 <= i < orig.take(k).len() && (#[trigger] orig.take(k)[i]) is Recompute;
                            assert(orig.take(k + 1)[i] is Recompute);
                        }
                        if orig[k] is Recompute {
                            assert(orig.take(k + 1)[k] is Recompute);
                        }
                    }
                }
                if let Request::Recompute = req {
                    seen_recompute = true;
                } else {
                    output.push_back(req);
                }
                proof {
                    k = k + 1;
                    assert(input@ =~= orig.subrange(k, orig.len() as int));
                }
            },
            None => {
                proof {
                    assert(orig.take(k) =~= orig);
                }
                break;
            },
        }
    }
    if seen_recompute {
        output.push_back(Request::Recompute);
    }
    assert(output@ =~= coalesced(orig));
    output
}

/// Whether a bounded channel holding `len` messages out of `cap` has reached
/// half its capacity. A capacity of zero stands for an unbounded channel,
/// which never counts as high.
pub fn channel_high(len: usize, cap: usize) -> (r: bool)
    ensures
        r == (cap > 0 && 2 * len >= cap),
{
    cap > 0 && len >= cap - cap / 2
}

#[verifier::external_type_specification]
#[verifier::external_body]
#[verifier::reject_recursive_types(T)]
pub struct ExSender<T>(Sender<T>);

/// `Sender::len`: the number of messages in the channel at the moment of
/// the call. Nothing is stated of it: other threads change it.
#[verifier::external_body]
fn sender_len<T>(tx: &Sender<T>) -> usize {
    tx.len()
}

/// `Sender::capacity`: the capacity of a bounded channel, `None` for an
/// unbounded one. Nothing is stated of it.
#[verifier::external_body]
fn sender_capacity<T>(tx: &Sender<T>) -> Option<usize> {
    tx.capacity()
}

/// How full the request channel is: the number of queued messages, its
/// capacity (zero when unbounded), and whether it has reached half of it.
pub fn channel_pressure(tx: &Sender<Request>) -> (r: (usize, usize, bool))
    ensures
        r.2 == (r.1 > 0 && 2 * r.0 >= r.1),
{
    let len = sender_len(tx);
    let cap = match sender_capacity(tx) {
        Some(c) => c,
        None => 0,
    };
    (len, cap, channel_high(len, cap))
}

/// Assembles the status bundle from what the repository answered, each
/// answer `None` when its query failed (or, for the branch-scoped list, was
/// not made). The file list is the branch-scoped one when a base branch
/// was resolved, its merge base found and the branch-scoped status read;
/// otherwise the plain working-tree status, empty when that failed too.
/// The other failed queries degrade to empty values, zero and "no
/// upstream".
pub fn assemble_status(
    resolved_base: Option<String>,
    merge_base: Option<ObjectId>,
    branch_files: Option<Vec<FileEntry>>,
    plain_files: Option<Vec<FileEntry>>,
    branch: String,
    head: Option<(String, String)>,
    stash_count: Option<usize>,
    ahead_behind: Option<Option<(usize, usize)>>,
    repo_state: Option<String>,
    repo_name: String,
    worktree_name: String,
) -> (r: StatusBundle)
    ensures
        ({
            let scoped = resolved_base is Some && merge_base is Some && branch_files is Some;
            &&& r.files@ == if scoped {
                branch_files->0@
            } else {
                match plain_files { Some(f) => f@, None => Seq::empty() }
            }
            &&& r.merge_base == if scoped { merge_base } else { None }
        }),
        r.base_branch@ == (match resolved_base { Some(b) => b@, None => Seq::<char>::empty() }),
        r.branch == branch,
        r.head == head,
        r.stash_count == (match stash_count { Some(n) => n, None => 0 }),
        r.ahead_behind == (match ahead_behind { Some(a) => a, None => None }),
        r.repo_state == repo_state,
        r.repo_name == repo_name,
        r.worktree_name == worktree_name,
{
    let scoped = resolved_base.is_some() && merge_base.is_some() && branch_files.is_some();
    let (mb, files) = if scoped {
        match branch_files {
            Some(f) => (merge_base, f),
            None => (None, Vec::new()),
        }
    } else {
        match plain_files {
            Some(f) => (None, f),
            None => (None, Vec::new()),
        }
    };
    StatusBundle {
        files,
        merge_base: mb,
        base_branch: match resolved_base {
            Some(b) => b,
            None => String::new(),
        },
        branch,
        head,
        stash_count: match stash_count {
            Some(n) => n,
            None => 0,
        },
        ahead_behind: match ahead_behind {
            Some(a) => a,
            None => None,
        },
        repo_state,
        repo_name,
        worktree_name,
    }
}

/// The repository work a request asks the worker for.
#[derive(Debug)]
pub enum Job {
    /// Compute a status bundle.
    Status,
    /// Compute the diff of `path`; the reply carries `token`.
    Diff { path: String, token: DiffToken },
    /// Open the repository at this path in place of the current one.
    Open(String),
    /// Stop the worker.
    Stop,
}

/// What the repository answered for a [`Job`].
#[derive(Debug)]
pub enum Outcome {
    /// The status bundle computed for a `Status` job.
    Status(StatusBundle),
    /// The diff computed for a `Diff` job, or why it failed.
    Diff { path: String, token: DiffToken, result: Result<FileDiff, String> },
    /// Whether the repository of an `Open` job was opened, or why not.
    Opened(Result<(), String>),
    /// A `Stop` job: nothing was asked of the repository.
    Stopped,
}

/// The job a request asks for.
pub open spec fn job_for(req: Request) -> Job {
    match req {
        Request::Recompute => Job::Status,
        Request::Diff { path, token } => Job::Diff { path, token },
        Request::SwitchRepo(p) => Job::Open(p),
        Request::Shutdown => Job::Stop,
    }
}

/// The jobs the worker carries out for a queue of requests, in order: one
/// per request, up to and including the first `Shutdown`, after which
/// nothing more is done.
pub open spec fn batch_jobs(q: Seq<Request>) -> Seq<Job>
    decreases q.len(),
{
    if q.len() == 0 {
        Seq::empty()
    } else if q[0] is Shutdown {
        seq![Job::Stop]
    } else {
        seq![job_for(q[0])] + batch_jobs(q.drop_first())
    }
}

/// The job a request asks for.
pub fn worker_job(req: Request) -> (r: Job)
    ensures
        r == job_for(req),
        match req {
            Request::Recompute => r is Status,
            Request::Diff { path, token } => r == (Job::Diff { path, token }),
            Request::SwitchRepo(p) => r == Job::Open(p),
            Request::Shutdown => r is Stop,
        },
{
    match req {
        Request::Recompute => Job::Status,
        Request::Diff { path, token } => Job::Diff { path, token },
        Request::SwitchRepo(p) => Job::Open(p),
        Request::Shutdown => Job::Stop,
    }
}

/// Whether `r` is an error reply with message `m`.
pub open spec fn is_error(r: Response, m: Seq<char>) -> bool {
    match r {
        Response::Error(x) => x@ == m,
        _ => false,
    }
}

/// The error message for a diff of `path` that failed with `e`.
pub open spec fn diff_error_message(path: Seq<char>, e: Seq<char>) -> Seq<char> {
    "diff "@ + path + ": "@ + e
}

/// The error message for a repository switch that failed with `e`.
pub open spec fn switch_error_message(e: Seq<char>) -> Seq<char> {
    "switch: "@ + e
}

/// The worker's replies to what the repository answered, in the order they
/// are sent, and whether the worker stops. A status is sent back whole; a
/// diff goes back with its request's path and token, or as an error naming
/// the path; a switch is acknowledged, or reported as an error followed by
/// a refusing acknowledgement (the worker keeps the old repository); a stop
/// sends nothing and ends the worker.
pub fn worker_step(outcome: Outcome) -> (r: (Vec<Response>, bool))
    ensures
        match outcome {
            Outcome::Status(b) => r.0@ == seq![Response::Status(Box::new(b))] && !r.1,
            Outcome::Diff { path, token, result } => !r.1 && r.0@.len() == 1 && match result {
                Ok(d) => r.0@[0] == (Response::Diff { path, token, diff: d }),
                Err(e) => is_error(r.0@[0], diff_error_message(path@, e@)),
            },
            Outcome::Opened(result) => !r.1 && match result {
                Ok(_) => r.0@ == seq![Response::SwitchAck(true)],
                Err(e) => r.0@.len() == 2 && r.0@[1] == Response::SwitchAck(false)
                    && is_error(r.0@[0], switch_error_message(e@)),
            },
            Outcome::Stopped => r.0@.len() == 0 && r.1,
        },
{
    let mut out: Vec<Response> = Vec::new();
    match outcome {
        Outcome::Status(b) => {
            out.push(Response::Status(Box::new(b)));
            (out, false)
        },
        Outcome::Diff { path, token, result } => {
            match result {
                Ok(diff) => out.push(Response::Diff { path, token, diff }),
                Err(e) => {
                    let mut m = crate::text::owned("diff ");
                    crate::text::push_str(&mut m, path.as_str());
                    crate::text::push_str(&mut m, ": ");
                    crate::text::push_str(&mut m, e.as_str());
                    out.push(Response::Error(m));
                },
            }
            (out, false)
        },
        Outcome::Opened(result) => {
            match result {
                Ok(_) => out.push(Response::SwitchAck(true)),
                Err(e) => {
                    let mut m = crate::text::owned("switch: ");
                    crate::text::push_str(&mut m, e.as_str());
                    out.push(Response::Error(m));
                    out.push(Response::SwitchAck(false));
                },
            }
            (out, false)
        },
        Outcome::Stopped => (out, true),
    }
}

/// The reply of a worker that could not open its repository at start-up;
/// it then exits.
pub fn open_failed(e: String) -> (r: Response)
    ensures
        is_error(r, "worker open: "@ + e@),
{
    let mut m = crate::text::owned("worker open: ");
    crate::text::push_str(&mut m, e.as_str());
    Response::Error(m)
}

/// One drained batch of requests as the worker works through it: the
/// coalesced requests still to handle, and whether a `Shutdown` has
/// stopped it.
pub struct Batch {
    queue: VecDeque<Request>,
    stopped: bool,
}

impl Batch {
    /// The jobs still to be handed out.
    pub closed spec fn remaining(&self) -> Seq<Job> {
        if self.stopped { Seq::empty() } else { batch_jobs(self.queue@) }
    }

    /// A batch over the requests that piled up, coalesced.
    pub fn new(drained: VecDeque<Request>) -> (r: Batch)
        ensures
            r.remaining() == batch_jobs(coalesced(drained@)),
    {
        Batch { queue: coalesce(drained), stopped: false }
    }

    /// Hands out the next job, in the order of the coalesced batch; nothing
    /// once the batch is done or a `Stop` was handed out.
    pub fn next_job(&mut self) -> (r: Option<Job>)
        ensures
            old(self).remaining().len() == 0 ==> r is None && final(self).remaining() == old(self).remaining(),
            old(self).remaining().len() > 0 ==> r == Some(old(self).remaining()[0])
                && final(self).remaining() == old(self).remaining().drop_first(),
    {
        if self.stopped {
            return None;
        }
        let ghost q = self.queue@;
        match self.queue.pop_front() {
            None => None,
            Some(req) => {
                proof {
                    assert(q.drop_first() =~= q.subrange(1, q.len() as int));
                }
                let job = worker_job(req);
                if let Job::Stop = job {
                    self.stopped = true;
                    assert(seq![Job::Stop].drop_first() =~= Seq::<Job>::empty());
                } else {
                    assert((seq![job_for(q[0])] + batch_jobs(q.drop_first())).drop_first() =~= batch_jobs(q.drop_first()));
                }
                Some(job)
            },
        }
    }
}

} // verus!
