use perch::worker::{
    channel_high, channel_pressure, coalesce, worker_job, worker_step, Batch, Job, Outcome, Request, Response,
    StatusBundle,
};
use std::collections::VecDeque;

fn collect(q: VecDeque<Request>) -> Vec<&'static str> {
    q.into_iter()
        .map(|r| match r {
            Request::Recompute => "R",
            Request::Diff { .. } => "D",
            Request::SwitchRepo(_) => "S",
            Request::Shutdown => "X",
        })
        .collect()
}

fn diff_req(token: u64) -> Request {
    Request::Diff {
        path: format!("p{}", token),
        token,
    }
}

#[test]
fn coalesce_empty() {
    let out = coalesce(VecDeque::new());
    assert!(out.is_empty());
}

#[test]
fn coalesce_single_recompute_passes_through() {
    let mut input = VecDeque::new();
    input.push_back(Request::Recompute);
    assert_eq!(collect(coalesce(input)), vec!["R"]);
}

#[test]
fn coalesce_three_recomputes_collapse_to_one() {
    let mut input = VecDeque::new();
    input.push_back(Request::Recompute);
    input.push_back(Request::Recompute);
    input.push_back(Request::Recompute);
    assert_eq!(collect(coalesce(input)), vec!["R"]);
}

#[test]
fn coalesce_preserves_shutdown_after_recompute() {
    let mut input = VecDeque::new();
    input.push_back(Request::Recompute);
    input.push_back(Request::Shutdown);
    let out = coalesce(input);
    assert_eq!(collect(out), vec!["X", "R"]);
}

#[test]
fn coalesce_preserves_switchrepo() {
    let mut input = VecDeque::new();
    input.push_back(Request::Recompute);
    input.push_back(Request::SwitchRepo("/tmp/repo".to_string()));
    input.push_back(Request::Recompute);
    let out = collect(coalesce(input));
    assert!(out.contains(&"S"));
    let r_count = out.iter().filter(|s| **s == "R").count();
    assert_eq!(r_count, 1);
}

#[test]
fn coalesce_preserves_diffs_in_order() {
    let mut q = VecDeque::new();
    q.push_back(diff_req(1));
    q.push_back(diff_req(2));
    q.push_back(diff_req(3));
    let out = coalesce(q);
    assert_eq!(collect(out), vec!["D", "D", "D"]);
}

#[test]
fn coalesce_diff_then_recompute_orders_diff_first() {
    let mut q = VecDeque::new();
    q.push_back(Request::Recompute);
    q.push_back(diff_req(1));
    q.push_back(Request::Recompute);
    let out = coalesce(q);
    assert_eq!(collect(out), vec!["D", "R"]);
}

#[test]
fn coalesce_keeps_diff_tokens_and_paths_in_order() {
    let mut q = VecDeque::new();
    q.push_back(diff_req(2));
    q.push_back(Request::Recompute);
    q.push_back(diff_req(5));
    let out: Vec<Request> = coalesce(q).into_iter().collect();
    assert_eq!(out.len(), 3);
    match &out[0] {
        Request::Diff { path, token } => {
            assert_eq!(path, "p2");
            assert_eq!(*token, 2);
        }
        other => panic!("unexpected {other:?}"),
    }
    match &out[1] {
        Request::Diff { path, token } => {
            assert_eq!(path, "p5");
            assert_eq!(*token, 5);
        }
        other => panic!("unexpected {other:?}"),
    }
    assert!(matches!(out[2], Request::Recompute));
}

#[test]
fn coalesce_is_idempotent_on_example() {
    let mut q = VecDeque::new();
    q.push_back(Request::Recompute);
    q.push_back(Request::SwitchRepo("/a".to_string()));
    q.push_back(Request::Recompute);
    q.push_back(Request::Shutdown);
    let once = coalesce(q);
    let once_letters = {
        let v: Vec<&str> = once
            .iter()
            .map(|r| match r {
                Request::Recompute => "R",
                Request::Diff { .. } => "D",
                Request::SwitchRepo(_) => "S",
                Request::Shutdown => "X",
            })
            .collect();
        v
    };
    let twice = collect(coalesce(once));
    assert_eq!(once_letters, twice);
    assert_eq!(twice, vec!["S", "X", "R"]);
}

#[test]
fn channel_high_predicate() {
    assert!(!channel_high(0, 8));
    assert!(!channel_high(3, 8));
    assert!(channel_high(4, 8));
    assert!(channel_high(7, 8));
    assert!(!channel_high(100, 0));
}

#[test]
fn channel_high_odd_capacity() {
    assert!(!channel_high(2, 5));
    assert!(channel_high(3, 5));
    assert!(channel_high(1, 1));
    assert!(!channel_high(0, 1));
}

#[test]
fn warn_if_high_smoke() {
    let (tx, _rx) = crossbeam_channel::bounded::<Request>(4);
    tx.send(Request::Recompute).unwrap();
    tx.send(Request::Recompute).unwrap();
    assert_eq!(channel_pressure(&tx), (2, 4, true));
}

#[test]
fn channel_pressure_unbounded_is_silent() {
    let (tx, _rx) = crossbeam_channel::unbounded::<Request>();
    tx.send(Request::Recompute).unwrap();
    assert_eq!(channel_pressure(&tx), (1, 0, false));
}

#[test]
fn channel_pressure_below_half() {
    let (tx, _rx) = crossbeam_channel::bounded::<Request>(8);
    tx.send(Request::Shutdown).unwrap();
    assert_eq!(channel_pressure(&tx), (1, 8, false));
}

fn file(path: &str) -> perch::git::FileEntry {
    perch::git::FileEntry {
        path: path.to_string(),
        status: perch::git::FileStatus::Modified,
        insertions: 1,
        deletions: 0,
        group: perch::git::ChangeGroup::Changes,
    }
}

#[test]
fn assemble_status_prefers_branch_scoped_files() {
    let b = perch::worker::assemble_status(
        Some("main".to_string()),
        Some(perch::git::ObjectId::null(20)),
        Some(vec![file("scoped.rs")]),
        Some(vec![file("plain.rs")]),
        "feat".to_string(),
        None,
        Some(3),
        Some(Some((1, 2))),
        None,
        "repo".to_string(),
        "wt".to_string(),
    );
    assert_eq!(b.files.len(), 1);
    assert_eq!(b.files[0].path, "scoped.rs");
    assert!(b.merge_base.is_some());
    assert_eq!(b.base_branch, "main");
    assert_eq!(b.stash_count, 3);
    assert_eq!(b.ahead_behind, Some((1, 2)));
}

#[test]
fn assemble_status_falls_back_to_plain_status_without_base() {
    let b = perch::worker::assemble_status(
        None,
        None,
        None,
        Some(vec![file("plain.rs")]),
        "feat".to_string(),
        Some(("abc".to_string(), "msg".to_string())),
        None,
        None,
        Some("REBASING".to_string()),
        "repo".to_string(),
        "wt".to_string(),
    );
    assert_eq!(b.files[0].path, "plain.rs");
    assert!(b.merge_base.is_none());
    assert_eq!(b.base_branch, "");
    assert_eq!(b.stash_count, 0);
    assert_eq!(b.ahead_behind, None);
    assert_eq!(b.repo_state.as_deref(), Some("REBASING"));
}

#[test]
fn assemble_status_degrades_when_branch_status_fails() {
    let b = perch::worker::assemble_status(
        Some("main".to_string()),
        Some(perch::git::ObjectId::null(20)),
        None,
        None,
        "feat".to_string(),
        None,
        None,
        None,
        None,
        "repo".to_string(),
        "wt".to_string(),
    );
    assert!(b.files.is_empty());
    assert!(b.merge_base.is_none());
    assert_eq!(b.base_branch, "main");
}

#[test]
fn worker_jobs_follow_requests() {
    assert!(matches!(worker_job(Request::Recompute), Job::Status));
    match worker_job(Request::Diff { path: "a.rs".to_string(), token: 4 }) {
        Job::Diff { path, token } => {
            assert_eq!(path, "a.rs");
            assert_eq!(token, 4);
        }
        other => panic!("unexpected {other:?}"),
    }
    match worker_job(Request::SwitchRepo("/b".to_string())) {
        Job::Open(p) => assert_eq!(p, "/b"),
        other => panic!("unexpected {other:?}"),
    }
    assert!(matches!(worker_job(Request::Shutdown), Job::Stop));
}

#[test]
fn worker_step_replies_in_order() {
    let (r, stop) = worker_step(Outcome::Status(StatusBundle { branch: "feat".to_string(), ..Default::default() }));
    assert!(!stop);
    assert!(matches!(&r[..], [Response::Status(b)] if b.branch == "feat"));

    let (r, stop) = worker_step(Outcome::Diff {
        path: "a.rs".to_string(),
        token: 7,
        result: Ok(perch::git::FileDiff::default()),
    });
    assert!(!stop);
    assert!(matches!(&r[..], [Response::Diff { path, token: 7, .. }] if path == "a.rs"));

    let (r, _) = worker_step(Outcome::Diff { path: "a.rs".to_string(), token: 7, result: Err("boom".to_string()) });
    assert!(matches!(&r[..], [Response::Error(m)] if m == "diff a.rs: boom"));

    let (r, stop) = worker_step(Outcome::Opened(Ok(())));
    assert!(!stop);
    assert!(matches!(&r[..], [Response::SwitchAck(true)]));

    let (r, _) = worker_step(Outcome::Opened(Err("not a repository".to_string())));
    assert!(matches!(&r[..], [Response::Error(m), Response::SwitchAck(false)] if m == "switch: not a repository"));

    let (r, stop) = worker_step(Outcome::Stopped);
    assert!(stop);
    assert!(r.is_empty());
}

#[test]
fn worker_open_failure_message() {
    match perch::worker::open_failed("no repo".to_string()) {
        perch::worker::Response::Error(m) => assert_eq!(m, "worker open: no repo"),
        other => panic!("unexpected {other:?}"),
    }
}

fn job_letters(mut batch: Batch) -> Vec<&'static str> {
    let mut out = Vec::new();
    while let Some(job) = batch.next_job() {
        out.push(match job {
            Job::Status => "S",
            Job::Diff { .. } => "D",
            Job::Open(_) => "O",
            Job::Stop => "X",
        });
    }
    out
}

#[test]
fn batch_handles_diffs_and_switches_before_the_status() {
    let mut q = VecDeque::new();
    q.push_back(Request::Recompute);
    q.push_back(diff_req(1));
    q.push_back(Request::SwitchRepo("/b".to_string()));
    q.push_back(Request::Recompute);
    assert_eq!(job_letters(Batch::new(q)), vec!["D", "O", "S"]);
}

#[test]
fn batch_stops_at_shutdown_and_skips_the_status() {
    let mut q = VecDeque::new();
    q.push_back(Request::Recompute);
    q.push_back(diff_req(1));
    q.push_back(Request::Shutdown);
    q.push_back(diff_req(2));
    let mut batch = Batch::new(q);
    assert_eq!(job_letters_until_none(&mut batch), vec!["D", "X"]);
    assert!(batch.next_job().is_none());
}

fn job_letters_until_none(batch: &mut Batch) -> Vec<&'static str> {
    let mut out = Vec::new();
    while let Some(job) = batch.next_job() {
        out.push(match job {
            Job::Status => "S",
            Job::Diff { .. } => "D",
            Job::Open(_) => "O",
            Job::Stop => "X",
        });
    }
    out
}
