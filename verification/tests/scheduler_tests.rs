use resonate::scheduler::{DownloadScheduler, SubmitOutcome, Worker, WorkerPool, MAX_IN_FLIGHT};
use resonate::song::Song;

fn song(id: &str, sql_id: usize) -> Song {
    Song::new(
        sql_id,
        format!("name-{id}"),
        format!("artist-{id}"),
        format!("album-{id}"),
        id.to_string(),
        180,
        None,
    )
}

fn downloaded_song(id: &str) -> Song {
    Song::new(
        9,
        format!("name-{id}"),
        format!("artist-{id}"),
        format!("album-{id}"),
        id.to_string(),
        180,
        Some(format!("/music/{id}.mp3")),
    )
}

#[test]
fn six_submissions_fill_capacity_then_queue() {
    let mut sch = DownloadScheduler::new();
    for k in 0..6usize {
        let outcome = sch.submit(song(&format!("s{k}"), k));
        if k < 4 {
            assert!(matches!(outcome, SubmitOutcome::Accepted { .. }));
        } else {
            assert!(matches!(outcome, SubmitOutcome::Queued));
        }
    }
    assert_eq!(sch.in_flight_count(), 4);
    assert_eq!(sch.backlog_count(), 2);

    // Completing the first request promotes the oldest queued one.
    let dispatched = sch.complete(&"s0".to_string());
    let dispatch = dispatched.expect("a backlogged request must be dispatched");
    assert_eq!(dispatch.song.id, "s4");
    assert_eq!(sch.in_flight_count(), 4);
    assert_eq!(sch.backlog_count(), 1);
}

#[test]
fn duplicate_while_in_flight_is_rejected() {
    let mut sch = DownloadScheduler::new();
    let first = sch.submit(song("dup", 1));
    assert!(matches!(first, SubmitOutcome::Accepted { .. }));
    // Same external identity, different metadata: still a duplicate.
    let second = sch.submit(song("dup", 2));
    assert!(matches!(second, SubmitOutcome::Rejected));
    assert_eq!(sch.in_flight_count(), 1);
}

#[test]
fn duplicate_in_backlog_is_rejected() {
    let mut sch = DownloadScheduler::new();
    for k in 0..4usize {
        sch.submit(song(&format!("f{k}"), k));
    }
    assert!(matches!(sch.submit(song("q0", 10)), SubmitOutcome::Queued));
    assert!(matches!(sch.submit(song("q0", 11)), SubmitOutcome::Rejected));
    assert_eq!(sch.backlog_count(), 1);
}

#[test]
fn already_downloaded_song_is_rejected() {
    let mut sch = DownloadScheduler::new();
    let outcome = sch.submit(downloaded_song("have"));
    assert!(matches!(outcome, SubmitOutcome::Rejected));
    assert_eq!(sch.in_flight_count(), 0);
    assert_eq!(sch.backlog_count(), 0);
}

#[test]
fn in_flight_never_exceeds_limit() {
    let mut sch = DownloadScheduler::new();
    for k in 0..10usize {
        sch.submit(song(&format!("n{k}"), k));
        assert!(sch.in_flight_count() <= MAX_IN_FLIGHT);
    }
    for k in 0..10usize {
        sch.complete(&format!("n{k}"));
        assert!(sch.in_flight_count() <= MAX_IN_FLIGHT);
    }
}

#[test]
fn backlog_drains_in_arrival_order() {
    let mut sch = DownloadScheduler::new();
    for k in 0..4usize {
        sch.submit(song(&format!("f{k}"), k));
    }
    sch.submit(song("first-queued", 20));
    sch.submit(song("second-queued", 21));
    sch.submit(song("third-queued", 22));

    let d1 = sch.complete(&"f2".to_string()).expect("dispatch");
    assert_eq!(d1.song.id, "first-queued");
    let d2 = sch.complete(&"f0".to_string()).expect("dispatch");
    assert_eq!(d2.song.id, "second-queued");
    let d3 = sch.complete(&"f1".to_string()).expect("dispatch");
    assert_eq!(d3.song.id, "third-queued");
    assert_eq!(sch.backlog_count(), 0);
}

#[test]
fn completion_of_unknown_identity_changes_nothing() {
    let mut sch = DownloadScheduler::new();
    sch.submit(song("known", 1));
    let dispatched = sch.complete(&"unknown".to_string());
    assert!(dispatched.is_none());
    assert_eq!(sch.in_flight_count(), 1);
}

#[test]
fn completion_with_empty_backlog_dispatches_nothing() {
    let mut sch = DownloadScheduler::new();
    sch.submit(song("only", 1));
    let dispatched = sch.complete(&"only".to_string());
    assert!(dispatched.is_none());
    assert_eq!(sch.in_flight_count(), 0);
}

#[test]
fn worker_executes_jobs_in_fifo_order() {
    let mut w = Worker::new();
    let started = w.claim(song("one", 1));
    assert!(started);
    let restarted = w.claim(song("two", 2));
    assert!(!restarted);
    assert_eq!(w.take_next().expect("job").id, "one");
    assert_eq!(w.take_next().expect("job").id, "two");
    assert!(w.take_next().is_none());
    // Once drained, the loop stops; the next claim must restart it.
    let started_again = w.claim(song("three", 3));
    assert!(started_again);
}

#[test]
fn dispatch_prefers_an_idle_worker() {
    let mut pool = WorkerPool::new(4);
    let i0 = pool.pick();
    pool.claim(i0, song("a", 1));
    let i1 = pool.pick();
    // Worker i0 is running with one job; an idle worker must be chosen.
    assert_ne!(i1, i0);
    pool.claim(i1, song("b", 2));
    pool.claim(i1, song("c", 3));
    let i2 = pool.pick();
    assert_ne!(i2, i0);
    assert_ne!(i2, i1);
}

#[test]
fn dispatch_balances_by_smallest_backlog() {
    let mut pool = WorkerPool::new(2);
    pool.claim(0, song("a", 1));
    pool.claim(0, song("b", 2));
    pool.claim(1, song("c", 3));
    // Both run; worker 1 holds fewer jobs.
    assert_eq!(pool.pick(), 1);
}

#[test]
fn scheduler_hands_workers_their_jobs() {
    let mut sch = DownloadScheduler::new();
    let outcome = sch.submit(song("job", 1));
    let worker = match outcome {
        SubmitOutcome::Accepted { worker, started } => {
            assert!(started);
            worker
        }
        _ => panic!("expected an immediate dispatch"),
    };
    let job = sch.next_job(worker).expect("the worker's job");
    assert_eq!(job.id, "job");
    assert!(sch.next_job(worker).is_none());
}
