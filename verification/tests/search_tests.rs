use resonate::search::{PullOutcome, SearchAggregator};
use resonate::song::Song;

fn song(id: &str, sql_id: usize) -> Song {
    Song::new(
        sql_id,
        format!("name-{id}"),
        format!("artist-{id}"),
        format!("album-{id}"),
        id.to_string(),
        120,
        None,
    )
}

fn ids(list: &[&str]) -> Vec<String> {
    list.iter().map(|s| s.to_string()).collect()
}

#[test]
fn fully_cached_query_yields_the_cached_set_once() {
    let mut search = SearchAggregator::start(ids(&["a", "b"]));
    search.push_local(vec![song("a", 1), song("b", 2)]);
    // The remote lookup returns the same songs; all are already known.
    let remote = vec![song("a", 0), song("b", 0)];
    let fresh = search.filter_new(&remote);
    assert!(fresh.is_empty());
    search.push_remote(fresh);

    match search.pull() {
        PullOutcome::Item(s) => assert_eq!(s.id, "a"),
        _ => panic!("expected the first cached song"),
    }
    match search.pull() {
        PullOutcome::Item(s) => assert_eq!(s.id, "b"),
        _ => panic!("expected the second cached song"),
    }
    assert!(matches!(search.pull(), PullOutcome::Done));
    assert!(matches!(search.pull(), PullOutcome::Done));
}

#[test]
fn remote_results_are_deduplicated_against_the_snapshot() {
    let search = SearchAggregator::start(ids(&["known1", "known2"]));
    let remote = vec![song("known1", 0), song("new1", 0), song("known2", 0), song("new2", 0)];
    let fresh = search.filter_new(&remote);
    let fresh_ids: Vec<&str> = fresh.iter().map(|s| s.id.as_str()).collect();
    assert_eq!(fresh_ids, vec!["new1", "new2"]);
}

#[test]
fn pull_suspends_while_a_producer_is_outstanding() {
    let mut search = SearchAggregator::start(ids(&[]));
    assert!(matches!(search.pull(), PullOutcome::Pending));
    search.push_local(vec![song("hit", 1)]);
    match search.pull() {
        PullOutcome::Item(s) => assert_eq!(s.id, "hit"),
        _ => panic!("expected the buffered song"),
    }
    // Local is done but remote is still out: not the end yet.
    assert!(matches!(search.pull(), PullOutcome::Pending));
    search.push_remote(vec![]);
    assert!(matches!(search.pull(), PullOutcome::Done));
}

#[test]
fn buffered_items_keep_insertion_order() {
    let mut search = SearchAggregator::start(ids(&[]));
    search.push_local(vec![song("l1", 1), song("l2", 2)]);
    search.push_remote(vec![song("r1", 0)]);
    let mut seen = Vec::new();
    loop {
        match search.pull() {
            PullOutcome::Item(s) => seen.push(s.id),
            PullOutcome::Done => break,
            PullOutcome::Pending => panic!("both producers have finished"),
        }
    }
    assert_eq!(seen, vec!["l1".to_string(), "l2".to_string(), "r1".to_string()]);
}

#[test]
fn a_failed_producer_still_lets_the_other_flow() {
    let mut search = SearchAggregator::start(ids(&[]));
    search.push_local(vec![song("local-hit", 1)]);
    search.remote_failed();
    match search.pull() {
        PullOutcome::Item(s) => assert_eq!(s.id, "local-hit"),
        _ => panic!("expected the local result"),
    }
    assert!(matches!(search.pull(), PullOutcome::Done));
}

#[test]
fn a_failed_local_producer_still_terminates() {
    let mut search = SearchAggregator::start(ids(&[]));
    search.local_failed();
    search.push_remote(vec![song("remote-hit", 0)]);
    match search.pull() {
        PullOutcome::Item(s) => assert_eq!(s.id, "remote-hit"),
        _ => panic!("expected the remote result"),
    }
    assert!(matches!(search.pull(), PullOutcome::Done));
}

#[test]
fn abandoning_a_search_does_not_block_a_new_one() {
    let abandoned = SearchAggregator::start(ids(&["x"]));
    drop(abandoned);
    let mut fresh_search = SearchAggregator::start(ids(&[]));
    fresh_search.push_local(vec![song("found", 1)]);
    fresh_search.push_remote(vec![]);
    match fresh_search.pull() {
        PullOutcome::Item(s) => assert_eq!(s.id, "found"),
        _ => panic!("the new search must work"),
    }
    assert!(matches!(fresh_search.pull(), PullOutcome::Done));
}
