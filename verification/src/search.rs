//! The search aggregator.
//!
//! A search runs two producers: a local one that queries the cached
//! catalog, and a remote one that performs a slow external lookup.  Both
//! push their batches into one shared buffer that the caller drains
//! incrementally with [`SearchAggregator::pull`].  The remote producer's
//! results are filtered against the set of identifiers already known when
//! the search started, so a song the cache already holds is never
//! published twice.  The sequence ends once the buffer is empty and both
//! producers have finished, whether they succeeded or failed.

use vstd::prelude::*;

use crate::song::Song;

verus! {

/// True when `id` is among the known identifiers `known`.
pub open spec fn id_is_known(known: Seq<String>, id: Seq<char>) -> bool {
    exists|i: int| 0 <= i < known.len() && known[i]@ == id
}

/// The remote results that are genuinely new: those whose external
/// identifier was not yet known when the search started.
pub open spec fn spec_new_songs(results: Seq<Song>, known: Seq<String>) -> Seq<Song> {
    results.filter(|s: Song| !id_is_known(known, s@.id))
}

/// What one `pull` yielded.
pub enum PullOutcome {
    /// The oldest buffered result, removed from the buffer.
    Item(Song),
    /// Nothing buffered yet, but a producer is still outstanding: the
    /// caller should wait and pull again.
    Pending,
    /// Nothing buffered and both producers have finished: the sequence
    /// has ended.
    Done,
}

/// One search in progress: the shared result buffer, the two producers'
/// completion flags, and the snapshot of known identifiers taken when the
/// search started.
pub struct SearchAggregator {
    pub buffer: Vec<Song>,
    pub local_done: bool,
    pub remote_done: bool,
    pub known_ids: Vec<String>,
}

impl SearchAggregator {
    /// Start a search.  `known_ids` is the snapshot of all cached
    /// external identifiers, captured once here and not updated while the
    /// producers run.
    pub fn start(known_ids: Vec<String>) -> (a: Self)
        ensures
            a.buffer@ =~= Seq::<Song>::empty(),
            !a.local_done,
            !a.remote_done,
            a.known_ids == known_ids,
    {
        SearchAggregator { buffer: Vec::new(), local_done: false, remote_done: false, known_ids }
    }

    /// Both producers have finished, successfully or not.
    pub open spec fn finished(self) -> bool {
        self.local_done && self.remote_done
    }

    /// The local producer delivers its batch of cached songs and
    /// finishes.  Buffered items keep their insertion order.
    pub fn push_local(&mut self, results: Vec<Song>)
        requires
            !old(self).local_done,
        ensures
            final(self).buffer@ == old(self).buffer@ + results@,
            final(self).local_done,
            final(self).remote_done == old(self).remote_done,
            final(self).known_ids == old(self).known_ids,
    {
        let mut results = results;
        self.buffer.append(&mut results);
        self.local_done = true;
    }

    /// Keep only the remote results that are new against the snapshot of
    /// known identifiers.  The caller caches these in storage before
    /// publishing them with [`Self::push_remote`].
    pub fn filter_new(&self, results: &Vec<Song>) -> (fresh: Vec<Song>)
        ensures
            fresh@ == spec_new_songs(results@, self.known_ids@),
    {
        let ghost pred = |s: Song| !id_is_known(self.known_ids@, s@.id);
        let mut fresh: Vec<Song> = Vec::new();
        let mut k: usize = 0;
        proof {
            reveal(Seq::filter);
            assert(results@.take(0) =~= Seq::<Song>::empty());
        }
        while k < results.len()
            invariant
                k <= results@.len(),
                pred == (|s: Song| !id_is_known(self.known_ids@, s@.id)),
                fresh@ == results@.take(k as int).filter(pred),
            decreases results@.len() - k,
        {
            let is_known = Self::contains_id(&self.known_ids, &results[k].id);
            if !is_known {
                let song = results[k].clone();
                fresh.push(song);
            }
            proof {
                reveal(Seq::filter);
                assert(results@.take(k + 1).drop_last() =~= results@.take(k as int));
                assert(results@.take(k + 1).last() == results@[k as int]);
            }
            k = k + 1;
        }
        proof {
            assert(results@.take(results@.len() as int) =~= results@);
        }
        fresh
    }

    /// The remote producer publishes its (already filtered and cached)
    /// batch and finishes.  Buffered items keep their insertion order.
    pub fn push_remote(&mut self, results: Vec<Song>)
        requires
            !old(self).remote_done,
        ensures
            final(self).buffer@ == old(self).buffer@ + results@,
            final(self).remote_done,
            final(self).local_done == old(self).local_done,
            final(self).known_ids == old(self).known_ids,
    {
        let mut results = results;
        self.buffer.append(&mut results);
        self.remote_done = true;
    }

    /// The local producer failed: it finishes without delivering
    /// anything, and the other producer's results still flow.
    pub fn local_failed(&mut self)
        ensures
            final(self).buffer@ == old(self).buffer@,
            final(self).local_done,
            final(self).remote_done == old(self).remote_done,
            final(self).known_ids == old(self).known_ids,
    {
        self.local_done = true;
    }

    /// The remote producer failed: it finishes without delivering
    /// anything, and the other producer's results still flow.
    pub fn remote_failed(&mut self)
        ensures
            final(self).buffer@ == old(self).buffer@,
            final(self).remote_done,
            final(self).local_done == old(self).local_done,
            final(self).known_ids == old(self).known_ids,
    {
        self.remote_done = true;
    }

    /// Take the next result: the oldest buffered item if there is one;
    /// otherwise either "wait, a producer is still outstanding" or "the
    /// sequence has ended".
    pub fn pull(&mut self) -> (r: PullOutcome)
        ensures
            old(self).buffer@.len() > 0 ==> {
                &&& r == PullOutcome::Item(old(self).buffer@[0])
                &&& final(self).buffer@ == old(self).buffer@.drop_first()
            },
            old(self).buffer@.len() == 0 ==> {
                &&& final(self).buffer@ == old(self).buffer@
                &&& r == (if old(self).finished() {
                    PullOutcome::Done
                } else {
                    PullOutcome::Pending
                })
            },
            final(self).local_done == old(self).local_done,
            final(self).remote_done == old(self).remote_done,
            final(self).known_ids == old(self).known_ids,
    {
        if self.buffer.len() > 0 {
            let song = self.buffer.remove(0);
            proof {
                assert(self.buffer@ =~= old(self).buffer@.drop_first());
            }
            PullOutcome::Item(song)
        } else if self.local_done && self.remote_done {
            PullOutcome::Done
        } else {
            PullOutcome::Pending
        }
    }

    /// Whether `id` occurs in `known`.
    fn contains_id(known: &Vec<String>, id: &String) -> (r: bool)
        ensures
            r == id_is_known(known@, id@),
    {
        let mut k: usize = 0;
        while k < known.len()
            invariant
                k <= known@.len(),
                forall|i: int| 0 <= i < k ==> known@[i]@ != id@,
            decreases known@.len() - k,
        {
            if known[k] == *id {
                return true;
            }
            k = k + 1;
        }
        false
    }
}

/// A query already fully represented in the cache: when every remote
/// result's identifier is already known, the remote producer contributes
/// nothing, so the search yields exactly the locally cached set and then
/// ends — no duplicates.
pub proof fn lemma_cached_query_adds_nothing(results: Seq<Song>, known: Seq<String>)
    requires
        forall|i: int| 0 <= i < results.len() ==> id_is_known(known, (#[trigger] results[i])@.id),
    ensures
        spec_new_songs(results, known) =~= Seq::<Song>::empty(),
{
    let pred = |s: Song| !id_is_known(known, s@.id);
    let fresh = spec_new_songs(results, known);
    if fresh.len() > 0 {
        broadcast use Seq::lemma_filter_pred;

        assert(pred(fresh[0]));
        assert(false) by {
            assert(results.contains(fresh[0])) by {
                lemma_filter_subset(results, pred, 0);
            }
            let j = choose|j: int| 0 <= j < results.len() && results[j] == fresh[0];
            assert(id_is_known(known, results[j]@.id));
        }
    }
}

/// Every filtered element comes from the unfiltered sequence.
proof fn lemma_filter_subset(s: Seq<Song>, pred: spec_fn(Song) -> bool, i: int)
    requires
        0 <= i < s.filter(pred).len(),
    ensures
        s.contains(s.filter(pred)[i]),
    decreases s.len(),
{
    reveal(Seq::filter);
    if s.len() > 0 {
        let sub = s.drop_last().filter(pred);
        if pred(s.last()) {
            if i < sub.len() {
                lemma_filter_subset(s.drop_last(), pred, i);
                assert(s.drop_last().contains(sub[i]));
                let j = choose|j: int|
                    0 <= j < s.drop_last().len() && s.drop_last()[j] == sub[i];
                assert(s[j] == sub[i]);
            } else {
                assert(s.filter(pred)[i] == s.last());
                assert(s[s.len() - 1] == s.last());
            }
        } else {
            lemma_filter_subset(s.drop_last(), pred, i);
            assert(s.drop_last().contains(sub[i]));
            let j = choose|j: int| 0 <= j < s.drop_last().len() && s.drop_last()[j] == sub[i];
            assert(s[j] == sub[i]);
        }
    }
}

} // verus!
