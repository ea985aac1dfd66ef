//! The download scheduler and its worker pool.
//!
//! `submit` admits each catalog identity at most once while it is in
//! flight or backlogged, keeps the number of in-flight downloads within
//! `MAX_IN_FLIGHT`, and overflows into a single global FIFO backlog.
//! `complete` retires a finished download and drains the backlog strictly
//! in arrival order.  Each worker owns a private FIFO job list and a
//! running flag; handing a job to a worker and marking it running is one
//! step, so a worker seen going idle between the check and the hand-over
//! cannot lose the job.

use vstd::prelude::*;

use crate::song::Song;

verus! {

/// Upper bound on the number of downloads that may be in flight at once.
pub const MAX_IN_FLIGHT: usize = 4;

/// Number of workers in the pool.
pub const WORKER_COUNT: usize = 4;

/// True when some song in `songs` has external identifier `id`.
pub open spec fn has_id(songs: Seq<Song>, id: Seq<char>) -> bool {
    exists|i: int| 0 <= i < songs.len() && songs[i]@.id == id
}

/// True when no two songs in `songs` share an external identifier.
pub open spec fn unique_ids(songs: Seq<Song>) -> bool {
    forall|i: int, j: int| 0 <= i < j < songs.len() ==> songs[i]@.id != songs[j]@.id
}

/// True when no identifier occurs both in `a` and in `b`.
pub open spec fn disjoint_ids(a: Seq<Song>, b: Seq<Song>) -> bool {
    forall|i: int, j: int|
        0 <= i < a.len() && 0 <= j < b.len() ==> a[i]@.id != b[j]@.id
}

/// One executor of the pool: a private FIFO job list and a flag that is
/// set exactly while the worker's execution loop is alive.
pub struct Worker {
    pub jobs: Vec<Song>,
    pub running: bool,
}

impl Worker {
    pub fn new() -> (w: Self)
        ensures
            w.jobs@ =~= Seq::<Song>::empty(),
            !w.running,
    {
        Worker { jobs: Vec::new(), running: false }
    }

    /// Hand a job to this worker and mark it running, as one step.  The
    /// result says whether the worker was idle before, in which case its
    /// execution loop must be (re)started by the caller.
    pub fn claim(&mut self, song: Song) -> (started: bool)
        ensures
            started == !old(self).running,
            final(self).jobs@ == old(self).jobs@.push(song),
            final(self).running,
    {
        let started = !self.running;
        self.jobs.push(song);
        self.running = true;
        started
    }

    /// One round of the worker's execution loop: take the oldest job, or,
    /// when none is left, clear the running flag and stop.
    pub fn take_next(&mut self) -> (r: Option<Song>)
        ensures
            old(self).jobs@.len() == 0 ==> {
                &&& r is None
                &&& !final(self).running
                &&& final(self).jobs@ == old(self).jobs@
            },
            old(self).jobs@.len() > 0 ==> {
                &&& r == Some(old(self).jobs@[0])
                &&& final(self).jobs@ == old(self).jobs@.drop_first()
                &&& final(self).running == old(self).running
            },
    {
        if self.jobs.len() == 0 {
            self.running = false;
            None
        } else {
            let song = self.jobs.remove(0);
            proof {
                assert(self.jobs@ =~= old(self).jobs@.drop_first());
            }
            Some(song)
        }
    }
}

/// The fixed-size set of workers.
pub struct WorkerPool {
    pub workers: Vec<Worker>,
}

impl WorkerPool {
    /// Idle workers hold no jobs.
    pub open spec fn wf(self) -> bool {
        forall|i: int|
            0 <= i < self.workers.len() && !(#[trigger] self.workers[i]).running
                ==> self.workers[i].jobs@.len() == 0
    }

    pub fn new(count: usize) -> (p: Self)
        ensures
            p.workers.len() == count,
            p.wf(),
            forall|i: int| 0 <= i < count ==> !(#[trigger] p.workers[i]).running,
            forall|i: int|
                0 <= i < count ==> (#[trigger] p.workers[i]).jobs@.len() == 0,
    {
        let mut workers: Vec<Worker> = Vec::new();
        let mut k: usize = 0;
        while k < count
            invariant
                k <= count,
                workers.len() == k,
                forall|i: int| 0 <= i < k ==> !(#[trigger] workers[i]).running,
                forall|i: int| 0 <= i < k ==> (#[trigger] workers[i]).jobs@.len() == 0,
            decreases count - k,
        {
            workers.push(Worker::new());
            k = k + 1;
        }
        WorkerPool { workers }
    }

    /// Choose the worker to dispatch to: an idle worker if there is one,
    /// otherwise a running worker with the smallest job list.
    pub fn pick(&self) -> (i: usize)
        requires
            self.workers.len() > 0,
        ensures
            i < self.workers.len(),
            (exists|j: int|
                0 <= j < self.workers.len() && !(#[trigger] self.workers[j]).running)
                ==> !self.workers[i as int].running,
            self.workers[i as int].running ==> forall|j: int|
                0 <= j < self.workers.len()
                    ==> self.workers[i as int].jobs@.len()
                        <= (#[trigger] self.workers[j]).jobs@.len(),
    {
        let mut best: usize = 0;
        let mut k: usize = 1;
        while k < self.workers.len()
            invariant
                best < k,
                k <= self.workers.len(),
                (exists|j: int| 0 <= j < k && !(#[trigger] self.workers[j]).running)
                    ==> !self.workers[best as int].running,
                self.workers[best as int].running ==> forall|j: int|
                    0 <= j < k
                        ==> self.workers[best as int].jobs@.len()
                            <= (#[trigger] self.workers[j]).jobs@.len(),
            decreases self.workers.len() - k,
        {
            if !self.workers[k].running {
                if self.workers[best].running {
                    best = k;
                }
            } else if self.workers[best].running
                && self.workers[k].jobs.len() < self.workers[best].jobs.len() {
                best = k;
            }
            k = k + 1;
        }
        best
    }

    /// Hand `song` to worker `i` (see [`Worker::claim`]).
    pub fn claim(&mut self, i: usize, song: Song) -> (started: bool)
        requires
            i < old(self).workers.len(),
        ensures
            final(self).workers.len() == old(self).workers.len(),
            started == !old(self).workers[i as int].running,
            final(self).workers[i as int].jobs@
                == old(self).workers[i as int].jobs@.push(song),
            final(self).workers[i as int].running,
            forall|j: int|
                0 <= j < old(self).workers.len() && j != i
                    ==> final(self).workers[j] == old(self).workers[j],
            old(self).wf() ==> final(self).wf(),
    {
        let started = self.workers[i].claim(song);
        started
    }

    /// One round of worker `i`'s execution loop (see [`Worker::take_next`]).
    pub fn take_next(&mut self, i: usize) -> (r: Option<Song>)
        requires
            i < old(self).workers.len(),
        ensures
            final(self).workers.len() == old(self).workers.len(),
            forall|j: int|
                0 <= j < old(self).workers.len() && j != i
                    ==> final(self).workers[j] == old(self).workers[j],
            old(self).workers[i as int].jobs@.len() == 0 ==> {
                &&& r is None
                &&& !final(self).workers[i as int].running
                &&& final(self).workers[i as int].jobs@
                    == old(self).workers[i as int].jobs@
            },
            old(self).workers[i as int].jobs@.len() > 0 ==> {
                &&& r == Some(old(self).workers[i as int].jobs@[0])
                &&& final(self).workers[i as int].jobs@
                    == old(self).workers[i as int].jobs@.drop_first()
                &&& final(self).workers[i as int].running
                    == old(self).workers[i as int].running
            },
            old(self).wf() ==> final(self).wf(),
    {
        let r = self.workers[i].take_next();
        r
    }
}

/// What `submit` answered for one request.
pub enum SubmitOutcome {
    /// Dispatched immediately to worker `worker`; `started` says whether
    /// that worker's execution loop has to be (re)started.
    Accepted { worker: usize, started: bool },
    /// Appended to the global backlog; a completion will dispatch it later.
    Queued,
    /// A no-op: the song is already downloaded, in flight, or backlogged.
    Rejected,
}

/// A request that `complete` moved from the backlog into flight.
pub struct Dispatch {
    pub song: Song,
    pub worker: usize,
    pub started: bool,
}

/// The download scheduler: the set of in-flight requests, the global FIFO
/// backlog, and the worker pool it dispatches to.
pub struct DownloadScheduler {
    pub in_flight: Vec<Song>,
    pub backlog: Vec<Song>,
    pub pool: WorkerPool,
}

impl DownloadScheduler {
    /// The scheduler's invariant: the concurrency bound holds, each
    /// identity is admitted at most once, and idle workers hold no jobs.
    pub open spec fn wf(self) -> bool {
        &&& self.in_flight@.len() <= MAX_IN_FLIGHT
        &&& unique_ids(self.in_flight@)
        &&& unique_ids(self.backlog@)
        &&& disjoint_ids(self.in_flight@, self.backlog@)
        &&& self.pool.workers.len() == WORKER_COUNT
        &&& self.pool.wf()
    }

    /// True when the scheduler already holds a request for this identity.
    pub open spec fn duplicate_of(self, song: Song) -> bool {
        has_id(self.in_flight@, song@.id) || has_id(self.backlog@, song@.id)
    }

    pub fn new() -> (s: Self)
        ensures
            s.wf(),
            s.in_flight@ =~= Seq::<Song>::empty(),
            s.backlog@ =~= Seq::<Song>::empty(),
    {
        DownloadScheduler {
            in_flight: Vec::new(),
            backlog: Vec::new(),
            pool: WorkerPool::new(WORKER_COUNT),
        }
    }

    /// Index of the first song in `songs` with external identifier `id`.
    fn find_id(songs: &Vec<Song>, id: &String) -> (r: Option<usize>)
        ensures
            match r {
                Some(k) => k < songs@.len() && songs@[k as int]@.id == id@,
                None => !has_id(songs@, id@),
            },
    {
        let mut k: usize = 0;
        while k < songs.len()
            invariant
                k <= songs@.len(),
                forall|i: int| 0 <= i < k ==> songs@[i]@.id != id@,
            decreases songs@.len() - k,
        {
            if songs[k].id == *id {
                return Some(k);
            }
            k = k + 1;
        }
        None
    }

    /// Admit one download request.
    ///
    /// The request is rejected exactly when it would be a repeat: the song
    /// is already downloaded, already in flight, or already backlogged.
    /// Otherwise it is dispatched at once while fewer than `MAX_IN_FLIGHT`
    /// downloads are in flight, and backlogged otherwise.  The dispatch
    /// prefers an idle worker, and among running workers one with the
    /// smallest job list.
    pub fn submit(&mut self, song: Song) -> (r: SubmitOutcome)
        requires
            old(self).wf(),
        ensures
            final(self).wf(),
            final(self).in_flight@.len() <= MAX_IN_FLIGHT,
            (r is Rejected) <==> (song@.file is Some || old(self).duplicate_of(song)),
            r is Rejected ==> *final(self) == *old(self),
            r is Accepted ==> {
                &&& old(self).in_flight@.len() < MAX_IN_FLIGHT
                &&& final(self).in_flight@ == old(self).in_flight@.push(song)
                &&& final(self).backlog@ == old(self).backlog@
            },
            r is Queued ==> {
                &&& old(self).in_flight@.len() == MAX_IN_FLIGHT
                &&& final(self).backlog@ == old(self).backlog@.push(song)
                &&& final(self).in_flight@ == old(self).in_flight@
                &&& final(self).pool == old(self).pool
            },
            match r {
                SubmitOutcome::Accepted { worker, started } => {
                    &&& worker < WORKER_COUNT
                    &&& started == !old(self).pool.workers[worker as int].running
                    &&& final(self).pool.workers[worker as int].jobs@
                        == old(self).pool.workers[worker as int].jobs@.push(song)
                    &&& final(self).pool.workers[worker as int].running
                    &&& forall|j: int|
                        0 <= j < WORKER_COUNT && j != worker
                            ==> final(self).pool.workers[j] == old(self).pool.workers[j]
                    &&& ((exists|j: int|
                        0 <= j < WORKER_COUNT
                            && !(#[trigger] old(self).pool.workers[j]).running)
                        ==> !old(self).pool.workers[worker as int].running)
                    &&& (old(self).pool.workers[worker as int].running ==> forall|j: int|
                        0 <= j < WORKER_COUNT
                            ==> old(self).pool.workers[worker as int].jobs@.len()
                                <= (#[trigger] old(self).pool.workers[j]).jobs@.len())
                },
                _ => true,
            },
    {
        if song.file.is_some() {
            return SubmitOutcome::Rejected;
        }
        if Self::find_id(&self.in_flight, &song.id).is_some() {
            return SubmitOutcome::Rejected;
        }
        if Self::find_id(&self.backlog, &song.id).is_some() {
            return SubmitOutcome::Rejected;
        }
        if self.in_flight.len() < MAX_IN_FLIGHT {
            let worker = self.pool.pick();
            let started = self.pool.claim(worker, song.clone());
            self.in_flight.push(song);
            SubmitOutcome::Accepted { worker, started }
        } else {
            self.backlog.push(song);
            SubmitOutcome::Queued
        }
    }

    /// Retire a finished download and drain the backlog.
    ///
    /// The finished identity leaves the in-flight set; if the backlog is
    /// non-empty, its oldest request is dispatched and returned.  A
    /// completion for an identity that is not in flight changes nothing.
    pub fn complete(&mut self, finished_id: &String) -> (d: Option<Dispatch>)
        requires
            old(self).wf(),
        ensures
            final(self).wf(),
            final(self).in_flight@.len() <= MAX_IN_FLIGHT,
            !has_id(old(self).in_flight@, finished_id@) ==> {
                &&& *final(self) == *old(self)
                &&& d is None
            },
            has_id(old(self).in_flight@, finished_id@) && old(self).backlog@.len() == 0
                ==> {
                &&& d is None
                &&& final(self).backlog@ == old(self).backlog@
                &&& final(self).pool == old(self).pool
                &&& exists|k: int|
                    0 <= k < old(self).in_flight@.len()
                        && (#[trigger] old(self).in_flight@[k])@.id == finished_id@
                        && final(self).in_flight@ == old(self).in_flight@.remove(k)
            },
            has_id(old(self).in_flight@, finished_id@) && old(self).backlog@.len() > 0
                ==> {
                &&& d matches Some(disp) && disp.song == old(self).backlog@[0]
                &&& final(self).backlog@ == old(self).backlog@.drop_first()
                &&& exists|k: int|
                    0 <= k < old(self).in_flight@.len()
                        && (#[trigger] old(self).in_flight@[k])@.id == finished_id@
                        && final(self).in_flight@
                            == old(self).in_flight@.remove(k).push(old(self).backlog@[0])
            },
            match d {
                Some(disp) => {
                    &&& disp.worker < WORKER_COUNT
                    &&& disp.started == !old(self).pool.workers[disp.worker as int].running
                    &&& final(self).pool.workers[disp.worker as int].jobs@
                        == old(self).pool.workers[disp.worker as int].jobs@.push(disp.song)
                    &&& final(self).pool.workers[disp.worker as int].running
                    &&& forall|j: int|
                        0 <= j < WORKER_COUNT && j != disp.worker
                            ==> final(self).pool.workers[j] == old(self).pool.workers[j]
                    &&& ((exists|j: int|
                        0 <= j < WORKER_COUNT
                            && !(#[trigger] old(self).pool.workers[j]).running)
                        ==> !old(self).pool.workers[disp.worker as int].running)
                    &&& (old(self).pool.workers[disp.worker as int].running ==> forall|
                        j: int,
                    |
                        0 <= j < WORKER_COUNT
                            ==> old(self).pool.workers[disp.worker as int].jobs@.len()
                                <= (#[trigger] old(self).pool.workers[j]).jobs@.len())
                },
                None => final(self).pool == old(self).pool,
            },
    {
        let found = Self::find_id(&self.in_flight, finished_id);
        match found {
            None => None,
            Some(k) => {
                let _finished = self.in_flight.remove(k);
                if self.backlog.len() == 0 {
                    None
                } else {
                    let next = self.backlog.remove(0);
                    assert(self.backlog@ =~= old(self).backlog@.drop_first());
                    let worker = self.pool.pick();
                    let started = self.pool.claim(worker, next.clone());
                    self.in_flight.push(next.clone());
                    Some(Dispatch { song: next, worker, started })
                }
            },
        }
    }

    /// One round of worker `worker`'s execution loop: its oldest job, or
    /// `None` once its list is empty, which also stops the loop.
    pub fn next_job(&mut self, worker: usize) -> (r: Option<Song>)
        requires
            old(self).wf(),
            worker < WORKER_COUNT,
        ensures
            final(self).wf(),
            final(self).in_flight@ == old(self).in_flight@,
            final(self).backlog@ == old(self).backlog@,
            forall|j: int|
                0 <= j < WORKER_COUNT && j != worker
                    ==> final(self).pool.workers[j] == old(self).pool.workers[j],
            old(self).pool.workers[worker as int].jobs@.len() == 0 ==> {
                &&& r is None
                &&& !final(self).pool.workers[worker as int].running
                &&& final(self).pool.workers[worker as int].jobs@
                    == old(self).pool.workers[worker as int].jobs@
            },
            old(self).pool.workers[worker as int].jobs@.len() > 0 ==> {
                &&& r == Some(old(self).pool.workers[worker as int].jobs@[0])
                &&& final(self).pool.workers[worker as int].jobs@
                    == old(self).pool.workers[worker as int].jobs@.drop_first()
                &&& final(self).pool.workers[worker as int].running
                    == old(self).pool.workers[worker as int].running
            },
    {
        let r = self.pool.take_next(worker);
        r
    }

    /// How many downloads are in flight.
    pub fn in_flight_count(&self) -> (n: usize)
        ensures
            n == self.in_flight@.len(),
    {
        self.in_flight.len()
    }

    /// How many requests wait in the global backlog.
    pub fn backlog_count(&self) -> (n: usize)
        ensures
            n == self.backlog@.len(),
    {
        self.backlog.len()
    }
}

} // verus!
