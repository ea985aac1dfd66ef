//! The playback engine.
//!
//! The engine owns the pending-track queue, the current slot, progress,
//! speed and the pause/loop flags.  A background loop outside the library
//! calls [`PlaybackEngine::tick`] once per second, telling the engine
//! whether the audio output is idle; the engine answers with the track to
//! start sounding, if any.  Progress is counted in hundredths of a
//! second, and speed is a rate in hundredths, so one tick at normal speed
//! advances progress by exactly one second.

use vstd::prelude::*;

use rand::seq::SliceRandom;

use crate::song::Song;

verus! {

/// Playback rate of the slowed-down mode, in hundredths.
pub const SPEED_SLOW: u32 = 85;

/// Playback rate of normal playback, in hundredths.
pub const SPEED_NORMAL: u32 = 100;

/// Playback rate of the sped-up mode, in hundredths.
pub const SPEED_FAST: u32 = 140;

/// Mathematical image of a [`PlaybackEngine`].
#[verifier::ext_equal]
pub struct EngineView {
    pub queue: Seq<Song>,
    pub current: Option<Song>,
    pub progress: int,
    pub speed: int,
    pub paused: bool,
    pub looping: bool,
}

/// The pending queue as reported to callers: the current track is
/// physically retained as the queue head between being enqueued and being
/// sounded, but is never reported as pending.
pub open spec fn pending_of(s: EngineView) -> Seq<Song> {
    if s.current matches Some(c) && s.queue.len() > 0 && s.queue[0]@.sql_id
        == c@.sql_id {
        s.queue.drop_first()
    } else {
        s.queue
    }
}

/// Effect of enqueueing `song`: it goes to the back of the queue, and an
/// engine with nothing current promotes the queue head at once, so an
/// idle engine starts playing on the first enqueue.
pub open spec fn spec_queue_song(s: EngineView, song: Song) -> EngineView {
    EngineView {
        queue: s.queue.push(song),
        current: if s.current is Some {
            s.current
        } else if s.queue.len() > 0 {
            Some(s.queue[0])
        } else {
            Some(song)
        },
        ..s
    }
}

/// Effect of playing `song` at once: output is resumed, the song is put
/// at the front of the pending queue, whatever was sounding is discarded,
/// and the song becomes current.
pub open spec fn spec_play(s: EngineView, song: Song) -> EngineView {
    EngineView {
        queue: s.queue.insert(0, song),
        current: Some(song),
        paused: false,
        ..s
    }
}

/// Effect of skipping: the queue head (if any) becomes current, otherwise
/// the current slot empties.  The queue itself is untouched; the head
/// leaves it on the tick that starts sounding it.
pub open spec fn spec_skip(s: EngineView) -> EngineView {
    EngineView {
        current: if s.queue.len() > 0 {
            Some(s.queue[0])
        } else {
            None
        },
        ..s
    }
}

/// Effect of one polling tick, given whether the output is idle.
///
/// An idle output resets progress; a looping engine then replays the
/// current track as-is, and otherwise the queue head is popped into the
/// current slot (emptying it when the queue is empty).  A sounding,
/// unpaused output advances progress by the speed; the addition
/// saturates at the counter's top instead of overflowing.  The second
/// component is the track the output must start sounding, if any.
pub open spec fn spec_tick(s: EngineView, output_idle: bool) -> (EngineView, Option<
    Song,
>) {
    if output_idle {
        if s.looping {
            (EngineView { progress: 0, ..s }, s.current)
        } else if s.queue.len() > 0 {
            (
                EngineView {
                    progress: 0,
                    queue: s.queue.drop_first(),
                    current: Some(s.queue[0]),
                    ..s
                },
                Some(s.queue[0]),
            )
        } else {
            (EngineView { progress: 0, current: None, ..s }, None)
        }
    } else if !s.paused {
        (
            EngineView {
                progress: if s.progress + s.speed <= u64::MAX {
                    s.progress + s.speed
                } else {
                    s.progress
                },
                ..s
            },
            None,
        )
    } else {
        (s, None)
    }
}

/// The engine state iterated through `n` ticks with the output sounding.
pub open spec fn ticks_while_sounding(s: EngineView, n: nat) -> EngineView
    decreases n,
{
    if n == 0 {
        s
    } else {
        spec_tick(ticks_while_sounding(s, (n - 1) as nat), false).0
    }
}

/// Progress accrual law: while the output keeps sounding and the engine
/// is unpaused, `n` polling ticks advance progress by exactly `n` times
/// the speed, and touch nothing else.  At normal speed that is one second
/// of progress per tick.
pub proof fn lemma_progress_after_ticks(s: EngineView, n: nat)
    requires
        !s.paused,
        s.progress >= 0,
        s.speed >= 0,
        s.progress + n * s.speed <= u64::MAX,
    ensures
        ticks_while_sounding(s, n) == (EngineView {
            progress: s.progress + n * s.speed,
            ..s
        }),
    decreases n,
{
    if n == 0 {
        assert(ticks_while_sounding(s, 0) =~= (EngineView {
            progress: s.progress + 0 * s.speed,
            ..s
        }));
    } else {
        assert((n - 1) * s.speed <= n * s.speed && n * s.speed == (n - 1) * s.speed
            + s.speed) by (nonlinear_arith)
            requires
                n >= 1,
                s.speed >= 0,
        ;
        lemma_progress_after_ticks(s, (n - 1) as nat);
        assert(ticks_while_sounding(s, n) =~= (EngineView {
            progress: s.progress + n * s.speed,
            ..s
        }));
    }
}

/// The playback engine's state.  The audio device itself stays outside;
/// the `paused` flag and the tick input mirror what the device reports.
pub struct PlaybackEngine {
    pub queue: Vec<Song>,
    pub current: Option<Song>,
    pub progress: u64,
    pub speed: u32,
    pub paused: bool,
    pub looping: bool,
}

impl View for PlaybackEngine {
    type V = EngineView;

    open spec fn view(&self) -> EngineView {
        EngineView {
            queue: self.queue@,
            current: self.current,
            progress: self.progress as int,
            speed: self.speed as int,
            paused: self.paused,
            looping: self.looping,
        }
    }
}

/// Relies on rand's `SliceRandom::shuffle`: the slice is permuted in
/// place, so it holds the same songs afterwards.
#[verifier::external_body]
fn shuffle_in_place(songs: &mut Vec<Song>)
    ensures
        final(songs)@.to_multiset() == old(songs)@.to_multiset(),
{
    songs.shuffle(&mut rand::rng());
}

impl PlaybackEngine {
    /// A fresh, idle engine: nothing queued, nothing current, normal
    /// speed, not paused, not looping.
    pub fn new() -> (e: Self)
        ensures
            e@ == (EngineView {
                queue: Seq::<Song>::empty(),
                current: None::<Song>,
                progress: 0int,
                speed: SPEED_NORMAL as int,
                paused: false,
                looping: false,
            }),
    {
        let e = PlaybackEngine {
            queue: Vec::new(),
            current: None,
            progress: 0,
            speed: SPEED_NORMAL,
            paused: false,
            looping: false,
        };
        proof {
            assert(e@ =~= (EngineView {
                queue: Seq::<Song>::empty(),
                current: None::<Song>,
                progress: 0int,
                speed: SPEED_NORMAL as int,
                paused: false,
                looping: false,
            }));
        }
        e
    }

    /// Append `song` to the back of the pending queue; an engine with
    /// nothing current starts on it at once.
    pub fn queue_song(&mut self, song: Song)
        ensures
            final(self)@ == spec_queue_song(old(self)@, song),
    {
        self.queue.push(song);
        if self.current.is_none() {
            let head = self.queue[0].clone();
            self.current = Some(head);
        }
        proof {
            assert(self@ =~= spec_queue_song(old(self)@, song));
        }
    }

    /// Interrupt whatever is sounding and play `song` now.
    pub fn play(&mut self, song: Song)
        ensures
            final(self)@ == spec_play(old(self)@, song),
            final(self)@.current == Some(song),
    {
        self.paused = false;
        self.queue.insert(0, song.clone());
        self.current = Some(song);
        proof {
            assert(self@ =~= spec_play(old(self)@, song));
        }
    }

    /// Put `song` at the front of the pending queue and make it current,
    /// without resuming a paused output or discarding what sounds now.
    pub fn insert_song(&mut self, song: Song)
        ensures
            final(self)@ == (EngineView {
                queue: old(self)@.queue.insert(0, song),
                current: Some(song),
                ..old(self)@
            }),
    {
        self.queue.insert(0, song.clone());
        self.current = Some(song);
        proof {
            assert(self@ =~= (EngineView {
                queue: old(self)@.queue.insert(0, song),
                current: Some(song),
                ..old(self)@
            }));
        }
    }

    /// Discard whatever is sounding; the queue head (if any) becomes
    /// current.
    pub fn skip_song(&mut self)
        ensures
            final(self)@ == spec_skip(old(self)@),
    {
        if self.queue.len() > 0 {
            let head = self.queue[0].clone();
            self.current = Some(head);
        } else {
            self.current = None;
        }
        proof {
            assert(self@ =~= spec_skip(old(self)@));
        }
    }

    /// One round of the polling loop; `output_idle` says whether the
    /// audio output reports nothing sounding.  Returns the track the
    /// output must start sounding, if any; a track whose file cannot be
    /// decoded is simply not started, and the next tick advances past it.
    pub fn tick(&mut self, output_idle: bool) -> (start: Option<Song>)
        ensures
            final(self)@ == spec_tick(old(self)@, output_idle).0,
            start == spec_tick(old(self)@, output_idle).1,
    {
        if output_idle {
            self.progress = 0;
            if self.looping {
                let start = match &self.current {
                    Some(c) => Some(c.clone()),
                    None => None,
                };
                proof {
                    assert(self@ =~= spec_tick(old(self)@, output_idle).0);
                }
                start
            } else if self.queue.len() > 0 {
                let song = self.queue.remove(0);
                self.current = Some(song.clone());
                proof {
                    assert(self@ =~= spec_tick(old(self)@, output_idle).0);
                }
                Some(song)
            } else {
                self.current = None;
                proof {
                    assert(self@ =~= spec_tick(old(self)@, output_idle).0);
                }
                None
            }
        } else {
            if !self.paused {
                if self.progress <= u64::MAX - (self.speed as u64) {
                    self.progress = self.progress + self.speed as u64;
                }
            }
            proof {
                assert(self@ =~= spec_tick(old(self)@, output_idle).0);
            }
            None
        }
    }

    /// Stop output; state other than the pause flag is kept.
    pub fn pause(&mut self)
        ensures
            final(self)@ == (EngineView { paused: true, ..old(self)@ }),
    {
        self.paused = true;
        proof {
            assert(self@ =~= (EngineView { paused: true, ..old(self)@ }));
        }
    }

    /// Resume output; state other than the pause flag is kept.
    pub fn resume(&mut self)
        ensures
            final(self)@ == (EngineView { paused: false, ..old(self)@ }),
    {
        self.paused = false;
        proof {
            assert(self@ =~= (EngineView { paused: false, ..old(self)@ }));
        }
    }

    pub fn is_paused(&self) -> (r: bool)
        ensures
            r == self@.paused,
    {
        self.paused
    }

    /// The current track, if any.
    pub fn get_current(&self) -> (r: Option<Song>)
        ensures
            r == self@.current,
    {
        match &self.current {
            Some(c) => Some(c.clone()),
            None => None,
        }
    }

    /// Whether `song` is the current track, by stable catalog identity.
    pub fn is_this_playing(&self, song: &Song) -> (r: bool)
        ensures
            r == (match self@.current {
                Some(c) => c@.sql_id == song@.sql_id,
                None => false,
            }),
    {
        match &self.current {
            Some(c) => c.sql_id == song.sql_id,
            None => false,
        }
    }

    /// The pending queue as shown to callers: never includes the current
    /// track, even while it is physically retained as the queue head.
    pub fn get_queue(&self) -> (r: Vec<Song>)
        ensures
            r@ == pending_of(self@),
    {
        let skip_head: bool = match &self.current {
            Some(c) => self.queue.len() > 0 && self.queue[0].sql_id == c.sql_id,
            None => false,
        };
        let mut r: Vec<Song> = Vec::new();
        let mut k: usize = if skip_head {
            1
        } else {
            0
        };
        let ghost start: int = k as int;
        while k < self.queue.len()
            invariant
                start <= k <= self.queue@.len(),
                start == (if skip_head {
                    1int
                } else {
                    0int
                }),
                r@ == self.queue@.subrange(start, k as int),
            decreases self.queue@.len() - k,
        {
            let song = self.queue[k].clone();
            r.push(song);
            proof {
                assert(self.queue@.subrange(start, k + 1) =~= self.queue@.subrange(
                    start,
                    k as int,
                ).push(self.queue@[k as int]));
            }
            k = k + 1;
        }
        proof {
            if skip_head {
                assert(r@ =~= self.queue@.drop_first());
            } else {
                assert(r@ =~= self.queue@);
            }
        }
        r
    }

    /// Shuffle `songs` and append them all to the pending queue.  The
    /// queue gains exactly the given songs, in an order drawn by the
    /// random-number collaborator; a previously current track stays
    /// current.
    pub fn shuffle_into_queue(&mut self, songs: Vec<Song>)
        ensures
            final(self)@.queue.to_multiset() == old(self)@.queue.to_multiset().add(
                songs@.to_multiset(),
            ),
            final(self)@.queue.len() == old(self)@.queue.len() + songs@.len(),
            old(self)@.current is Some ==> final(self)@.current == old(self)@.current,
            songs@.len() == 0 ==> final(self)@.current == old(self)@.current,
            songs@.len() > 0 ==> final(self)@.current is Some,
            final(self)@.progress == old(self)@.progress,
            final(self)@.speed == old(self)@.speed,
            final(self)@.paused == old(self)@.paused,
            final(self)@.looping == old(self)@.looping,
    {
        let mut shuffled = songs;
        shuffle_in_place(&mut shuffled);
        proof {
            shuffled@.to_multiset_ensures();
            songs@.to_multiset_ensures();
            assert(shuffled@.len() == songs@.len());
        }
        let mut k: usize = 0;
        while k < shuffled.len()
            invariant
                k <= shuffled@.len(),
                shuffled@.to_multiset() == songs@.to_multiset(),
                shuffled@.len() == songs@.len(),
                self@.queue == old(self)@.queue + shuffled@.take(k as int),
                old(self)@.current is Some ==> self@.current == old(self)@.current,
                k == 0 ==> self@.current == old(self)@.current,
                k > 0 ==> self@.current is Some,
                self@.progress == old(self)@.progress,
                self@.speed == old(self)@.speed,
                self@.paused == old(self)@.paused,
                self@.looping == old(self)@.looping,
            decreases shuffled@.len() - k,
        {
            proof {
                assert(self@.queue =~= old(self)@.queue + shuffled@.take(k as int));
            }
            let song = shuffled[k].clone();
            self.queue_song(song);
            proof {
                assert(self@.queue =~= old(self)@.queue + shuffled@.take(k + 1));
            }
            k = k + 1;
        }
        proof {
            assert(shuffled@.take(shuffled@.len() as int) =~= shuffled@);
            assert(self@.queue == old(self)@.queue + shuffled@);
            vstd::seq_lib::lemma_multiset_commutative(old(self)@.queue, shuffled@);
        }
    }

    /// Slow playback to 0.85 times the normal rate.
    pub fn slow(&mut self)
        ensures
            final(self)@ == (EngineView { speed: SPEED_SLOW as int, ..old(self)@ }),
    {
        self.speed = SPEED_SLOW;
        proof {
            assert(self@ =~= (EngineView { speed: SPEED_SLOW as int, ..old(self)@ }));
        }
    }

    /// Speed playback up to 1.4 times the normal rate.
    pub fn fast(&mut self)
        ensures
            final(self)@ == (EngineView { speed: SPEED_FAST as int, ..old(self)@ }),
    {
        self.speed = SPEED_FAST;
        proof {
            assert(self@ =~= (EngineView { speed: SPEED_FAST as int, ..old(self)@ }));
        }
    }

    /// Restore the normal playback rate.
    pub fn normal(&mut self)
        ensures
            final(self)@ == (EngineView { speed: SPEED_NORMAL as int, ..old(self)@ }),
    {
        self.speed = SPEED_NORMAL;
        proof {
            assert(self@ =~= (EngineView { speed: SPEED_NORMAL as int, ..old(self)@ }));
        }
    }

    pub fn is_looping(&self) -> (r: bool)
        ensures
            r == self@.looping,
    {
        self.looping
    }

    pub fn set_looping(&mut self, do_looping: bool)
        ensures
            final(self)@ == (EngineView { looping: do_looping, ..old(self)@ }),
    {
        self.looping = do_looping;
        proof {
            assert(self@ =~= (EngineView { looping: do_looping, ..old(self)@ }));
        }
    }

    /// Seconds elapsed in the current track, in hundredths.
    pub fn current_progress(&self) -> (r: u64)
        ensures
            r == self@.progress,
    {
        self.progress
    }
}

/// Enqueueing on an idle engine: after `queue(a)` then `queue(b)` the
/// current track is `a` and the externally visible pending queue is
/// exactly `[b]`.
pub proof fn lemma_queue_two_on_idle(s: EngineView, a: Song, b: Song)
    requires
        s.current is None,
        s.queue.len() == 0,
    ensures
        spec_queue_song(spec_queue_song(s, a), b).current == Some(a),
        pending_of(spec_queue_song(spec_queue_song(s, a), b)) =~= seq![b],
{
    let s1 = spec_queue_song(s, a);
    let s2 = spec_queue_song(s1, b);
    assert(s2.queue =~= seq![a, b]);
    assert(pending_of(s2) =~= seq![b]);
}

} // verus!
