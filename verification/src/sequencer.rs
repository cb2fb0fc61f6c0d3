//! The sequencer: a list of frame durations, the active frame and the time
//! left in it.

use vstd::prelude::*;
use crate::index::index_view;
use crate::timer::finished_after_tick;

verus! {

/// Why a list of durations cannot drive a sequencer.
#[derive(Clone, Copy, Debug, PartialEq, Eq)]
pub enum ConfigurationError {
    /// The list holds no duration at all.
    EmptyDurations,
    /// The duration at `index` is zero, and no earlier one is.
    ZeroDuration { index: usize },
}

/// A list of durations that a sequencer accepts: at least one, none of them
/// zero.
pub open spec fn valid_durations(durations: Seq<u64>) -> bool {
    &&& durations.len() >= 1
    &&& forall|i: int| 0 <= i < durations.len() ==> durations[i] > 0
}

/// The durations of the built-in sequence, in milliseconds.
pub open spec fn standard_durations() -> Seq<u64> {
    seq![1000u64, 5000u64, 10000u64]
}

/// Whether `index` is the position of the first zero in `durations`.
pub open spec fn is_first_zero(durations: Seq<u64>, index: int) -> bool {
    &&& 0 <= index < durations.len()
    &&& durations[index] == 0
    &&& forall|j: int| 0 <= j < index ==> durations[j] != 0
}

/// The index after `index` in a cycle of `len` frames.
pub open spec fn successor(index: nat, len: nat) -> nat {
    (index + 1) % len
}

/// Inside a cycle the successor is the next index, and the first index
/// after the last.
pub proof fn lemma_successor(index: nat, len: nat)
    requires
        index < len,
    ensures
        successor(index, len) < len,
        index + 1 < len ==> successor(index, len) == index + 1,
        index + 1 == len ==> successor(index, len) == 0,
{
    let i = index as int;
    let n = len as int;
    if i + 1 < n {
        assert((i + 1) % n == i + 1) by (nonlinear_arith)
            requires
                0 <= i + 1 < n,
        ;
    } else {
        assert((i + 1) % n == 0) by (nonlinear_arith)
            requires
                i + 1 == n,
                n > 0,
        ;
    }
}

/// The sum of `ticks`.
pub open spec fn total(ticks: Seq<nat>) -> nat
    decreases ticks.len(),
{
    if ticks.len() == 0 {
        0
    } else {
        total(ticks.drop_last()) + ticks.last()
    }
}

/// A sequencer as a mathematical value. Durations and `remaining` are in
/// milliseconds.
pub struct SequencerState {
    /// The duration of each frame, in order.
    pub durations: Seq<u64>,
    /// The active frame, `None` until the countdown has run out once.
    pub current_index: Option<nat>,
    /// The time left until the next frame becomes active.
    pub remaining: nat,
}

impl SequencerState {
    /// The state that a sequencer over `durations` starts in: no frame is
    /// active, and the first duration is left to run.
    pub open spec fn initial(durations: Seq<u64>) -> SequencerState {
        SequencerState { durations, current_index: None, remaining: durations[0] as nat }
    }

    /// The frame whose duration the countdown is measured against: the
    /// active one, or the first while none is active.
    pub open spec fn measured_index(self) -> nat {
        match self.current_index {
            None => 0,
            Some(i) => i,
        }
    }

    /// The invariant of every sequencer: valid durations, an index inside
    /// the list, and a countdown that is running and has not more left than
    /// the duration it is measured against.
    pub open spec fn wf(self) -> bool {
        &&& valid_durations(self.durations)
        &&& self.measured_index() < self.durations.len()
        &&& 0 < self.remaining <= self.durations[self.measured_index() as int]
    }

    /// Whether a step of `elapsed` runs the countdown down to zero or below.
    pub open spec fn expires(self, elapsed: nat) -> bool {
        self.remaining - elapsed <= 0
    }

    /// The frame that becomes active when the countdown runs out: the first
    /// one at the start, else the one after the active frame, and the first
    /// one again past the end of the list.
    pub open spec fn next_index(self) -> nat {
        match self.current_index {
            None => 0,
            Some(i) => successor(i, self.durations.len()),
        }
    }

    /// The state after the countdown has run out: the next frame is active
    /// and its whole duration is left.
    pub open spec fn fire(self) -> SequencerState {
        SequencerState {
            durations: self.durations,
            current_index: Some(self.next_index()),
            remaining: self.durations[self.next_index() as int] as nat,
        }
    }

    /// The state after one step of `elapsed` milliseconds. The countdown
    /// runs out at most once per step, however large `elapsed` is.
    pub open spec fn advance(self, elapsed: nat) -> SequencerState {
        if self.expires(elapsed) {
            self.fire()
        } else {
            SequencerState {
                durations: self.durations,
                current_index: self.current_index,
                remaining: (self.remaining - elapsed) as nat,
            }
        }
    }

    /// The state after one step for each of `ticks`, in turn.
    pub open spec fn advance_all(self, ticks: Seq<nat>) -> SequencerState
        decreases ticks.len(),
    {
        if ticks.len() == 0 {
            self
        } else {
            self.advance_all(ticks.drop_last()).advance(ticks.last())
        }
    }

    /// A step keeps the invariant and the list of durations.
    pub proof fn lemma_advance_keeps_wf(self, elapsed: nat)
        requires
            self.wf(),
        ensures
            self.advance(elapsed).wf(),
            self.advance(elapsed).durations == self.durations,
    {
    }

    /// A step that does not use up what is left keeps the active frame and
    /// takes the elapsed time off the countdown.
    pub proof fn lemma_advance_within_frame(self, elapsed: nat)
        requires
            self.wf(),
            elapsed < self.remaining,
        ensures
            self.advance(elapsed).current_index == self.current_index,
            self.advance(elapsed).remaining == self.remaining - elapsed,
    {
    }

    /// A step that uses up what is left moves on by exactly one frame,
    /// however far it overshoots: from the last frame to the first, else to
    /// the frame after the active one. The whole duration of the new frame
    /// is then left.
    pub proof fn lemma_advance_wraps(self, elapsed: nat)
        requires
            self.wf(),
            self.current_index is Some,
            elapsed >= self.remaining,
        ensures
            self.advance(elapsed).current_index == Some(self.next_index()),
            self.advance(elapsed).remaining == self.durations[self.next_index() as int],
            self.next_index() == if self.current_index->Some_0 + 1 == self.durations.len() {
                0
            } else {
                self.current_index->Some_0 + 1
            },
    {
        lemma_successor(self.current_index->Some_0, self.durations.len());
    }

    /// Before the first frame: the countdown of the first duration runs, and
    /// the step that uses it up makes frame 0 active with its whole duration
    /// left.
    pub proof fn lemma_initial(durations: Seq<u64>, elapsed: nat)
        requires
            valid_durations(durations),
        ensures
            SequencerState::initial(durations).wf(),
            SequencerState::initial(durations).current_index is None,
            SequencerState::initial(durations).remaining == durations[0],
            elapsed >= durations[0] ==> SequencerState::initial(durations).advance(elapsed)
                == (SequencerState {
                durations,
                current_index: Some(0nat),
                remaining: durations[0] as nat,
            }),
    {
    }

    /// Ticks that together do not use up what is left keep the active frame;
    /// the countdown has gone down by their sum.
    pub proof fn lemma_accumulate_within_frame(self, ticks: Seq<nat>)
        requires
            self.wf(),
            total(ticks) < self.remaining,
        ensures
            self.advance_all(ticks) == (SequencerState {
                durations: self.durations,
                current_index: self.current_index,
                remaining: (self.remaining - total(ticks)) as nat,
            }),
        decreases ticks.len(),
    {
        if ticks.len() > 0 {
            self.lemma_accumulate_within_frame(ticks.drop_last());
        }
    }

    /// The frame changes on the tick with which the accumulated time
    /// reaches what was left, and by one frame.
    pub proof fn lemma_accumulate_fires(self, ticks: Seq<nat>)
        requires
            self.wf(),
            ticks.len() > 0,
            total(ticks.drop_last()) < self.remaining <= total(ticks),
        ensures
            self.advance_all(ticks) == self.fire(),
    {
        self.lemma_accumulate_within_frame(ticks.drop_last());
    }

    /// A tick of no time changes nothing, and so does any number of them.
    pub proof fn lemma_idle(self, ticks: Seq<nat>)
        requires
            self.wf(),
            forall|k: int| 0 <= k < ticks.len() ==> ticks[k] == 0,
        ensures
            self.advance(0) == self,
            self.advance_all(ticks) == self,
        decreases ticks.len(),
    {
        if ticks.len() > 0 {
            self.lemma_idle(ticks.drop_last());
        }
    }
}

/// The part of a sequencer that moves.
#[derive(Clone, Copy, Debug, PartialEq, Eq)]
struct Countdown {
    index: Option<usize>,
    remaining: u64,
}

/// Cycles through a fixed list of frames, holding each for its duration.
#[derive(Debug, PartialEq, Eq)]
pub struct Sequencer {
    durations: Vec<u64>,
    countdown: Countdown,
}

impl View for Sequencer {
    type V = SequencerState;

    closed spec fn view(&self) -> SequencerState {
        SequencerState {
            durations: self.durations@,
            current_index: index_view(self.countdown.index),
            remaining: self.countdown.remaining as nat,
        }
    }
}

impl Sequencer {
    /// The invariant that every sequencer satisfies: that of its model.
    #[verifier::type_invariant]
    pub open spec fn wf(&self) -> bool {
        self@.wf()
    }

    /// A sequencer over `durations`, in its initial state. An empty list and
    /// a list with a zero in it are refused.
    pub fn new(durations: Vec<u64>) -> (result: Result<Sequencer, ConfigurationError>)
        ensures
            result is Ok <==> valid_durations(durations@),
            match result {
                Ok(s) => {
                    &&& valid_durations(durations@)
                    &&& s@ == SequencerState::initial(durations@)
                    &&& s@.wf()
                },
                Err(ConfigurationError::EmptyDurations) => durations@.len() == 0,
                Err(ConfigurationError::ZeroDuration { index }) => is_first_zero(
                    durations@,
                    index as int,
                ),
            },
    {
        if durations.len() == 0 {
            return Err(ConfigurationError::EmptyDurations);
        }
        let mut i: usize = 0;
        while i < durations.len()
            invariant
                i <= durations.len(),
                forall|j: int| 0 <= j < i ==> durations@[j] != 0,
            decreases durations.len() - i,
        {
            if durations[i] == 0 {
                return Err(ConfigurationError::ZeroDuration { index: i });
            }
            i += 1;
        }
        let remaining: u64 = durations[0];
        Ok(Sequencer { durations, countdown: Countdown { index: None, remaining } })
    }

    /// The built-in sequence, in its initial state: frames of 1000, 5000
    /// and 10000 milliseconds.
    pub fn standard() -> (sequencer: Sequencer)
        ensures
            sequencer@ == SequencerState::initial(standard_durations()),
            sequencer@.wf(),
    {
        let durations: Vec<u64> = vec![1000, 5000, 10000];
        assert(durations@ =~= standard_durations());
        let remaining: u64 = durations[0];
        Sequencer { durations, countdown: Countdown { index: None, remaining } }
    }

    /// The duration of each frame, in order.
    pub fn durations(&self) -> (durations: &[u64])
        ensures
            durations@ == self@.durations,
    {
        self.durations.as_slice()
    }

    /// The active frame, `None` until the countdown has run out once.
    pub fn current_index(&self) -> (index: Option<usize>)
        ensures
            index_view(index) == self@.current_index,
    {
        self.countdown.index
    }

    /// The milliseconds left until the next frame becomes active.
    pub fn remaining(&self) -> (remaining: u64)
        ensures
            remaining as nat == self@.remaining,
    {
        self.countdown.remaining
    }

    /// Steps the sequencer by `elapsed_ms` milliseconds: takes them off the
    /// countdown, and where that runs out, makes the next frame active and
    /// starts the countdown of its duration.
    pub fn advance(&mut self, elapsed_ms: u64)
        ensures
            final(self)@.wf(),
            final(self)@ == old(self)@.advance(elapsed_ms as nat),
    {
        proof {
            use_type_invariant(&*self);
            lemma_successor(self@.measured_index(), self@.durations.len());
        }
        if finished_after_tick(self.countdown.remaining, elapsed_ms) {
            let len: usize = self.durations.len();
            let next: usize = match self.countdown.index {
                None => 0,
                Some(i) => if i + 1 < len {
                    i + 1
                } else {
                    0
                },
            };
            self.countdown = Countdown { index: Some(next), remaining: self.durations[next] };
        } else {
            self.countdown.remaining = self.countdown.remaining - elapsed_ms;
        }
    }
}

} // verus!
