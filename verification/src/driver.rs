//! One tick of the whole: step the sequencer, then let every gate look at
//! the frame that is active afterwards.

use vstd::prelude::*;
use crate::dispatch::{
    fired_frames, frames_view, fresh_gates, lemma_fired_frames, observe_all, Dispatcher,
};
use crate::gate::{FrameGate, GateState};
use crate::index::index_view;
use crate::sequencer::{standard_durations, Sequencer, SequencerState};

verus! {

/// The frames that the built-in gates watch.
pub open spec fn standard_frames() -> Seq<nat> {
    seq![0nat, 1nat, 2nat]
}

/// A driver as a mathematical value.
pub struct DriverState {
    /// The sequencer that the ticks step, if there is one.
    pub sequencer: Option<SequencerState>,
    /// The gates, one per watched frame.
    pub gates: Seq<GateState>,
}

impl DriverState {
    /// The state in which the built-in sequence starts.
    pub open spec fn standard() -> DriverState {
        DriverState {
            sequencer: Some(SequencerState::initial(standard_durations())),
            gates: fresh_gates(standard_frames()),
        }
    }

    /// The invariant of every driver: that of its sequencer, if it has
    /// one.
    pub open spec fn wf(self) -> bool {
        self.sequencer matches Some(s) ==> s.wf()
    }

    /// The state after a tick of `elapsed` milliseconds. Without a
    /// sequencer nothing moves. With one, it is stepped first, and every
    /// gate then observes the index it has afterwards.
    pub open spec fn tick(self, elapsed: nat) -> DriverState {
        match self.sequencer {
            None => self,
            Some(s) => DriverState {
                sequencer: Some(s.advance(elapsed)),
                gates: observe_all(self.gates, s.advance(elapsed).current_index),
            },
        }
    }

    /// The frames whose actions a tick of `elapsed` milliseconds sets off,
    /// in the order of the gates: none without a sequencer, else the
    /// watched frames of the gates that fire on the index after the step.
    pub open spec fn entered(self, elapsed: nat) -> Seq<nat> {
        match self.sequencer {
            None => Seq::empty(),
            Some(s) => fired_frames(self.gates, s.advance(elapsed).current_index),
        }
    }

    /// Whether every gate has observed the index that the sequencer has
    /// now. This holds before the first tick of the built-in sequence and
    /// after every tick.
    pub open spec fn settled(self) -> bool {
        match self.sequencer {
            None => true,
            Some(s) => forall|i: int|
                0 <= i < self.gates.len() ==> (#[trigger] self.gates[i]).last_seen
                    == s.current_index,
        }
    }

    /// The state after `count` ticks of `elapsed` milliseconds each.
    pub open spec fn tick_times(self, elapsed: nat, count: nat) -> DriverState
        decreases count,
    {
        if count == 0 {
            self
        } else {
            self.tick_times(elapsed, (count - 1) as nat).tick(elapsed)
        }
    }

    /// The built-in sequence starts settled and satisfies the invariant.
    pub proof fn lemma_standard_settled()
        ensures
            DriverState::standard().settled(),
            DriverState::standard().wf(),
    {
    }

    /// Every tick leaves the driver settled, and keeps the invariant.
    pub proof fn lemma_tick_settles(self, elapsed: nat)
        ensures
            self.tick(elapsed).settled(),
            self.wf() ==> self.tick(elapsed).wf(),
    {
    }

    /// Every frame that a tick reports is the frame that is active after
    /// it.
    pub proof fn lemma_entered_is_current(self, elapsed: nat, k: int)
        requires
            0 <= k < self.entered(elapsed).len(),
        ensures
            self.tick(elapsed).sequencer is Some,
            self.tick(elapsed).sequencer->Some_0.current_index == Some(self.entered(elapsed)[k]),
    {
        let s = self.sequencer->Some_0;
        lemma_fired_frames(self.gates, s.advance(elapsed).current_index);
    }

    /// A tick with which the active frame changes is reported by every
    /// gate that watches the new frame, whatever happened before.
    pub proof fn lemma_change_is_reported(self, elapsed: nat, i: int)
        requires
            self.settled(),
            self.sequencer is Some,
            0 <= i < self.gates.len(),
            self.tick(elapsed).sequencer->Some_0.current_index == Some(self.gates[i].watched),
            self.tick(elapsed).sequencer->Some_0.current_index
                != self.sequencer->Some_0.current_index,
        ensures
            self.gates[i].fires(Some(self.gates[i].watched)),
            self.entered(elapsed).len() > 0,
            self.entered(elapsed)[0] == self.gates[i].watched,
    {
        let s = self.sequencer->Some_0;
        lemma_fired_frames(self.gates, s.advance(elapsed).current_index);
    }

    /// A tick that does not use up what is left of the active frame sets
    /// nothing off and changes nothing but the countdown.
    pub proof fn lemma_quiet_tick(self, elapsed: nat)
        requires
            self.wf(),
            self.settled(),
            self.sequencer is Some,
            elapsed < self.sequencer->Some_0.remaining,
        ensures
            self.entered(elapsed) == Seq::<nat>::empty(),
            self.tick(elapsed).gates == self.gates,
            self.tick(elapsed).sequencer == Some(self.sequencer->Some_0.advance(elapsed)),
            self.tick(elapsed).sequencer->Some_0.current_index
                == self.sequencer->Some_0.current_index,
    {
        let s = self.sequencer->Some_0;
        lemma_fired_frames(self.gates, s.current_index);
        assert(self.tick(elapsed).gates =~= self.gates);
        assert(self.entered(elapsed) =~= Seq::<nat>::empty());
    }

    /// Ticks of no time, however many, never run the countdown out: the
    /// frame does not change, nothing is set off, and the driver stays as
    /// it is.
    pub proof fn lemma_idle_ticks(self, count: nat)
        requires
            self.wf(),
            self.settled(),
        ensures
            self.tick(0) == self,
            self.entered(0) == Seq::<nat>::empty(),
            self.tick_times(0, count) == self,
        decreases count,
    {
        if self.sequencer is Some {
            self.lemma_quiet_tick(0);
        }
        if count > 0 {
            self.lemma_idle_ticks((count - 1) as nat);
        }
    }
}

/// A sequencer, if one is active, together with the gates that watch it.
#[derive(Debug)]
pub struct Driver {
    sequencer: Option<Sequencer>,
    dispatcher: Dispatcher,
}

impl View for Driver {
    type V = DriverState;

    closed spec fn view(&self) -> DriverState {
        DriverState {
            sequencer: match self.sequencer {
                None => None,
                Some(s) => Some(s@),
            },
            gates: self.dispatcher@,
        }
    }
}

impl Driver {
    /// A driver over the given parts.
    pub fn new(sequencer: Option<Sequencer>, dispatcher: Dispatcher) -> (driver: Driver)
        ensures
            driver@.wf(),
            driver@.gates == dispatcher@,
            match sequencer {
                None => driver@.sequencer is None,
                Some(s) => driver@.sequencer == Some(s@),
            },
    {
        proof {
            if let Some(s) = &sequencer {
                use_type_invariant(s);
            }
        }
        Driver { sequencer, dispatcher }
    }

    /// The built-in sequence: frames of 1000, 5000 and 10000 milliseconds,
    /// with fresh gates for the frames 0, 1 and 2.
    pub fn setup() -> (driver: Driver)
        ensures
            driver@ == DriverState::standard(),
            driver@.wf(),
    {
        let watched: Vec<usize> = vec![0, 1, 2];
        assert(frames_view(watched@) =~= standard_frames());
        Driver { sequencer: Some(Sequencer::standard()), dispatcher: Dispatcher::new(&watched) }
    }

    /// The sequencer, if there is one.
    pub fn sequencer(&self) -> (sequencer: Option<&Sequencer>)
        ensures
            match sequencer {
                None => self@.sequencer is None,
                Some(s) => self@.sequencer == Some(s@),
            },
    {
        self.sequencer.as_ref()
    }

    /// The frame that is active, `None` without a sequencer or before its
    /// first frame.
    pub fn current_index(&self) -> (index: Option<usize>)
        ensures
            index_view(index) == match self@.sequencer {
                None => None,
                Some(s) => s.current_index,
            },
    {
        match &self.sequencer {
            None => None,
            Some(sequencer) => sequencer.current_index(),
        }
    }

    /// One tick of `elapsed_ms` milliseconds. Returns the frames whose
    /// actions are due, in the order of the gates.
    pub fn tick(&mut self, elapsed_ms: u64) -> (entered: Vec<usize>)
        ensures
            final(self)@.wf(),
            final(self)@ == old(self)@.tick(elapsed_ms as nat),
            frames_view(entered@) == old(self)@.entered(elapsed_ms as nat),
    {
        match &mut self.sequencer {
            None => {
                let entered: Vec<usize> = Vec::new();
                assert(frames_view(entered@) =~= Seq::<nat>::empty());
                entered
            },
            Some(sequencer) => {
                sequencer.advance(elapsed_ms);
                let index = sequencer.current_index();
                self.dispatcher.dispatch(index)
            },
        }
    }
}

/// Evaluates `gate` against the sequencer, if there is one: it then
/// takes its current index. Without a sequencer `gate` does not fire and
/// remembers nothing new.
pub fn run_on_frame(gate: &mut FrameGate, sequencer: Option<&Sequencer>) -> (fired: bool)
    ensures
        match sequencer {
            None => !fired && final(gate)@ == old(gate)@,
            Some(s) => {
                &&& fired == old(gate)@.fires(s@.current_index)
                &&& final(gate)@ == old(gate)@.observe(s@.current_index)
            },
        },
{
    match sequencer {
        None => false,
        Some(s) => gate.check(s.current_index()),
    }
}

} // verus!
