//! One gate per watched frame, evaluated together once per tick.

use vstd::prelude::*;
use crate::gate::{FrameGate, GateState};
use crate::index::index_view;

verus! {

/// Fresh gates for the frames in `watched`, in their order.
pub open spec fn fresh_gates(watched: Seq<nat>) -> Seq<GateState> {
    Seq::new(watched.len(), |i: int| GateState::fresh(watched[i]))
}

/// Every gate of `gates` after an evaluation with `current`.
pub open spec fn observe_all(gates: Seq<GateState>, current: Option<nat>) -> Seq<GateState> {
    Seq::new(gates.len(), |i: int| gates[i].observe(current))
}

/// The watched frames of those gates of `gates` that fire on `current`, in
/// the order of the gates.
pub open spec fn fired_frames(gates: Seq<GateState>, current: Option<nat>) -> Seq<nat>
    decreases gates.len(),
{
    if gates.len() == 0 {
        Seq::empty()
    } else {
        let earlier = fired_frames(gates.drop_last(), current);
        if gates.last().fires(current) {
            earlier.push(gates.last().watched)
        } else {
            earlier
        }
    }
}

/// What `fired_frames` holds: every entry is the index that the gates were
/// evaluated with, there are at most as many entries as gates, and there
/// is none exactly where no gate fires.
pub proof fn lemma_fired_frames(gates: Seq<GateState>, current: Option<nat>)
    ensures
        forall|k: int|
            0 <= k < fired_frames(gates, current).len() ==> current == Some(
                #[trigger] fired_frames(gates, current)[k],
            ),
        fired_frames(gates, current).len() <= gates.len(),
        fired_frames(gates, current).len() == 0 <==> forall|i: int|
            0 <= i < gates.len() ==> !(#[trigger] gates[i]).fires(current),
    decreases gates.len(),
{
    if gates.len() > 0 {
        let earlier = gates.drop_last();
        lemma_fired_frames(earlier, current);
        assert forall|i: int| 0 <= i < earlier.len() implies earlier[i] == gates[i] by {}
        if fired_frames(gates, current).len() == 0 {
            assert forall|i: int| 0 <= i < gates.len() implies !(#[trigger] gates[i]).fires(
                current,
            ) by {
                if i < earlier.len() {
                    assert(!earlier[i].fires(current));
                }
            }
        }
    }
}

/// A list of frame numbers as mathematical values.
pub open spec fn frames_view(frames: Seq<usize>) -> Seq<nat> {
    Seq::new(frames.len(), |i: int| frames[i] as nat)
}

/// The gates of all watched frames. Each keeps its own memory; a tick
/// evaluates every one of them, whether it fires or not.
#[derive(Debug)]
pub struct Dispatcher {
    gates: Vec<FrameGate>,
}

impl View for Dispatcher {
    type V = Seq<GateState>;

    closed spec fn view(&self) -> Seq<GateState> {
        Seq::new(self.gates@.len(), |i: int| self.gates@[i]@)
    }
}

impl Dispatcher {
    /// A dispatcher with one fresh gate for each frame in `watched`.
    pub fn new(watched: &[usize]) -> (dispatcher: Dispatcher)
        ensures
            dispatcher@ == fresh_gates(frames_view(watched@)),
    {
        let mut gates: Vec<FrameGate> = Vec::new();
        let mut i: usize = 0;
        while i < watched.len()
            invariant
                i <= watched.len(),
                gates@.len() == i,
                forall|j: int|
                    0 <= j < i ==> (#[trigger] gates@[j])@ == GateState::fresh(
                        watched@[j] as nat,
                    ),
            decreases watched.len() - i,
        {
            gates.push(FrameGate::new(watched[i]));
            i += 1;
        }
        let dispatcher = Dispatcher { gates };
        assert(dispatcher@ =~= fresh_gates(frames_view(watched@)));
        dispatcher
    }

    /// Evaluates every gate with `current_index` and returns the watched
    /// frames of those that fired, in the order of the gates.
    pub fn dispatch(&mut self, current_index: Option<usize>) -> (fired: Vec<usize>)
        ensures
            final(self)@ == observe_all(old(self)@, index_view(current_index)),
            frames_view(fired@) == fired_frames(old(self)@, index_view(current_index)),
    {
        let ghost current = index_view(current_index);
        let mut fired: Vec<usize> = Vec::new();
        let mut i: usize = 0;
        assert(frames_view(fired@) =~= Seq::<nat>::empty());
        while i < self.gates.len()
            invariant
                i <= self.gates.len(),
                self.gates@.len() == old(self).gates@.len(),
                forall|j: int|
                    0 <= j < i ==> (#[trigger] self.gates@[j])@ == old(self).gates@[j]@.observe(
                        current,
                    ),
                forall|j: int|
                    i <= j < self.gates@.len() ==> #[trigger] self.gates@[j] == old(self).gates@[j],
                frames_view(fired@) == fired_frames(old(self)@.take(i as int), current),
                current == index_view(current_index),
            decreases self.gates.len() - i,
        {
            let ghost fired_before = frames_view(fired@);
            let has_fired: bool = self.gates[i].check(current_index);
            if has_fired {
                fired.push(self.gates[i].watched());
            }
            proof {
                assert(old(self)@.take(i + 1).drop_last() =~= old(self)@.take(i as int));
                if has_fired {
                    assert(frames_view(fired@) =~= fired_before.push(old(self)@[i as int].watched));
                }
            }
            i += 1;
        }
        assert(old(self)@.take(i as int) =~= old(self)@);
        assert(self@ =~= observe_all(old(self)@, current));
        fired
    }
}

} // verus!
