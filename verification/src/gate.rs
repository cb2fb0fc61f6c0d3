//! Gates: one-shot-per-entry guards, each keyed to one frame index.

use vstd::prelude::*;
use crate::index::index_view;

verus! {

/// What a gate is, as a mathematical value.
pub struct GateState {
    /// The frame index that this gate answers for.
    pub watched: nat,
    /// The index handed to the latest evaluation, `None` while unset.
    pub last_seen: Option<nat>,
}

impl GateState {
    /// A gate that has not observed anything yet.
    pub open spec fn fresh(watched: nat) -> GateState {
        GateState { watched, last_seen: None }
    }

    /// Whether an evaluation with `current` reports the entry into the
    /// watched frame.
    pub open spec fn fires(self, current: Option<nat>) -> bool {
        current == Some(self.watched) && current != self.last_seen
    }

    /// This gate after an evaluation with `current`.
    pub open spec fn observe(self, current: Option<nat>) -> GateState {
        GateState { watched: self.watched, last_seen: current }
    }

    /// This gate after one evaluation with each of `indices`, in turn.
    pub open spec fn observe_run(self, indices: Seq<Option<nat>>) -> GateState
        decreases indices.len(),
    {
        if indices.len() == 0 {
            self
        } else {
            self.observe_run(indices.drop_last()).observe(indices.last())
        }
    }

    /// Whether, in a run of evaluations with each of `indices` in turn, the
    /// one at position `k` fires.
    pub open spec fn fires_at(self, indices: Seq<Option<nat>>, k: int) -> bool
        recommends
            0 <= k < indices.len(),
    {
        self.observe_run(indices.take(k)).fires(indices[k])
    }

    /// The index that the evaluation at position `k` of a run compares
    /// with: the one of the evaluation before it, or what this gate
    /// remembered when the run began.
    pub open spec fn seen_before(self, indices: Seq<Option<nat>>, k: int) -> Option<nat>
        recommends
            0 <= k <= indices.len(),
    {
        if k == 0 {
            self.last_seen
        } else {
            indices[k - 1]
        }
    }

    /// A run of evaluations leaves the watched frame as it is, and it
    /// remembers the last index of the run.
    pub proof fn lemma_observe_run(self, indices: Seq<Option<nat>>)
        ensures
            self.observe_run(indices).watched == self.watched,
            self.observe_run(indices).last_seen == self.seen_before(
                indices,
                indices.len() as int,
            ),
        decreases indices.len(),
    {
        if indices.len() > 0 {
            self.lemma_observe_run(indices.drop_last());
        }
    }

    /// An evaluation in a run fires exactly when its index is the watched
    /// frame and the evaluation before it had another index.
    pub proof fn lemma_fires_at(self, indices: Seq<Option<nat>>, k: int)
        requires
            0 <= k < indices.len(),
        ensures
            self.fires_at(indices, k) <==> indices[k] == Some(self.watched) && indices[k]
                != self.seen_before(indices, k),
    {
        self.lemma_observe_run(indices.take(k));
    }

    /// While the index stays the same from one tick to the next, it
    /// does not fire again: of a stay in one frame only the tick of entry
    /// can fire.
    pub proof fn lemma_single_fire_per_entry(self, indices: Seq<Option<nat>>, k: int)
        requires
            1 <= k < indices.len(),
            indices[k] == indices[k - 1],
        ensures
            !self.fires_at(indices, k),
    {
        self.lemma_fires_at(indices, k);
    }

    /// Once the index has been another one, a gate fires on the next
    /// entry into the watched frame, whatever it did before.
    pub proof fn lemma_rearms_on_reentry(self, indices: Seq<Option<nat>>, k: int)
        requires
            1 <= k < indices.len(),
            indices[k - 1] != Some(self.watched),
            indices[k] == Some(self.watched),
        ensures
            self.fires_at(indices, k),
    {
        self.lemma_fires_at(indices, k);
    }

    /// A fresh gate fires on the first entry into its frame.
    pub proof fn lemma_fresh_fires_on_first_entry(
        watched: nat,
        indices: Seq<Option<nat>>,
        k: int,
    )
        requires
            0 <= k < indices.len(),
            indices[k] == Some(watched),
            forall|j: int| 0 <= j < k ==> indices[j] != Some(watched),
        ensures
            GateState::fresh(watched).fires_at(indices, k),
    {
        GateState::fresh(watched).lemma_fires_at(indices, k);
    }
}

/// A guard for one watched frame index. It remembers the index it was last
/// evaluated with, so that a frame which stays active triggers only once.
#[derive(Clone, Copy, Debug)]
pub struct FrameGate {
    watched: usize,
    last_seen: Option<usize>,
}

impl View for FrameGate {
    type V = GateState;

    closed spec fn view(&self) -> GateState {
        GateState { watched: self.watched as nat, last_seen: index_view(self.last_seen) }
    }
}

impl FrameGate {
    /// A gate for `watched` that has observed nothing.
    pub fn new(watched: usize) -> (gate: FrameGate)
        ensures
            gate@ == GateState::fresh(watched as nat),
    {
        FrameGate { watched, last_seen: None }
    }

    /// The frame index that this gate answers for.
    pub fn watched(&self) -> (watched: usize)
        ensures
            watched as nat == self@.watched,
    {
        self.watched
    }

    /// The index handed to the latest evaluation, `None` while unset.
    pub fn last_seen(&self) -> (last_seen: Option<usize>)
        ensures
            index_view(last_seen) == self@.last_seen,
    {
        self.last_seen
    }

    /// Evaluates this gate for one tick. Returns true exactly when
    /// `current_index` is the watched frame and differs from the index of the
    /// previous evaluation; remembers `current_index` in either case.
    pub fn check(&mut self, current_index: Option<usize>) -> (fired: bool)
        ensures
            fired == old(self)@.fires(index_view(current_index)),
            final(self)@ == old(self)@.observe(index_view(current_index)),
    {
        let fired = current_index == Some(self.watched) && current_index != self.last_seen;
        self.last_seen = current_index;
        fired
    }
}

} // verus!
