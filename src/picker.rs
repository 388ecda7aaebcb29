//! Candidate sampling with a fixed attempt budget, as a state machine: the
//! caller performs each action (read the node snapshot, check a candidate)
//! and hands the outcome back as an event.
use rand::Rng;
use vstd::prelude::*;

use crate::predicates::InvalidNodeReason;

verus! {

/// Attempts made for one pod before giving up.
pub const DEFAULT_ATTEMPTS: u32 = 5;

#[derive(Debug, Clone, Copy, PartialEq, Eq, Structural)]
pub enum PickerState {
    /// Attempt `attempt` (counted from 1) is about to draw a candidate.
    Sampling { attempt: u32 },
    /// Attempt `attempt` drew `candidate`, which awaits its verdict.
    Checking { attempt: u32, candidate: usize },
    /// `candidate` passed both checks.
    Picked { candidate: usize },
    /// Every attempt was spent without a candidate passing.
    Exhausted,
}

#[derive(Debug, Clone, Copy)]
pub enum PickerEvent {
    /// The index drawn from the current snapshot; `None` for an empty one.
    Drawn(Option<usize>),
    /// The verdict on the candidate being checked.
    Checked(Result<(), InvalidNodeReason>),
}

#[derive(Debug, Clone, Copy, PartialEq, Eq, Structural)]
pub enum PickerAction {
    /// Read the current snapshot and draw a candidate from it.
    Draw,
    /// Check the candidate at this index of the snapshot just read.
    Check(usize),
    /// Done: the chosen candidate, or `None` when the budget is spent.
    Finish(Option<usize>),
}

pub open spec fn initial_state(budget: u32) -> PickerState {
    if budget == 0 {
        PickerState::Exhausted
    } else {
        PickerState::Sampling { attempt: 1 }
    }
}

/// Where a failed attempt leads: the next attempt, or the end of the budget.
pub open spec fn after_attempt(budget: u32, attempt: u32) -> PickerState {
    if attempt < budget {
        PickerState::Sampling { attempt: (attempt + 1) as u32 }
    } else {
        PickerState::Exhausted
    }
}

/// One transition; an event that does not belong to the state is ignored.
pub open spec fn picker_next(budget: u32, s: PickerState, e: PickerEvent) -> PickerState {
    match (s, e) {
        (PickerState::Sampling { attempt }, PickerEvent::Drawn(None)) => after_attempt(budget, attempt),
        (PickerState::Sampling { attempt }, PickerEvent::Drawn(Some(c))) => PickerState::Checking {
            attempt,
            candidate: c,
        },
        (PickerState::Checking { attempt, candidate }, PickerEvent::Checked(Ok(()))) => PickerState::Picked {
            candidate,
        },
        (PickerState::Checking { attempt, candidate }, PickerEvent::Checked(Err(_))) => after_attempt(
            budget,
            attempt,
        ),
        _ => s,
    }
}

pub open spec fn picker_action(s: PickerState) -> PickerAction {
    match s {
        PickerState::Sampling { .. } => PickerAction::Draw,
        PickerState::Checking { candidate, .. } => PickerAction::Check(candidate),
        PickerState::Picked { candidate } => PickerAction::Finish(Some(candidate)),
        PickerState::Exhausted => PickerAction::Finish(None),
    }
}

pub struct NodePicker {
    pub budget: u32,
    pub state: PickerState,
}

/// Relies on rand's `Rng::gen_range` (with the thread-local generator) for
/// an index drawn uniformly below `len`; it panics on an empty range, which
/// `requires` leaves out.
#[verifier::external_body]
fn random_index(len: usize) -> (r: usize)
    requires
        len > 0,
    ensures
        r < len,
{
    rand::thread_rng().gen_range(0..len)
}

impl NodePicker {
    /// Every attempt counter lies within the budget.
    pub open spec fn wf(&self) -> bool {
        match self.state {
            PickerState::Sampling { attempt } => 1 <= attempt <= self.budget,
            PickerState::Checking { attempt, .. } => 1 <= attempt <= self.budget,
            _ => true,
        }
    }

    pub fn new(budget: u32) -> (r: NodePicker)
        ensures
            r.budget == budget,
            r.state == initial_state(budget),
            r.wf(),
    {
        let state = if budget == 0 {
            PickerState::Exhausted
        } else {
            PickerState::Sampling { attempt: 1 }
        };
        NodePicker { budget, state }
    }

    pub fn action(&self) -> (r: PickerAction)
        ensures
            r == picker_action(self.state),
    {
        match self.state {
            PickerState::Sampling { .. } => PickerAction::Draw,
            PickerState::Checking { candidate, .. } => PickerAction::Check(candidate),
            PickerState::Picked { candidate } => PickerAction::Finish(Some(candidate)),
            PickerState::Exhausted => PickerAction::Finish(None),
        }
    }

    fn after_attempt(&self, attempt: u32) -> (r: PickerState)
        requires
            1 <= attempt <= self.budget,
        ensures
            r == after_attempt(self.budget, attempt),
    {
        if attempt < self.budget {
            PickerState::Sampling { attempt: attempt + 1 }
        } else {
            PickerState::Exhausted
        }
    }

    /// Takes one event.
    pub fn step(&mut self, event: PickerEvent)
        requires
            old(self).wf(),
        ensures
            final(self).budget == old(self).budget,
            final(self).state == picker_next(old(self).budget, old(self).state, event),
            final(self).wf(),
    {
        let next = match (self.state, event) {
            (PickerState::Sampling { attempt }, PickerEvent::Drawn(None)) => self.after_attempt(attempt),
            (PickerState::Sampling { attempt }, PickerEvent::Drawn(Some(c))) => PickerState::Checking {
                attempt,
                candidate: c,
            },
            (PickerState::Checking { candidate, .. }, PickerEvent::Checked(Ok(()))) => PickerState::Picked {
                candidate,
            },
            (PickerState::Checking { attempt, .. }, PickerEvent::Checked(Err(_))) => self.after_attempt(attempt),
            _ => self.state,
        };
        self.state = next;
    }

    /// Draws a candidate from a snapshot of `snapshot_len` nodes, at random,
    /// where the picker is sampling; else leaves it as it is.
    pub fn draw(&mut self, snapshot_len: usize)
        requires
            old(self).wf(),
        ensures
            final(self).budget == old(self).budget,
            final(self).wf(),
            old(self).state is Sampling && snapshot_len == 0 ==> final(self).state == picker_next(
                old(self).budget,
                old(self).state,
                PickerEvent::Drawn(None),
            ),
            old(self).state is Sampling && snapshot_len > 0 ==> {
                &&& final(self).state is Checking
                &&& final(self).state->Checking_candidate < snapshot_len
                &&& final(self).state == picker_next(
                    old(self).budget,
                    old(self).state,
                    PickerEvent::Drawn(Some(final(self).state->Checking_candidate)),
                )
            },
            !(old(self).state is Sampling) ==> final(self).state == old(self).state,
    {
        if let PickerState::Sampling { .. } = self.state {
            if snapshot_len == 0 {
                self.step(PickerEvent::Drawn(None));
            } else {
                let c = random_index(snapshot_len);
                self.step(PickerEvent::Drawn(Some(c)));
            }
        }
    }

    /// Takes the verdict on the candidate being checked.
    pub fn record_verdict(&mut self, verdict: Result<(), InvalidNodeReason>)
        requires
            old(self).wf(),
        ensures
            final(self).budget == old(self).budget,
            final(self).state == picker_next(old(self).budget, old(self).state, PickerEvent::Checked(verdict)),
            final(self).wf(),
    {
        self.step(PickerEvent::Checked(verdict));
    }
}

/// A candidate is chosen only when the one under evaluation is accepted;
/// a rejected candidate is never chosen.
pub proof fn lemma_picked_only_after_pass(budget: u32, s: PickerState, e: PickerEvent, c: usize)
    requires
        picker_next(budget, s, e) == (PickerState::Picked { candidate: c }),
        !(s is Picked),
    ensures
        s is Checking && s->Checking_candidate == c,
        e matches PickerEvent::Checked(Ok(_)),
{
}

/// The first candidate that passes is chosen at once; after that the
/// picker asks for nothing more: no draw and no check, whatever comes.
pub proof fn lemma_first_pass_is_final(budget: u32, attempt: u32, c: usize, e: PickerEvent)
    ensures
        picker_next(budget, PickerState::Checking { attempt, candidate: c }, PickerEvent::Checked(Ok(())))
            == (PickerState::Picked { candidate: c }),
        picker_next(budget, PickerState::Picked { candidate: c }, e) == (PickerState::Picked { candidate: c }),
        picker_action(PickerState::Picked { candidate: c }) == PickerAction::Finish(Some(c)),
{
}

/// One attempt in which the candidate `c` is drawn and turned down.
pub open spec fn rejected_round(budget: u32, s: PickerState, c: usize, reason: InvalidNodeReason) -> PickerState {
    picker_next(budget, picker_next(budget, s, PickerEvent::Drawn(Some(c))), PickerEvent::Checked(Err(reason)))
}

/// The state after a run of rejected attempts.
pub open spec fn after_rejections(
    budget: u32,
    s: PickerState,
    rounds: Seq<(usize, InvalidNodeReason)>,
) -> PickerState
    decreases rounds.len(),
{
    if rounds.len() == 0 {
        s
    } else {
        let last = rounds.last();
        rejected_round(budget, after_rejections(budget, s, rounds.drop_last()), last.0, last.1)
    }
}

/// From the start, fewer than `budget` rejected attempts leave the picker
/// sampling for the next one, and exactly `budget` of them leave it
/// exhausted, with no candidate.
pub proof fn lemma_exhausted_after_budget(budget: u32, rounds: Seq<(usize, InvalidNodeReason)>)
    requires
        rounds.len() <= budget,
    ensures
        rounds.len() < budget ==> after_rejections(budget, initial_state(budget), rounds)
            == (PickerState::Sampling { attempt: (rounds.len() + 1) as u32 }),
        rounds.len() == budget ==> after_rejections(budget, initial_state(budget), rounds)
            == PickerState::Exhausted,
        rounds.len() == budget ==> picker_action(after_rejections(budget, initial_state(budget), rounds))
            == PickerAction::Finish(None),
    decreases rounds.len(),
{
    if rounds.len() > 0 {
        lemma_exhausted_after_budget(budget, rounds.drop_last());
    }
}

} // verus!
