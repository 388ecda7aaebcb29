//! One scheduling attempt for one pod, as a state machine around the node
//! picker and the binding submission, and the retry policy for failures.
use vstd::prelude::*;

use crate::model::{Node, Pod};
use crate::picker::{NodePicker, PickerAction, PickerState, initial_state, picker_action, picker_next, PickerEvent};
use crate::predicates::{InvalidNodeReason, check_node_validity, node_verdict};

verus! {

/// Why a reconciliation attempt failed.
#[derive(Debug, Clone, Copy, PartialEq, Eq, Structural)]
pub enum ReconcileError {
    /// The binding was well formed but its submission failed.
    CreateBindingFailed,
    /// The binding could not be built or encoded.
    CreateBindingObjectFailed,
    /// Every attempt was spent without a node passing the checks.
    NoNodeFound,
}

impl ReconcileError {
    /// The kind of failure, as a short name.
    pub fn name(&self) -> (r: &'static str)
        ensures
            *self == ReconcileError::CreateBindingFailed ==> r@ == "create-binding-failed"@,
            *self == ReconcileError::CreateBindingObjectFailed ==> r@ == "create-binding-object-failed"@,
            *self == ReconcileError::NoNodeFound ==> r@ == "no-node-found"@,
    {
        match self {
            ReconcileError::CreateBindingFailed => "create-binding-failed",
            ReconcileError::CreateBindingObjectFailed => "create-binding-object-failed",
            ReconcileError::NoNodeFound => "no-node-found",
        }
    }
}

/// What the driver does next with the pod.
#[derive(Debug, Clone, Copy, PartialEq, Eq, Structural)]
pub enum Action {
    /// Nothing until the pod changes again.
    AwaitChange,
    /// Try again after this many seconds.
    Requeue { after_secs: u64 },
}

/// Delay before a failed pod is tried again: five minutes.
pub const REQUEUE_AFTER_SECS: u64 = 300;

/// Every failure, whatever its kind, is retried after the same delay.
pub fn error_policy(error: &ReconcileError) -> (r: Action)
    ensures
        r == (Action::Requeue { after_secs: REQUEUE_AFTER_SECS }),
{
    Action::Requeue { after_secs: REQUEUE_AFTER_SECS }
}

/// The record that assigns a pod to a node.
pub struct Binding {
    pub namespace: String,
    pub pod_name: String,
    pub node_name: String,
}

/// How submitting a binding went.
#[derive(Debug, Clone, Copy, PartialEq, Eq, Structural)]
pub enum SubmitOutcome {
    Accepted,
    /// The request could not be built or encoded.
    EncodeFailed,
    /// The request was sent and failed (network, conflict, authorization).
    TransportFailed,
}

/// A binding needs a namespace, a pod name and a node name, none empty.
pub open spec fn identity_ok(pod: Pod, node: Node) -> bool {
    &&& pod.namespace is Some
    &&& pod.namespace.unwrap()@.len() > 0
    &&& pod.name@.len() > 0
    &&& node.name@.len() > 0
}

/// Whether `b` assigns `pod` to `node`.
pub open spec fn binds(b: Binding, pod: Pod, node: Node) -> bool {
    &&& b.namespace@ == pod.namespace.unwrap()@
    &&& b.pod_name@ == pod.name@
    &&& b.node_name@ == node.name@
}

/// Builds the binding of `pod` to `node`.
pub fn make_binding(pod: &Pod, node: &Node) -> (r: Result<Binding, ReconcileError>)
    ensures
        r is Ok <==> identity_ok(*pod, *node),
        r matches Ok(b) ==> binds(b, *pod, *node),
        r matches Err(e) ==> e == ReconcileError::CreateBindingObjectFailed,
{
    match &pod.namespace {
        None => Err(ReconcileError::CreateBindingObjectFailed),
        Some(ns) => {
            if ns.as_str().unicode_len() == 0 || pod.name.as_str().unicode_len() == 0
                || node.name.as_str().unicode_len() == 0 {
                Err(ReconcileError::CreateBindingObjectFailed)
            } else {
                Ok(Binding { namespace: ns.clone(), pod_name: pod.name.clone(), node_name: node.name.clone() })
            }
        },
    }
}

/// What an attempt ends with once its binding was submitted.
pub open spec fn submission_result(o: SubmitOutcome) -> Result<Action, ReconcileError> {
    match o {
        SubmitOutcome::Accepted => Ok(Action::AwaitChange),
        SubmitOutcome::EncodeFailed => Err(ReconcileError::CreateBindingObjectFailed),
        SubmitOutcome::TransportFailed => Err(ReconcileError::CreateBindingFailed),
    }
}

pub fn classify_submission(o: SubmitOutcome) -> (r: Result<Action, ReconcileError>)
    ensures
        r == submission_result(o),
{
    match o {
        SubmitOutcome::Accepted => Ok(Action::AwaitChange),
        SubmitOutcome::EncodeFailed => Err(ReconcileError::CreateBindingObjectFailed),
        SubmitOutcome::TransportFailed => Err(ReconcileError::CreateBindingFailed),
    }
}

/// The verdict on a candidate, given the listing of the pods on it (`None`
/// where that listing failed).
pub open spec fn candidate_verdict(pod: Pod, node: Node, occupants: Option<Seq<Pod>>) -> Result<
    (),
    InvalidNodeReason,
> {
    match occupants {
        None => Err(InvalidNodeReason::OccupancyUnavailable),
        Some(o) => node_verdict(pod, node, o),
    }
}

/// What the driver is asked to do next.
#[derive(Debug, Clone, Copy, PartialEq, Eq)]
pub enum ReconcileStep {
    /// Hand over the length of the current node snapshot.
    Draw,
    /// List the pods on the node at this index of that snapshot and hand
    /// the node and the listing over.
    Check(usize),
    /// Submit `binding` and hand the outcome over.
    Submit,
    /// The attempt is over.
    Done(Result<Action, ReconcileError>),
}

/// One reconciliation attempt for one pod.
pub struct Reconciler {
    pub pod: Pod,
    pub picker: NodePicker,
    /// The binding awaiting submission, once a node is chosen.
    pub binding: Option<Binding>,
    /// How the attempt ended, once it has.
    pub outcome: Option<Result<Action, ReconcileError>>,
}

/// True while the attempt is still choosing a node.
pub open spec fn picking(r: Reconciler) -> bool {
    r.outcome is None && r.binding is None
}

pub open spec fn step_of(r: Reconciler) -> ReconcileStep {
    match r.outcome {
        Some(o) => ReconcileStep::Done(o),
        None => match r.binding {
            Some(_) => ReconcileStep::Submit,
            None => match picker_action(r.picker.state) {
                PickerAction::Check(i) => ReconcileStep::Check(i),
                _ => ReconcileStep::Draw,
            },
        },
    }
}

impl Reconciler {
    /// While a node is being chosen the picker has not finished.
    pub open spec fn wf(&self) -> bool {
        &&& self.picker.wf()
        &&& picking(*self) ==> (self.picker.state is Sampling || self.picker.state is Checking)
    }

    /// Starts an attempt: a pod that is already bound is left alone.
    pub fn start(pod: Pod, budget: u32) -> (r: Reconciler)
        ensures
            r.wf(),
            r.pod == pod,
            pod.node_name is Some ==> step_of(r) == ReconcileStep::Done(Ok(Action::AwaitChange)),
            pod.node_name is None && budget == 0 ==> r.outcome == Some(
                Err::<Action, ReconcileError>(ReconcileError::NoNodeFound),
            ),
            pod.node_name is None && budget > 0 ==> picking(r) && r.picker.budget == budget
                && r.picker.state == initial_state(budget),
    {
        let picker = NodePicker::new(budget);
        if pod.node_name.is_some() {
            Reconciler { pod, picker, binding: None, outcome: Some(Ok(Action::AwaitChange)) }
        } else if budget == 0 {
            Reconciler { pod, picker, binding: None, outcome: Some(Err(ReconcileError::NoNodeFound)) }
        } else {
            Reconciler { pod, picker, binding: None, outcome: None }
        }
    }

    pub fn next_step(&self) -> (r: ReconcileStep)
        ensures
            r == step_of(*self),
    {
        match self.outcome {
            Some(o) => ReconcileStep::Done(o),
            None => match &self.binding {
                Some(_) => ReconcileStep::Submit,
                None => match self.picker.action() {
                    PickerAction::Check(i) => ReconcileStep::Check(i),
                    _ => ReconcileStep::Draw,
                },
            },
        }
    }

    /// Ends the attempt with `NoNodeFound` once the picker is exhausted.
    fn settle_exhausted(&mut self)
        requires
            old(self).picker.wf(),
            old(self).binding is None,
            old(self).outcome is None,
            !(old(self).picker.state is Picked),
        ensures
            final(self).pod == old(self).pod,
            final(self).picker == old(self).picker,
            final(self).binding is None,
            final(self).wf(),
            old(self).picker.state is Exhausted ==> final(self).outcome == Some(
                Err::<Action, ReconcileError>(ReconcileError::NoNodeFound),
            ),
            !(old(self).picker.state is Exhausted) ==> final(self).outcome is None,
    {
        if let PickerState::Exhausted = self.picker.state {
            self.outcome = Some(Err(ReconcileError::NoNodeFound));
        }
    }

    /// Takes the length of the current node snapshot and draws a candidate
    /// from it; an empty snapshot spends the attempt.
    pub fn on_snapshot(&mut self, snapshot_len: usize)
        requires
            old(self).wf(),
        ensures
            final(self).wf(),
            final(self).pod == old(self).pod,
            !(picking(*old(self)) && old(self).picker.state is Sampling) ==> *final(self) == *old(self),
            picking(*old(self)) && old(self).picker.state is Sampling && snapshot_len == 0 ==> {
                &&& final(self).picker.state == picker_next(
                    old(self).picker.budget,
                    old(self).picker.state,
                    PickerEvent::Drawn(None),
                )
                &&& final(self).binding is None
                &&& (final(self).picker.state is Exhausted ==> final(self).outcome == Some(
                    Err::<Action, ReconcileError>(ReconcileError::NoNodeFound),
                ))
                &&& (!(final(self).picker.state is Exhausted) ==> final(self).outcome is None)
            },
            picking(*old(self)) && old(self).picker.state is Sampling && snapshot_len > 0 ==> {
                &&& picking(*final(self))
                &&& final(self).picker.state is Checking
                &&& final(self).picker.state->Checking_candidate < snapshot_len
            },
    {
        if self.outcome.is_none() && self.binding.is_none() {
            if let PickerState::Sampling { .. } = self.picker.state {
                self.picker.draw(snapshot_len);
                self.settle_exhausted();
            }
        }
    }

    /// Takes the candidate named by `Check` and the pods on it (`None` where
    /// they could not be listed), judges it, and where it passes builds the
    /// binding.
    pub fn on_occupancy(&mut self, node: &Node, occupants: Option<&Vec<Pod>>)
        requires
            old(self).wf(),
        ensures
            final(self).wf(),
            final(self).pod == old(self).pod,
            !(picking(*old(self)) && old(self).picker.state is Checking) ==> *final(self) == *old(self),
            picking(*old(self)) && old(self).picker.state is Checking ==> ({
                let v = candidate_verdict(
                    old(self).pod,
                    *node,
                    match occupants {
                        Some(o) => Some(o@),
                        None => None,
                    },
                );
                &&& final(self).picker.state == picker_next(
                    old(self).picker.budget,
                    old(self).picker.state,
                    PickerEvent::Checked(v),
                )
                &&& (v is Ok && identity_ok(old(self).pod, *node)) ==> (final(self).outcome is None
                    && (final(self).binding matches Some(b) && binds(b, old(self).pod, *node)))
                &&& (v is Ok && !identity_ok(old(self).pod, *node)) ==> final(self).outcome == Some(
                    Err::<Action, ReconcileError>(ReconcileError::CreateBindingObjectFailed),
                )
                &&& v is Err ==> final(self).binding is None
                &&& (v is Err && final(self).picker.state is Exhausted) ==> final(self).outcome == Some(
                    Err::<Action, ReconcileError>(ReconcileError::NoNodeFound),
                )
                &&& (v is Err && !(final(self).picker.state is Exhausted)) ==> final(self).outcome is None
            }),
    {
        if self.outcome.is_none() && self.binding.is_none() {
            if let PickerState::Checking { .. } = self.picker.state {
                let verdict = match occupants {
                    None => Err(InvalidNodeReason::OccupancyUnavailable),
                    Some(o) => check_node_validity(&self.pod, node, o),
                };
                let passed = verdict.is_ok();
                self.picker.record_verdict(verdict);
                if passed {
                    match make_binding(&self.pod, node) {
                        Ok(b) => {
                            self.binding = Some(b);
                        },
                        Err(e) => {
                            self.outcome = Some(Err(e));
                        },
                    }
                } else {
                    self.settle_exhausted();
                }
            }
        }
    }

    /// Takes the outcome of submitting the binding and ends the attempt.
    pub fn on_submitted(&mut self, o: SubmitOutcome)
        requires
            old(self).wf(),
        ensures
            final(self).wf(),
            final(self).pod == old(self).pod,
            final(self).picker == old(self).picker,
            old(self).outcome is None && old(self).binding is Some ==> final(self).outcome == Some(
                submission_result(o),
            ),
            !(old(self).outcome is None && old(self).binding is Some) ==> *final(self) == *old(self),
    {
        if self.outcome.is_none() && self.binding.is_some() {
            self.outcome = Some(classify_submission(o));
        }
    }
}

} // verus!
