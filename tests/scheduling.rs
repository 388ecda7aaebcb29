use pod_scheduler::model::{Container, Node, Pod};
use pod_scheduler::picker::{NodePicker, PickerAction, PickerEvent, PickerState, DEFAULT_ATTEMPTS};
use pod_scheduler::predicates::InvalidNodeReason;
use pod_scheduler::reconciler::{
    classify_submission, error_policy, make_binding, Action, ReconcileError, ReconcileStep, Reconciler,
    SubmitOutcome, REQUEUE_AFTER_SECS,
};

fn pod(cpu: &str, memory: &str) -> Pod {
    Pod {
        namespace: Some("default".to_string()),
        name: "web".to_string(),
        node_name: None,
        containers: vec![Container {
            name: "main".to_string(),
            cpu_request: Some(cpu.to_string()),
            memory_request: Some(memory.to_string()),
        }],
        node_selector: None,
    }
}

fn node() -> Node {
    Node {
        name: "node1".to_string(),
        labels: Some(vec![]),
        allocatable_cpu: Some("1".to_string()),
        allocatable_memory: Some("1Gi".to_string()),
    }
}

/// Runs an attempt against a snapshot holding `node()` alone, where the pods
/// on it are `occupants` and submission ends with `submit`. Returns the
/// result, how many times the pods on a node were listed and how many
/// bindings were submitted.
fn run(p: Pod, occupants: Vec<Pod>, submit: SubmitOutcome) -> (Result<Action, ReconcileError>, usize, usize) {
    let snapshot = vec![node()];
    let mut r = Reconciler::start(p, DEFAULT_ATTEMPTS);
    let mut queries = 0;
    let mut submissions = 0;
    loop {
        match r.next_step() {
            ReconcileStep::Draw => r.on_snapshot(snapshot.len()),
            ReconcileStep::Check(i) => {
                queries += 1;
                r.on_occupancy(&snapshot[i], Some(&occupants));
            },
            ReconcileStep::Submit => {
                submissions += 1;
                let b = r.binding.as_ref().unwrap();
                assert_eq!(b.node_name, "node1");
                assert_eq!(b.pod_name, "web");
                assert_eq!(b.namespace, "default");
                r.on_submitted(submit);
            },
            ReconcileStep::Done(o) => return (o, queries, submissions),
        }
    }
}

#[test]
fn scenario_pod_fits_on_empty_node() {
    let (o, queries, submissions) = run(pod("100m", "128Mi"), vec![], SubmitOutcome::Accepted);
    assert_eq!(o, Ok(Action::AwaitChange));
    assert_eq!(queries, 1);
    assert_eq!(submissions, 1);
}

#[test]
fn scenario_full_node_gives_no_node_found() {
    let (o, queries, submissions) =
        run(pod("100m", "128Mi"), vec![pod("950m", "900Mi")], SubmitOutcome::Accepted);
    assert_eq!(o, Err(ReconcileError::NoNodeFound));
    assert_eq!(queries, DEFAULT_ATTEMPTS as usize);
    assert_eq!(submissions, 0);
    assert_eq!(error_policy(&o.unwrap_err()), Action::Requeue { after_secs: 300 });
}

#[test]
fn scenario_transport_error_gives_create_binding_failed() {
    let p = pod("100m", "128Mi");
    let (o, _, submissions) = run(p, vec![], SubmitOutcome::TransportFailed);
    assert_eq!(o, Err(ReconcileError::CreateBindingFailed));
    assert_eq!(submissions, 1);
    assert_eq!(error_policy(&ReconcileError::CreateBindingFailed), Action::Requeue { after_secs: REQUEUE_AFTER_SECS });
}

#[test]
fn encode_error_gives_create_binding_object_failed() {
    let (o, _, _) = run(pod("100m", "128Mi"), vec![], SubmitOutcome::EncodeFailed);
    assert_eq!(o, Err(ReconcileError::CreateBindingObjectFailed));
}

#[test]
fn bound_pod_is_left_alone() {
    let mut p = pod("100m", "128Mi");
    p.node_name = Some("elsewhere".to_string());
    let (o, queries, submissions) = run(p, vec![], SubmitOutcome::TransportFailed);
    assert_eq!(o, Ok(Action::AwaitChange));
    assert_eq!(queries, 0);
    assert_eq!(submissions, 0);
}

#[test]
fn empty_snapshot_spends_attempts() {
    let mut r = Reconciler::start(pod("100m", "128Mi"), 3);
    for _ in 0..3 {
        assert_eq!(r.next_step(), ReconcileStep::Draw);
        r.on_snapshot(0);
    }
    assert_eq!(r.next_step(), ReconcileStep::Done(Err(ReconcileError::NoNodeFound)));
}

#[test]
fn failed_listing_rejects_candidate() {
    let mut r = Reconciler::start(pod("100m", "128Mi"), 1);
    r.on_snapshot(1);
    assert_eq!(r.next_step(), ReconcileStep::Check(0));
    r.on_occupancy(&node(), None);
    assert_eq!(r.next_step(), ReconcileStep::Done(Err(ReconcileError::NoNodeFound)));
}

#[test]
fn zero_budget_finds_nothing() {
    let r = Reconciler::start(pod("100m", "128Mi"), 0);
    assert_eq!(r.next_step(), ReconcileStep::Done(Err(ReconcileError::NoNodeFound)));
}

#[test]
fn pod_without_namespace_cannot_be_bound() {
    let mut p = pod("100m", "128Mi");
    p.namespace = None;
    assert!(matches!(make_binding(&p, &node()), Err(ReconcileError::CreateBindingObjectFailed)));
    let mut r = Reconciler::start(p, 2);
    r.on_snapshot(1);
    r.on_occupancy(&node(), Some(&vec![]));
    assert_eq!(r.next_step(), ReconcileStep::Done(Err(ReconcileError::CreateBindingObjectFailed)));
    let mut unnamed = node();
    unnamed.name = String::new();
    assert!(make_binding(&pod("1", "1"), &unnamed).is_err());
    assert!(make_binding(&pod("1", "1"), &node()).is_ok());
}

#[test]
fn submission_outcomes_map_to_errors() {
    assert_eq!(classify_submission(SubmitOutcome::Accepted), Ok(Action::AwaitChange));
    assert_eq!(classify_submission(SubmitOutcome::EncodeFailed), Err(ReconcileError::CreateBindingObjectFailed));
    assert_eq!(classify_submission(SubmitOutcome::TransportFailed), Err(ReconcileError::CreateBindingFailed));
    assert_eq!(ReconcileError::NoNodeFound.name(), "no-node-found");
    assert_eq!(error_policy(&ReconcileError::NoNodeFound), Action::Requeue { after_secs: 300 });
}

#[test]
fn picker_exhausts_after_budget_rejections() {
    let mut p = NodePicker::new(5);
    let mut checks = 0;
    while p.action() == PickerAction::Draw {
        p.step(PickerEvent::Drawn(Some(2)));
        assert_eq!(p.action(), PickerAction::Check(2));
        checks += 1;
        p.record_verdict(Err(InvalidNodeReason::NotEnoughResources));
    }
    assert_eq!(checks, 5);
    assert_eq!(p.state, PickerState::Exhausted);
    assert_eq!(p.action(), PickerAction::Finish(None));
}

#[test]
fn picker_stops_at_first_pass() {
    let mut p = NodePicker::new(5);
    p.step(PickerEvent::Drawn(Some(0)));
    p.record_verdict(Err(InvalidNodeReason::NodeSelectorMismatch));
    assert_eq!(p.state, PickerState::Sampling { attempt: 2 });
    p.step(PickerEvent::Drawn(Some(1)));
    p.record_verdict(Ok(()));
    assert_eq!(p.action(), PickerAction::Finish(Some(1)));
    p.step(PickerEvent::Drawn(Some(3)));
    p.record_verdict(Err(InvalidNodeReason::NotEnoughResources));
    assert_eq!(p.state, PickerState::Picked { candidate: 1 });
}

#[test]
fn picker_draws_within_snapshot() {
    for _ in 0..50 {
        let mut p = NodePicker::new(1);
        p.draw(3);
        match p.state {
            PickerState::Checking { attempt, candidate } => {
                assert_eq!(attempt, 1);
                assert!(candidate < 3);
            },
            other => panic!("unexpected state {:?}", other),
        }
    }
    let mut p = NodePicker::new(2);
    p.draw(0);
    assert_eq!(p.state, PickerState::Sampling { attempt: 2 });
}
