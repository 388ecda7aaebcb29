use pod_scheduler::model::{full_name, is_pod_bound, Container, Node, Pod};
use pod_scheduler::predicates::{can_pod_fit, check_node_validity, does_node_selector_match, InvalidNodeReason};
use pod_scheduler::quantity::QuantityError;

const POD_NAMESPACE: &str = "test";
const POD_NAME: &str = "pod1";
const NODE_NAME: &str = "node1";

fn test_pod(selector_key: Option<(&str, &str)>) -> Pod {
    Pod {
        namespace: Some(POD_NAMESPACE.to_string()),
        name: POD_NAME.to_string(),
        node_name: None,
        containers: vec![],
        node_selector: selector_key.map(|(k, v)| vec![(k.to_string(), v.to_string())]),
    }
}

fn test_node() -> Node {
    Node {
        name: NODE_NAME.to_string(),
        labels: Some(vec![("name".to_string(), NODE_NAME.to_string())]),
        allocatable_cpu: Some("1".to_string()),
        allocatable_memory: Some("1Gi".to_string()),
    }
}

fn requesting(cpu: &str, memory: &str) -> Pod {
    let mut pod = test_pod(None);
    pod.containers = vec![Container {
        name: "main".to_string(),
        cpu_request: Some(cpu.to_string()),
        memory_request: Some(memory.to_string()),
    }];
    pod
}

#[test]
fn test_does_node_selector_match_no_selector() {
    assert_eq!(does_node_selector_match(&test_pod(None), &test_node()), true);
}

#[test]
fn test_does_node_selector_match_false() {
    assert_eq!(does_node_selector_match(&test_pod(Some(("foo", "bar"))), &test_node()), false);
}

#[test]
fn test_does_node_selector_match_true() {
    assert_eq!(does_node_selector_match(&test_pod(Some(("name", NODE_NAME))), &test_node()), true);
}

#[test]
fn empty_selector_matches_node_without_labels() {
    let mut pod = test_pod(None);
    pod.node_selector = Some(vec![]);
    let mut node = test_node();
    node.labels = None;
    assert!(does_node_selector_match(&pod, &node));
    assert!(does_node_selector_match(&test_pod(None), &node));
}

#[test]
fn selector_fails_on_wrong_value_or_missing_labels() {
    assert!(!does_node_selector_match(&test_pod(Some(("name", "node2"))), &test_node()));
    let mut node = test_node();
    node.labels = None;
    assert!(!does_node_selector_match(&test_pod(Some(("name", NODE_NAME))), &node));
}

#[test]
fn selector_needs_every_pair() {
    let mut pod = test_pod(None);
    pod.node_selector = Some(vec![
        ("name".to_string(), NODE_NAME.to_string()),
        ("zone".to_string(), "a".to_string()),
    ]);
    let mut node = test_node();
    assert!(!does_node_selector_match(&pod, &node));
    node.labels = Some(vec![
        ("zone".to_string(), "a".to_string()),
        ("name".to_string(), NODE_NAME.to_string()),
        ("disk".to_string(), "ssd".to_string()),
    ]);
    assert!(does_node_selector_match(&pod, &node));
}

#[test]
fn pod_fits_when_enough_is_left() {
    let pod = requesting("100m", "128Mi");
    assert_eq!(can_pod_fit(&pod, &test_node(), &vec![]), Ok(true));
    assert_eq!(check_node_validity(&pod, &test_node(), &vec![]), Ok(()));
}

#[test]
fn pod_fits_exactly_what_is_left() {
    let pod = requesting("1", "1Gi");
    assert_eq!(can_pod_fit(&pod, &test_node(), &vec![]), Ok(true));
}

#[test]
fn pod_does_not_fit_when_occupied() {
    let pod = requesting("100m", "128Mi");
    let occupant = requesting("950m", "900Mi");
    assert_eq!(can_pod_fit(&pod, &test_node(), &vec![occupant]), Ok(false));
    let occupant = requesting("950m", "900Mi");
    assert_eq!(
        check_node_validity(&pod, &test_node(), &vec![occupant]),
        Err(InvalidNodeReason::NotEnoughResources)
    );
}

#[test]
fn one_short_dimension_is_enough_to_fail() {
    let pod = requesting("100m", "2Gi");
    assert_eq!(
        check_node_validity(&pod, &test_node(), &vec![]),
        Err(InvalidNodeReason::NotEnoughResources)
    );
}

#[test]
fn node_without_capacity_has_nothing() {
    let mut node = test_node();
    node.allocatable_cpu = None;
    node.allocatable_memory = None;
    assert_eq!(can_pod_fit(&requesting("1m", "1"), &node, &vec![]), Ok(false));
    assert_eq!(can_pod_fit(&test_pod(None), &node, &vec![]), Ok(true));
}

#[test]
fn selector_is_checked_after_resources() {
    let mut pod = requesting("100m", "128Mi");
    pod.node_selector = Some(vec![("foo".to_string(), "bar".to_string())]);
    assert_eq!(
        check_node_validity(&pod, &test_node(), &vec![]),
        Err(InvalidNodeReason::NodeSelectorMismatch)
    );
}

#[test]
fn unreadable_capacity_is_reported() {
    let mut node = test_node();
    node.allocatable_cpu = Some("lots".to_string());
    assert_eq!(
        check_node_validity(&test_pod(None), &node, &vec![]),
        Err(InvalidNodeReason::InvalidQuantity(QuantityError::Malformed))
    );
}

#[test]
fn names_and_binding_state() {
    let pod = test_pod(None);
    assert_eq!(full_name(&pod.namespace, &pod.name), "test/pod1");
    assert_eq!(pod.full_name(), "test/pod1");
    assert_eq!(full_name(&None, &"node1".to_string()), "node1");
    assert!(!is_pod_bound(&pod));
    let mut bound = test_pod(None);
    bound.node_name = Some("node1".to_string());
    assert!(is_pod_bound(&bound));
}
