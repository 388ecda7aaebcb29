//! The two admission checks a candidate node must pass: resource fit and
//! selector match.
use vstd::prelude::*;

use crate::model::{Node, Pod};
use crate::quantity::QuantityError;
use crate::resources::{available_resources, node_available, pod_footprint, total_pod_resources};

verus! {

/// Why a candidate node was turned down.
#[derive(Debug, Clone, Copy, PartialEq, Eq, Structural)]
pub enum InvalidNodeReason {
    NotEnoughResources,
    NodeSelectorMismatch,
    /// A request or a capacity could not be read as a quantity.
    InvalidQuantity(QuantityError),
    /// The pods on the node could not be listed, so it is not taken.
    OccupancyUnavailable,
}

/// Whether the pod fits in what the node has left, or why that cannot be
/// told: the node's capacity, then the occupants, then the pod are read.
pub open spec fn fit_result(pod: Pod, node: Node, occupants: Seq<Pod>) -> Result<bool, QuantityError> {
    match node_available(node, occupants) {
        Err(e) => Err(e),
        Ok(avail) => match pod_footprint(pod) {
            Err(e) => Err(e),
            Ok(need) => Ok(need.0 <= avail.0 && need.1 <= avail.1),
        },
    }
}

/// Whether the labels hold the pair `(key, value)`.
pub open spec fn has_label(labels: Seq<(String, String)>, key: Seq<char>, value: Seq<char>) -> bool {
    exists|j: int| 0 <= j < labels.len() && (#[trigger] labels[j]).0@ == key && labels[j].1@ == value
}

/// Whether a node with these labels carries the pair.
pub open spec fn node_has_pair(labels: Option<Vec<(String, String)>>, pair: (String, String)) -> bool {
    match labels {
        None => false,
        Some(l) => has_label(l@, pair.0@, pair.1@),
    }
}

/// Whether every pair of the pod's selector stands among the node's labels;
/// a pod without a selector, or with an empty one, matches every node.
pub open spec fn selector_matches(pod: Pod, node: Node) -> bool {
    match pod.node_selector {
        None => true,
        Some(sel) => forall|i: int| 0 <= i < sel@.len() ==> node_has_pair(node.labels, #[trigger] sel@[i]),
    }
}

/// The verdict on a candidate: resources first, then the selector.
pub open spec fn node_verdict(pod: Pod, node: Node, occupants: Seq<Pod>) -> Result<(), InvalidNodeReason> {
    match fit_result(pod, node, occupants) {
        Err(e) => Err(InvalidNodeReason::InvalidQuantity(e)),
        Ok(false) => Err(InvalidNodeReason::NotEnoughResources),
        Ok(true) => if selector_matches(pod, node) {
            Ok(())
        } else {
            Err(InvalidNodeReason::NodeSelectorMismatch)
        },
    }
}

/// A node whose remaining amounts exceed the pod's footprint in cpu and in
/// memory passes the resource check; one short in either fails it with
/// `NotEnoughResources`.
pub proof fn lemma_resource_fit_verdict(pod: Pod, node: Node, occupants: Seq<Pod>, avail: (int, int), need: (int, int))
    requires
        node_available(node, occupants) == Ok::<(int, int), QuantityError>(avail),
        pod_footprint(pod) == Ok::<(int, int), QuantityError>(need),
    ensures
        need.0 < avail.0 && need.1 < avail.1 ==> fit_result(pod, node, occupants) == Ok::<bool, QuantityError>(true)
            && node_verdict(pod, node, occupants) != Err::<(), InvalidNodeReason>(InvalidNodeReason::NotEnoughResources),
        need.0 > avail.0 || need.1 > avail.1 ==> node_verdict(pod, node, occupants) == Err::<(), InvalidNodeReason>(
            InvalidNodeReason::NotEnoughResources,
        ),
{
}

/// A pod with no selector, or an empty one, matches every node.
pub proof fn lemma_empty_selector_matches(pod: Pod, node: Node)
    requires
        pod.node_selector is None || pod.node_selector.unwrap()@.len() == 0,
    ensures
        selector_matches(pod, node),
{
}

/// A non-empty selector matches exactly when the node carries each of its
/// pairs, key and value alike; one key missing or one value differing
/// fails the match.
pub proof fn lemma_selector_pairs(pod: Pod, node: Node)
    requires
        pod.node_selector is Some,
        pod.node_selector.unwrap()@.len() > 0,
    ensures
        selector_matches(pod, node) <==> node.labels is Some && forall|i: int|
            0 <= i < pod.node_selector.unwrap()@.len() ==> has_label(
                node.labels.unwrap()@,
                (#[trigger] pod.node_selector.unwrap()@[i]).0@,
                pod.node_selector.unwrap()@[i].1@,
            ),
        forall|i: int|
            0 <= i < pod.node_selector.unwrap()@.len() && !node_has_pair(node.labels, #[trigger] pod.node_selector.unwrap()@[i])
                ==> !selector_matches(pod, node),
{
    let sel = pod.node_selector.unwrap()@;
    if node.labels is None {
        assert(!node_has_pair(node.labels, sel[0]));
    }
}

/// Whether the pod's footprint is at most, in cpu and in memory, what the
/// node has left once `occupants` (the pods already on it) are counted.
pub fn can_pod_fit(pod: &Pod, node: &Node, occupants: &Vec<Pod>) -> (r: Result<bool, QuantityError>)
    ensures
        r == fit_result(*pod, *node, occupants@),
{
    let avail = match available_resources(node, occupants) {
        Ok(a) => a,
        Err(e) => {
            return Err(e);
        },
    };
    let need = match total_pod_resources(pod) {
        Ok(n) => n,
        Err(e) => {
            return Err(e);
        },
    };
    Ok(need.fits_within(&avail))
}

fn label_present(labels: &Vec<(String, String)>, key: &String, value: &String) -> (r: bool)
    ensures
        r == has_label(labels@, key@, value@),
{
    let mut j: usize = 0;
    while j < labels.len()
        invariant
            j <= labels@.len(),
            forall|k: int| 0 <= k < j ==> !((#[trigger] labels@[k]).0@ == key@ && labels@[k].1@ == value@),
        decreases labels@.len() - j,
    {
        if labels[j].0 == *key && labels[j].1 == *value {
            assert(labels@[j as int].0@ == key@ && labels@[j as int].1@ == value@);
            return true;
        }
        j = j + 1;
    }
    false
}

/// Whether the node carries every label pair that the pod selects on.
pub fn does_node_selector_match(pod: &Pod, node: &Node) -> (r: bool)
    ensures
        r == selector_matches(*pod, *node),
{
    match &pod.node_selector {
        None => true,
        Some(sel) => {
            let mut i: usize = 0;
            while i < sel.len()
                invariant
                    pod.node_selector == Some(*sel),
                    i <= sel@.len(),
                    forall|k: int| 0 <= k < i ==> node_has_pair(node.labels, #[trigger] sel@[k]),
                decreases sel@.len() - i,
            {
                let ok = match &node.labels {
                    None => false,
                    Some(labels) => label_present(labels, &sel[i].0, &sel[i].1),
                };
                assert(ok == node_has_pair(node.labels, sel@[i as int]));
                if !ok {
                    assert(pod.node_selector.unwrap()@[i as int] == sel@[i as int]);
                    assert(!node_has_pair(node.labels, pod.node_selector.unwrap()@[i as int]));
                    return false;
                }
                i = i + 1;
            }
            true
        },
    }
}

/// Both admission checks: `NotEnoughResources` where the pod does not fit,
/// else `NodeSelectorMismatch` where the selector fails.
pub fn check_node_validity(pod: &Pod, node: &Node, occupants: &Vec<Pod>) -> (r: Result<(), InvalidNodeReason>)
    ensures
        r == node_verdict(*pod, *node, occupants@),
{
    match can_pod_fit(pod, node, occupants) {
        Err(e) => Err(InvalidNodeReason::InvalidQuantity(e)),
        Ok(false) => Err(InvalidNodeReason::NotEnoughResources),
        Ok(true) => if does_node_selector_match(pod, node) {
            Ok(())
        } else {
            Err(InvalidNodeReason::NodeSelectorMismatch)
        },
    }
}

} // verus!
