//! Pods and nodes as the scheduler reads them.
use vstd::prelude::*;
use vstd::string::*;

verus! {

pub open spec fn opt_chars(o: Option<String>) -> Option<Seq<char>> {
    match o {
        Some(s) => Some(s@),
        None => None,
    }
}

/// A container of a pod, with the resources it asks for (`None` where it
/// declares no request).
pub struct Container {
    pub name: String,
    pub cpu_request: Option<String>,
    pub memory_request: Option<String>,
}

/// A unit of work to place on a node.
pub struct Pod {
    pub namespace: Option<String>,
    pub name: String,
    /// The node the pod is assigned to, once it is.
    pub node_name: Option<String>,
    pub containers: Vec<Container>,
    /// Label pairs that a node must carry to take the pod.
    pub node_selector: Option<Vec<(String, String)>>,
}

/// A compute node: its labels (distinct keys) and what it offers for
/// scheduling (`None` counts as nothing).
pub struct Node {
    pub name: String,
    pub labels: Option<Vec<(String, String)>>,
    pub allocatable_cpu: Option<String>,
    pub allocatable_memory: Option<String>,
}

/// Whether the pod already names the node it runs on.
pub fn is_pod_bound(pod: &Pod) -> (r: bool)
    ensures
        r == pod.node_name.is_some(),
{
    pod.node_name.is_some()
}

pub open spec fn full_name_of(namespace: Option<Seq<char>>, name: Seq<char>) -> Seq<char> {
    match namespace {
        Some(ns) => ns + seq!['/'] + name,
        None => name,
    }
}

/// `namespace/name`, or the bare name for an object without a namespace.
pub fn full_name(namespace: &Option<String>, name: &String) -> (r: String)
    ensures
        r@ == full_name_of(opt_chars(*namespace), name@),
{
    match namespace {
        Some(ns) => {
            let mut out = ns.clone();
            proof {
                reveal_strlit("/");
            }
            out.append("/");
            out.append(name.as_str());
            assert(out@ =~= ns@ + seq!['/'] + name@);
            out
        },
        None => name.clone(),
    }
}

impl Pod {
    pub fn full_name(&self) -> (r: String)
        ensures
            r@ == full_name_of(opt_chars(self.namespace), self.name@),
    {
        full_name(&self.namespace, &self.name)
    }
}

} // verus!
