//! What pods ask for and what nodes have left, summed exactly.
use vstd::prelude::*;

use crate::model::{Container, Node, Pod, opt_chars};
use crate::quantity::{Quantity, QuantityError, in_range, parse_result};

verus! {

/// A `{cpu, memory}` pair of amounts.
pub struct PodResources {
    pub cpu: Quantity,
    pub memory: Quantity,
}

impl View for PodResources {
    type V = (int, int);

    open spec fn view(&self) -> (int, int) {
        (self.cpu@, self.memory@)
    }
}

/// The amount that an optional quantity stands for: nothing counts as zero.
pub open spec fn amount_of(q: Option<Seq<char>>) -> Result<int, QuantityError> {
    match q {
        None => Ok(0),
        Some(s) => parse_result(s),
    }
}

/// Reads an optional pair of quantities, cpu first.
pub open spec fn pair_of(cpu: Option<Seq<char>>, memory: Option<Seq<char>>) -> Result<
    (int, int),
    QuantityError,
> {
    match amount_of(cpu) {
        Err(e) => Err(e),
        Ok(c) => match amount_of(memory) {
            Err(e) => Err(e),
            Ok(m) => Ok((c, m)),
        },
    }
}

pub open spec fn container_requests(c: Container) -> Result<(int, int), QuantityError> {
    pair_of(opt_chars(c.cpu_request), opt_chars(c.memory_request))
}

/// The requests of the containers summed in order; `OutOfRange` where a
/// running total leaves the range of `i128`.
pub open spec fn requests_total(cs: Seq<Container>) -> Result<(int, int), QuantityError>
    decreases cs.len(),
{
    if cs.len() == 0 {
        Ok((0, 0))
    } else {
        match requests_total(cs.drop_last()) {
            Err(e) => Err(e),
            Ok(t) => match container_requests(cs.last()) {
                Err(e) => Err(e),
                Ok(d) => if in_range(t.0 + d.0) && in_range(t.1 + d.1) {
                    Ok((t.0 + d.0, t.1 + d.1))
                } else {
                    Err(QuantityError::OutOfRange)
                },
            },
        }
    }
}

/// What a pod asks for in all: the sum over its containers.
pub open spec fn pod_footprint(p: Pod) -> Result<(int, int), QuantityError> {
    requests_total(p.containers@)
}

/// What a node offers for scheduling.
pub open spec fn node_allocatable(n: Node) -> Result<(int, int), QuantityError> {
    pair_of(opt_chars(n.allocatable_cpu), opt_chars(n.allocatable_memory))
}

/// `start` less the footprint of each pod in turn (capacity minus what is
/// consumed); `OutOfRange` where a running value leaves the range of `i128`.
pub open spec fn remaining_after(start: (int, int), pods: Seq<Pod>) -> Result<(int, int), QuantityError>
    decreases pods.len(),
{
    if pods.len() == 0 {
        Ok(start)
    } else {
        match remaining_after(start, pods.drop_last()) {
            Err(e) => Err(e),
            Ok(t) => match pod_footprint(pods.last()) {
                Err(e) => Err(e),
                Ok(d) => if in_range(t.0 - d.0) && in_range(t.1 - d.1) {
                    Ok((t.0 - d.0, t.1 - d.1))
                } else {
                    Err(QuantityError::OutOfRange)
                },
            },
        }
    }
}

/// What a node has left once the pods on it are counted.
pub open spec fn node_available(n: Node, occupants: Seq<Pod>) -> Result<(int, int), QuantityError> {
    match node_allocatable(n) {
        Err(e) => Err(e),
        Ok(a) => remaining_after(a, occupants),
    }
}

proof fn lemma_total_err_extends(cs: Seq<Container>, k: int, e: QuantityError)
    requires
        0 <= k <= cs.len(),
        requests_total(cs.subrange(0, k)) == Err::<(int, int), QuantityError>(e),
    ensures
        requests_total(cs) == Err::<(int, int), QuantityError>(e),
    decreases cs.len(),
{
    if k < cs.len() {
        assert(cs.drop_last().subrange(0, k) =~= cs.subrange(0, k));
        lemma_total_err_extends(cs.drop_last(), k, e);
    } else {
        assert(cs.subrange(0, k) =~= cs);
    }
}

proof fn lemma_remaining_err_extends(start: (int, int), pods: Seq<Pod>, k: int, e: QuantityError)
    requires
        0 <= k <= pods.len(),
        remaining_after(start, pods.subrange(0, k)) == Err::<(int, int), QuantityError>(e),
    ensures
        remaining_after(start, pods) == Err::<(int, int), QuantityError>(e),
    decreases pods.len(),
{
    if k < pods.len() {
        assert(pods.drop_last().subrange(0, k) =~= pods.subrange(0, k));
        lemma_remaining_err_extends(start, pods.drop_last(), k, e);
    } else {
        assert(pods.subrange(0, k) =~= pods);
    }
}

impl PodResources {
    pub fn new() -> (r: PodResources)
        ensures
            r@ == (0int, 0int),
    {
        PodResources { cpu: Quantity::zero(), memory: Quantity::zero() }
    }

    /// Both amounts less those of `other`, or `None` where one cannot be held.
    pub fn checked_sub(&self, other: &PodResources) -> (r: Option<PodResources>)
        ensures
            r.is_some() <==> in_range(self@.0 - other@.0) && in_range(self@.1 - other@.1),
            r.is_some() ==> r.unwrap()@ == (self@.0 - other@.0, self@.1 - other@.1),
    {
        match (self.cpu.checked_sub(&other.cpu), self.memory.checked_sub(&other.memory)) {
            (Some(c), Some(m)) => Some(PodResources { cpu: c, memory: m }),
            _ => None,
        }
    }

    /// `self -= other`: capacity less what is consumed, amount by amount.
    pub fn sub_assign(&mut self, other: PodResources)
        requires
            in_range(old(self)@.0 - other@.0),
            in_range(old(self)@.1 - other@.1),
        ensures
            final(self)@ == (old(self)@.0 - other@.0, old(self)@.1 - other@.1),
    {
        self.cpu = Quantity { nanos: self.cpu.nanos - other.cpu.nanos };
        self.memory = Quantity { nanos: self.memory.nanos - other.memory.nanos };
    }

    /// Both amounts plus those of `other`, or `None` where one cannot be held.
    pub fn checked_add(&self, other: &PodResources) -> (r: Option<PodResources>)
        ensures
            r.is_some() <==> in_range(self@.0 + other@.0) && in_range(self@.1 + other@.1),
            r.is_some() ==> r.unwrap()@ == (self@.0 + other@.0, self@.1 + other@.1),
    {
        match (self.cpu.checked_add(&other.cpu), self.memory.checked_add(&other.memory)) {
            (Some(c), Some(m)) => Some(PodResources { cpu: c, memory: m }),
            _ => None,
        }
    }

    /// Whether both amounts are at most those of `other`.
    pub fn fits_within(&self, other: &PodResources) -> (r: bool)
        ensures
            r == (self@.0 <= other@.0 && self@.1 <= other@.1),
    {
        self.cpu.le(&other.cpu) && self.memory.le(&other.memory)
    }
}

fn amount(q: &Option<String>) -> (r: Result<Quantity, QuantityError>)
    ensures
        match r {
            Ok(v) => amount_of(opt_chars(*q)) == Ok::<int, QuantityError>(v@),
            Err(e) => amount_of(opt_chars(*q)) == Err::<int, QuantityError>(e),
        },
{
    match q {
        None => Ok(Quantity::zero()),
        Some(s) => Quantity::parse(s.as_str()),
    }
}

/// Reads a cpu and a memory quantity, absent ones as zero.
pub fn read_pair(cpu: &Option<String>, memory: &Option<String>) -> (r: Result<PodResources, QuantityError>)
    ensures
        match r {
            Ok(v) => pair_of(opt_chars(*cpu), opt_chars(*memory)) == Ok::<(int, int), QuantityError>(v@),
            Err(e) => pair_of(opt_chars(*cpu), opt_chars(*memory)) == Err::<(int, int), QuantityError>(e),
        },
{
    let c = match amount(cpu) {
        Ok(c) => c,
        Err(e) => {
            return Err(e);
        },
    };
    let m = match amount(memory) {
        Ok(m) => m,
        Err(e) => {
            return Err(e);
        },
    };
    Ok(PodResources { cpu: c, memory: m })
}

/// The pod's footprint: the requests of all its containers summed.
pub fn total_pod_resources(pod: &Pod) -> (r: Result<PodResources, QuantityError>)
    ensures
        match r {
            Ok(v) => pod_footprint(*pod) == Ok::<(int, int), QuantityError>(v@),
            Err(e) => pod_footprint(*pod) == Err::<(int, int), QuantityError>(e),
        },
{
    let cs = &pod.containers;
    let mut total = PodResources::new();
    let mut i: usize = 0;
    while i < cs.len()
        invariant
            i <= cs@.len(),
            cs@ == pod.containers@,
            requests_total(cs@.subrange(0, i as int)) == Ok::<(int, int), QuantityError>(total@),
        decreases cs@.len() - i,
    {
        let ghost pre = cs@.subrange(0, i + 1);
        assert(pre.drop_last() =~= cs@.subrange(0, i as int));
        let c = &cs[i];
        assert(pre.last() == *c);
        let d = match read_pair(&c.cpu_request, &c.memory_request) {
            Ok(d) => d,
            Err(e) => {
                proof {
                    lemma_total_err_extends(cs@, i + 1, e);
                }
                return Err(e);
            },
        };
        total = match total.checked_add(&d) {
            Some(t) => t,
            None => {
                proof {
                    lemma_total_err_extends(cs@, i + 1, QuantityError::OutOfRange);
                }
                return Err(QuantityError::OutOfRange);
            },
        };
        i = i + 1;
    }
    assert(cs@.subrange(0, i as int) =~= cs@);
    Ok(total)
}

/// What the node has left: its allocatable amounts less the footprint of
/// every pod in `occupants`.
pub fn available_resources(node: &Node, occupants: &Vec<Pod>) -> (r: Result<PodResources, QuantityError>)
    ensures
        match r {
            Ok(v) => node_available(*node, occupants@) == Ok::<(int, int), QuantityError>(v@),
            Err(e) => node_available(*node, occupants@) == Err::<(int, int), QuantityError>(e),
        },
{
    let mut avail = match read_pair(&node.allocatable_cpu, &node.allocatable_memory) {
        Ok(a) => a,
        Err(e) => {
            return Err(e);
        },
    };
    let ghost start = avail@;
    let mut i: usize = 0;
    while i < occupants.len()
        invariant
            i <= occupants@.len(),
            node_allocatable(*node) == Ok::<(int, int), QuantityError>(start),
            remaining_after(start, occupants@.subrange(0, i as int)) == Ok::<(int, int), QuantityError>(avail@),
        decreases occupants@.len() - i,
    {
        let ghost pre = occupants@.subrange(0, i + 1);
        assert(pre.drop_last() =~= occupants@.subrange(0, i as int));
        assert(pre.last() == occupants@[i as int]);
        let used = match total_pod_resources(&occupants[i]) {
            Ok(u) => u,
            Err(e) => {
                proof {
                    lemma_remaining_err_extends(start, occupants@, i + 1, e);
                }
                return Err(e);
            },
        };
        avail = match avail.checked_sub(&used) {
            Some(a) => a,
            None => {
                proof {
                    lemma_remaining_err_extends(start, occupants@, i + 1, QuantityError::OutOfRange);
                }
                return Err(QuantityError::OutOfRange);
            },
        };
        i = i + 1;
    }
    assert(occupants@.subrange(0, i as int) =~= occupants@);
    Ok(avail)
}

} // verus!
