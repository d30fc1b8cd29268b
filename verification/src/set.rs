//! Sets of CPU identifiers and of NUMA nodes.

use std::collections::HashSet;
use vstd::prelude::*;
use vstd::std_specs::iter::IteratorSpec;

use crate::mask::{cpus_in, nodes_in, CpuMask, NodeMask, NODE_MASK_MAX_BYTES};
use crate::bits::zeros;
use crate::node::Node;
use crate::round_trip::{lemma_no_cpu_iff_no_bit, lemma_no_node_iff_no_bit};
use crate::seq_facts::lemma_one_more_seen;

verus! {

/// A set of CPU identifiers: no order, no member twice.
#[derive(Debug)]
pub struct CpuSet(HashSet<u64>);

/// A set of NUMA nodes: no order, no member twice.
#[derive(Debug)]
pub struct NodeSet(HashSet<i32>);

impl View for CpuSet {
    type V = Set<u64>;

    closed spec fn view(&self) -> Set<u64> {
        self.0@
    }
}

impl View for NodeSet {
    type V = Set<Node>;

    closed spec fn view(&self) -> Set<Node> {
        Set::new(|node: Node| self.0@.contains(node.os_id))
    }
}

impl CpuSet {
    /// The empty set.
    pub fn new() -> (set: CpuSet)
        ensures
            set@ == Set::<u64>::empty(),
    {
        CpuSet(HashSet::new())
    }

    /// The identifiers, as the hash set that holds them.
    pub(crate) fn ids(&self) -> (ids: &HashSet<u64>)
        ensures
            ids@ == self@,
    {
        &self.0
    }

    /// Adds `cpu`; tells whether it was new to the set.
    pub fn insert(&mut self, cpu: u64) -> (added: bool)
        ensures
            final(self)@ == old(self)@.insert(cpu),
            added == !old(self)@.contains(cpu),
    {
        self.0.insert(cpu)
    }

    /// Whether `cpu` is a member.
    pub fn contains(&self, cpu: u64) -> (found: bool)
        ensures
            found == self@.contains(cpu),
    {
        self.0.contains(&cpu)
    }

    /// The members, each once, in no particular order.
    pub fn to_vec(&self) -> (cpus: Vec<u64>)
        ensures
            cpus@.to_set() == self@,
            cpus@.no_duplicates(),
    {
        let mut cpus: Vec<u64> = Vec::new();
        let ghost all: Seq<u64> = self.0.iter().remaining().unref();
        for cpu in it: self.0.iter()
            invariant
                it.seq().unref() == all,
                cpus@ == all.take(it.index()),
        {
            cpus.push(*cpu);
        }
        assert(cpus@ == all);
        cpus
    }

    /// The number of members.
    pub fn len(&self) -> (count: usize)
        ensures
            self@.finite(),
            count == self@.len(),
    {
        proof {
            vstd::seq_lib::seq_to_set_is_finite(self.0.iter().remaining().unref());
        }
        self.0.len()
    }

    /// Whether the set has no member.
    pub fn is_empty(&self) -> (empty: bool)
        ensures
            empty == self@.is_empty(),
    {
        self.0.is_empty()
    }

    /// The CPUs whose bit is set in `mask`: none if the mask is clear. The mask is only read.
    pub fn from_mask(mask: &CpuMask) -> (set: CpuSet)
        ensures
            set@ == cpus_in(mask@),
            set@.is_empty() <==> mask@ == zeros(mask@.len()),
    {
        let mut set = CpuSet::new();
        let bits: usize = mask.len();
        let mut at: usize = 0;
        while at < bits
            invariant
                at <= bits,
                bits == mask@.len(),
                forall|cpu: u64| set@.contains(cpu) <==> (cpu < at && mask@[cpu as int]),
            decreases bits - at,
        {
            if mask.is_set(at) {
                set.insert(at as u64);
            }
            at = at + 1;
        }
        proof {
            lemma_no_cpu_iff_no_bit(mask@);
        }
        set
    }
}

impl NodeSet {
    /// The empty set.
    pub fn new() -> (set: NodeSet)
        ensures
            set@ == Set::<Node>::empty(),
    {
        NodeSet(HashSet::new())
    }

    /// The identifiers of the members, as the hash set that holds them.
    pub(crate) fn ids(&self) -> (ids: &HashSet<i32>)
        ensures
            forall|node: Node| self@.contains(node) <==> ids@.contains(node.os_id),
    {
        &self.0
    }

    /// Adds `node`; tells whether it was new to the set.
    pub fn insert(&mut self, node: Node) -> (added: bool)
        ensures
            final(self)@ == old(self)@.insert(node),
            added == !old(self)@.contains(node),
    {
        self.0.insert(node.os_id)
    }

    /// Whether `value` is a member.
    pub fn contains(&self, value: &Node) -> (found: bool)
        ensures
            found == self@.contains(*value),
    {
        self.0.contains(&value.os_id)
    }

    /// The members, each once, in no particular order.
    pub fn to_vec(&self) -> (nodes: Vec<Node>)
        ensures
            nodes@.to_set() == self@,
            nodes@.no_duplicates(),
    {
        let mut nodes: Vec<Node> = Vec::new();
        let ghost all: Seq<i32> = self.0.iter().remaining().unref();
        for id in it: self.0.iter()
            invariant
                it.seq().unref() == all,
                nodes@.len() == it.index(),
                forall|k: int| 0 <= k < nodes@.len() ==> (#[trigger] nodes@[k]).os_id == all[k],
        {
            nodes.push(Node::new(*id));
        }
        proof {
            assert forall|node: Node| nodes@.to_set().contains(node) <==> self@.contains(node) by {
                if nodes@.contains(node) {
                    let k = choose|k: int| 0 <= k < nodes@.len() && nodes@[k] == node;
                    assert(all[k] == node.os_id);
                }
                if self@.contains(node) {
                    let k = choose|k: int| 0 <= k < all.len() && all[k] == node.os_id;
                    assert(nodes@[k] == node);
                }
            }
        }
        nodes
    }

    /// The set of the nodes in `nodes`; one that occurs twice is a member once.
    pub fn from_nodes(nodes: &[Node]) -> (set: NodeSet)
        ensures
            set@ == nodes@.to_set(),
    {
        let mut set = NodeSet::new();
        let count: usize = nodes.len();
        let mut at: usize = 0;
        while at < count
            invariant
                at <= count,
                count == nodes@.len(),
                set@ == nodes@.take(at as int).to_set(),
            decreases count - at,
        {
            set.insert(nodes[at]);
            proof {
                assert forall|node: Node|
                    nodes@.take(at + 1).to_set().contains(node) <==> nodes@.take(
                        at as int,
                    ).to_set().insert(nodes@[at as int]).contains(node) by {
                    lemma_one_more_seen(nodes@, at as int, node);
                }
                assert(nodes@.take(at + 1).to_set() =~= nodes@.take(at as int).to_set().insert(
                    nodes@[at as int],
                ));
            }
            at = at + 1;
        }
        assert(nodes@.take(count as int) == nodes@);
        set
    }

    /// The number of members.
    pub fn len(&self) -> (count: usize)
        ensures
            self@.finite(),
            count == self@.len(),
    {
        proof {
            let all: Seq<i32> = self.0.iter().remaining().unref();
            assert forall|node: Node| self@.contains(node) <==> all.contains(node.os_id) by {
                assert(all.to_set().contains(node.os_id) <==> all.contains(node.os_id));
            }
            lemma_node_count(all, self@);
        }
        self.0.len()
    }

    /// Whether the set has no member.
    pub fn is_empty(&self) -> (empty: bool)
        ensures
            empty == self@.is_empty(),
    {
        let empty = self.0.is_empty();
        proof {
            if empty {
                assert(self@ =~= Set::<Node>::empty());
            } else {
                let os_id = choose|os_id: i32| self.0@.contains(os_id);
                assert(self@.contains(Node { os_id }));
            }
        }
        empty
    }

    /// The nodes whose bit is set in `mask`: none if the mask is clear. The mask is only
    /// read.
    pub fn from_mask(mask: &NodeMask) -> (set: NodeSet)
        ensures
            set@ == nodes_in(mask@),
            set@.is_empty() <==> mask@ == zeros(mask@.len()),
    {
        let mut set = NodeSet::new();
        let bits: usize = mask.len();
        let mut at: usize = 0;
        while at < bits
            invariant
                at <= bits,
                bits == mask@.len(),
                bits <= 8 * NODE_MASK_MAX_BYTES,
                forall|node: Node|
                    set@.contains(node) <==> (0 <= node.os_id < at && mask@[node.os_id as int]),
            decreases bits - at,
        {
            if mask.is_set(at) {
                set.insert(Node::new(at as i32));
            }
            at = at + 1;
        }
        proof {
            lemma_no_node_iff_no_bit(mask@);
        }
        set
    }
}

/// A set of nodes whose identifiers are those of a sequence without repetition is finite
/// and has as many members as the sequence has entries.
proof fn lemma_node_count(ids: Seq<i32>, nodes: Set<Node>)
    requires
        ids.no_duplicates(),
        forall|node: Node| nodes.contains(node) <==> ids.contains(node.os_id),
    ensures
        nodes.finite(),
        nodes.len() == ids.len(),
{
    let listed = ids.map_values(|os_id: i32| Node { os_id });
    assert(listed.no_duplicates());
    assert forall|node: Node| listed.to_set().contains(node) <==> nodes.contains(node) by {
        if listed.contains(node) {
            let k = choose|k: int| 0 <= k < listed.len() && listed[k] == node;
            assert(ids[k] == node.os_id);
        }
        if ids.contains(node.os_id) {
            let k = choose|k: int| 0 <= k < ids.len() && ids[k] == node.os_id;
            assert(listed[k] == node);
        }
    }
    assert(listed.to_set() =~= nodes);
    listed.unique_seq_to_set();
    vstd::seq_lib::seq_to_set_is_finite(listed);
}

} // verus!
