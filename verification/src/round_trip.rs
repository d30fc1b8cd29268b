//! Round trips between masks and sets, for CPUs and for nodes alike.

use vstd::prelude::*;

use crate::bits::{lemma_set_each, set_each, zeros};
use crate::mask::{cpu_bits, cpus_in, node_bits, nodes_in, NODE_MASK_MAX_BYTES};
use crate::node::Node;

verus! {

/// Round trip from positions to a set: start from a mask of any length with no bit set, set
/// the bits at any positions within it, and read the mask as a set of CPUs or of nodes.
/// The members are exactly the positions that were set.
pub proof fn lemma_set_then_read(len: nat, indices: Seq<int>)
    requires
        forall|k: int| 0 <= k < indices.len() ==> 0 <= #[trigger] indices[k] < len,
    ensures
        set_each(zeros(len), indices).len() == len,
        forall|cpu: u64|
            cpus_in(set_each(zeros(len), indices)).contains(cpu) <==> indices.contains(cpu as int),
        forall|node: Node|
            nodes_in(set_each(zeros(len), indices)).contains(node) <==> indices.contains(
                node.os_id as int,
            ),
{
    lemma_set_each(zeros(len), indices);
    let mask = set_each(zeros(len), indices);
    assert forall|cpu: u64| cpus_in(mask).contains(cpu) <==> indices.contains(cpu as int) by {
        if indices.contains(cpu as int) {
            let k = choose|k: int| 0 <= k < indices.len() && indices[k] == cpu as int;
            assert(0 <= indices[k] < len);
        }
    }
    assert forall|node: Node| nodes_in(mask).contains(node) <==> indices.contains(
        node.os_id as int,
    ) by {
        if indices.contains(node.os_id as int) {
            let k = choose|k: int| 0 <= k < indices.len() && indices[k] == node.os_id as int;
            assert(0 <= indices[k] < len);
        }
    }
}

/// Round trip from a set of CPUs to a mask and back: when every member has a bit in a mask
/// of `len` bits, the mask made from the set reads back as the same set.
pub proof fn lemma_cpu_set_round_trip(cpus: Set<u64>, len: nat)
    requires
        forall|cpu: u64| cpus.contains(cpu) ==> cpu < len,
    ensures
        cpus_in(cpu_bits(cpus, len)) == cpus,
{
    assert(cpus_in(cpu_bits(cpus, len)) =~= cpus);
}

/// Round trip from a set of nodes to a mask and back: when every member has a bit in a mask
/// of `len` bits, the mask made from the set reads back as the same set.
pub proof fn lemma_node_set_round_trip(nodes: Set<Node>, len: nat)
    requires
        forall|node: Node| nodes.contains(node) ==> 0 <= node.os_id < len,
    ensures
        nodes_in(node_bits(nodes, len)) == nodes,
{
    assert(nodes_in(node_bits(nodes, len)) =~= nodes);
}

/// Round trip from a CPU mask to a set and back: the mask of the same length made from the
/// CPUs of a mask is that mask, bit for bit.
pub proof fn lemma_cpu_mask_round_trip(bits: Seq<bool>)
    requires
        bits.len() <= usize::MAX,
    ensures
        cpu_bits(cpus_in(bits), bits.len()) == bits,
{
    assert(cpu_bits(cpus_in(bits), bits.len()) =~= bits);
}

/// Round trip from a node mask to a set and back: the mask of the same length made from the
/// nodes of a mask is that mask, bit for bit.
pub proof fn lemma_node_mask_round_trip(bits: Seq<bool>)
    requires
        bits.len() <= 8 * NODE_MASK_MAX_BYTES,
    ensures
        node_bits(nodes_in(bits), bits.len()) == bits,
{
    assert(node_bits(nodes_in(bits), bits.len()) =~= bits);
}

/// A CPU mask reads as the empty set exactly if none of its bits is set: a mask with a set
/// bit never reads as empty, and one without reads as empty and not as a failure.
pub proof fn lemma_no_cpu_iff_no_bit(bits: Seq<bool>)
    requires
        bits.len() <= usize::MAX,
    ensures
        cpus_in(bits).is_empty() <==> bits == zeros(bits.len()),
{
    if bits =~= zeros(bits.len()) {
        assert(cpus_in(bits) =~= Set::<u64>::empty());
    } else {
        let i = choose|i: int| 0 <= i < bits.len() && bits[i] != zeros(bits.len())[i];
        assert(cpus_in(bits).contains(i as u64));
    }
}

/// A node mask reads as the empty set exactly if none of its bits is set.
pub proof fn lemma_no_node_iff_no_bit(bits: Seq<bool>)
    requires
        bits.len() <= 8 * NODE_MASK_MAX_BYTES,
    ensures
        nodes_in(bits).is_empty() <==> bits == zeros(bits.len()),
{
    if bits =~= zeros(bits.len()) {
        assert(nodes_in(bits) =~= Set::<Node>::empty());
    } else {
        let i = choose|i: int| 0 <= i < bits.len() && bits[i] != zeros(bits.len())[i];
        assert(nodes_in(bits).contains(Node { os_id: i as i32 }));
    }
}

/// The empty set is made into the mask with no bit set, whatever the length.
pub proof fn lemma_empty_set_no_bit(len: nat)
    ensures
        cpu_bits(Set::<u64>::empty(), len) == zeros(len),
        node_bits(Set::<Node>::empty(), len) == zeros(len),
{
    assert(cpu_bits(Set::<u64>::empty(), len) =~= zeros(len));
    assert(node_bits(Set::<Node>::empty(), len) =~= zeros(len));
}

/// What a mask reads as lies within the mask: each CPU and each node that it holds has a
/// position below the length of the mask.
pub proof fn lemma_members_within(bits: Seq<bool>)
    ensures
        forall|cpu: u64| cpus_in(bits).contains(cpu) ==> cpu < bits.len(),
        forall|node: Node| nodes_in(bits).contains(node) ==> 0 <= node.os_id < bits.len(),
{
}

} // verus!
