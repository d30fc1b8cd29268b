//! The facade: what the system has, and where the calling task may run.

use vstd::prelude::*;

use crate::bits::zeros;
use crate::error::{describes, Error, ErrorKind};
use crate::mask::{
    cpus_in, node_bits, nodes_in, CpuMask, NodeMask, NODE_MASK_MAX_BYTES, OUT_OF_RANGE,
};
use crate::node::Node;
use crate::round_trip::lemma_empty_set_no_bit;
use crate::set::{CpuSet, NodeSet};

verus! {

/// The status with which the affinity call reports success.
pub const STATUS_OK: i32 = 0;

/// The status with which the affinity call reports a failure that left an error number.
pub const STATUS_FAILED: i32 = -1;

/// The message of the error for a status that is neither of the two.
pub const UNEXPECTED_STATUS: &'static str = "numa_run_on_node_mask returned unexpected";

/// A snapshot of the topology: all CPUs and all nodes, as owned sets, and the widths of
/// the masks they were read from.
pub struct System {
    all_cpus: CpuSet,
    all_nodes: NodeSet,
    cpu_mask_bytes: usize,
    node_mask_bytes: usize,
}

impl System {
    #[verifier::type_invariant]
    spec fn within_masks(self) -> bool {
        &&& 8 * self.cpu_mask_bytes <= usize::MAX
        &&& self.node_mask_bytes <= NODE_MASK_MAX_BYTES
        &&& forall|cpu: u64| self.all_cpus@.contains(cpu) ==> cpu < 8 * self.cpu_mask_bytes
        &&& forall|node: Node|
            self.all_nodes@.contains(node) ==> 0 <= node.os_id < 8 * self.node_mask_bytes
    }

    /// All CPUs of the system.
    pub closed spec fn cpus(&self) -> Set<u64> {
        self.all_cpus@
    }

    /// All nodes of the system.
    pub closed spec fn nodes(&self) -> Set<Node> {
        self.all_nodes@
    }

    /// The number of bits in a CPU mask of this system.
    pub closed spec fn cpu_mask_bits(&self) -> nat {
        8 * self.cpu_mask_bytes as nat
    }

    /// The number of bits in a node mask of this system.
    pub closed spec fn node_mask_bits(&self) -> nat {
        8 * self.node_mask_bytes as nat
    }

    /// Takes the snapshot from the system's masks of all CPUs and of all nodes. Each mask is
    /// copied into an owned one before it is read, so the sets share nothing with them.
    pub fn new(all_cpus: &CpuMask, all_nodes: &NodeMask) -> (system: System)
        ensures
            system.cpus() == cpus_in(all_cpus@),
            system.nodes() == nodes_in(all_nodes@),
            system.cpu_mask_bits() == all_cpus@.len(),
            system.node_mask_bits() == all_nodes@.len(),
            system.cpus().is_empty() <==> all_cpus@ == zeros(all_cpus@.len()),
            system.nodes().is_empty() <==> all_nodes@ == zeros(all_nodes@.len()),
    {
        let cpu_mask = CpuMask::from_borrowed(all_cpus);
        let node_mask = NodeMask::from_borrowed(all_nodes);
        let cpu_mask_bytes = cpu_mask.byte_len();
        let node_mask_bytes = node_mask.byte_len();
        System {
            all_cpus: CpuSet::from_mask(&cpu_mask),
            all_nodes: NodeSet::from_mask(&node_mask),
            cpu_mask_bytes,
            node_mask_bytes,
        }
    }

    /// Whether the system supports NUMA, from the answer of its availability probe:
    /// 0 for yes, -1 for no.
    pub fn is_available(&self, probe: i32) -> (available: bool)
        requires
            probe == 0 || probe == -1,
        ensures
            available == (probe == 0),
    {
        probe == 0
    }

    /// All CPUs of the system. Each has a bit in a CPU mask of this system.
    pub fn all_cpus_ref(&self) -> (cpus: &CpuSet)
        ensures
            cpus@ == self.cpus(),
            forall|cpu: u64| cpus@.contains(cpu) ==> cpu < self.cpu_mask_bits(),
    {
        proof {
            use_type_invariant(self);
        }
        &self.all_cpus
    }

    /// All nodes of the system. Each has a bit in a node mask of this system.
    pub fn all_nodes_ref(&self) -> (nodes: &NodeSet)
        ensures
            nodes@ == self.nodes(),
            forall|node: Node| nodes@.contains(node) ==> 0 <= node.os_id < self.node_mask_bits(),
    {
        proof {
            use_type_invariant(self);
        }
        &self.all_nodes
    }

    /// The number of bits in a CPU mask of this system.
    pub fn cpu_mask_len(&self) -> (bits: usize)
        ensures
            bits == self.cpu_mask_bits(),
    {
        proof {
            use_type_invariant(self);
        }
        8 * self.cpu_mask_bytes
    }

    /// The number of bits in a node mask of this system.
    pub fn node_mask_len(&self) -> (bits: usize)
        ensures
            bits == self.node_mask_bits(),
    {
        proof {
            use_type_invariant(self);
        }
        8 * self.node_mask_bytes
    }

    /// The first half of pinning the calling task to `nodes`: the owned mask to hand to the
    /// affinity call, with exactly the bits of `nodes` set. The empty set gives the mask
    /// with no bit set, like any other set. A node without a bit in the mask is an error,
    /// and then there is no mask and nothing to call.
    pub fn run_on(&mut self, nodes: NodeSet) -> (mask: Result<NodeMask, Error>)
        ensures
            *final(self) == *old(self),
            mask is Ok <==> (forall|node: Node|
                nodes@.contains(node) ==> 0 <= node.os_id < old(self).node_mask_bits()),
            mask matches Ok(made) ==> made@ == node_bits(nodes@, old(self).node_mask_bits()),
            mask matches Err(error) ==> error@ == (ErrorKind::Unexpected, OUT_OF_RANGE@),
            nodes@.is_empty() ==> (mask matches Ok(made) && made@ == zeros(
                old(self).node_mask_bits(),
            )),
    {
        proof {
            use_type_invariant(&*self);
            lemma_empty_set_no_bit(self.node_mask_bits());
        }
        NodeMask::from_set(&nodes, self.node_mask_bytes)
    }

    /// The second half: takes back the mask, which ends here whatever the outcome, and turns
    /// the status of the affinity call into the result. On the failure status the error
    /// number that the call left is read, and the message is the text of that number.
    #[allow(unused_variables)]
    pub fn run_on_result(mask: NodeMask, status: i32) -> (result: Result<(), Error>)
        ensures
            result is Ok <==> status == STATUS_OK,
            status == STATUS_FAILED ==> (result matches Err(error) && error@.0
                == ErrorKind::SystemCall && exists|code: errno::Errno|
                #[trigger] describes(code, error@.1)),
            status != STATUS_OK && status != STATUS_FAILED ==> (result matches Err(error)
                && error@ == (ErrorKind::Unexpected, UNEXPECTED_STATUS@)),
    {
        if status == STATUS_OK {
            Ok(())
        } else if status == STATUS_FAILED {
            Err(Error::from_errno(errno::errno()))
        } else {
            Err(Error::new(ErrorKind::Unexpected, UNEXPECTED_STATUS))
        }
    }

    /// The CPUs on which the calling task may run now, from the system's mask of them.
    pub fn run_cpus(&self, effective: &CpuMask) -> (cpus: CpuSet)
        ensures
            cpus@ == cpus_in(effective@),
    {
        let owned = CpuMask::from_borrowed(effective);
        CpuSet::from_mask(&owned)
    }

    /// The nodes from which the calling task may take memory now, from the system's mask
    /// of them.
    pub fn run_nodes(&self, effective: &NodeMask) -> (nodes: NodeSet)
        ensures
            nodes@ == nodes_in(effective@),
    {
        let owned = NodeMask::from_borrowed(effective);
        NodeSet::from_mask(&owned)
    }
}

} // verus!
