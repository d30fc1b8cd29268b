//! A NUMA node, identified by the number the operating system gave it.

use vstd::prelude::*;

use crate::bits::zeros;
use crate::mask::{cpus_in, CpuMask};
use crate::set::CpuSet;

verus! {

/// One NUMA node: plain data, nothing is checked against the live topology.
#[derive(Debug, Clone, Copy, PartialEq, Eq, Hash, Structural)]
pub struct Node {
    pub os_id: i32,
}

impl Node {
    /// Names the node with the given operating-system identifier.
    pub fn new(os_id: i32) -> (node: Node)
        ensures
            node == (Node { os_id }),
    {
        Node { os_id }
    }

    /// The CPUs of this node, read from the mask that the system filled in for it. A node
    /// without CPUs has the empty set.
    /// `status` is what the system answered when it filled the mask: anything but 0 means
    /// that the mask was too short for the system, which no caller may let happen.
    pub fn cpus(&self, status: i32, filled: &CpuMask) -> (cpus: CpuSet)
        requires
            status == 0,
        ensures
            cpus@ == cpus_in(filled@),
            cpus@.is_empty() <==> filled@ == zeros(filled@.len()),
    {
        CpuSet::from_mask(filled)
    }

    /// The operating-system identifier of this node.
    pub fn os_id(&self) -> (id: i32)
        ensures
            id == self.os_id,
    {
        self.os_id
    }
}

} // verus!
