//! Owned, fixed-width bit masks: one bit for each possible CPU, or for each possible node.
//!
//! A mask is created with all bits clear, sized by the caller to what the system reports.
//! It is plain memory: it is given back when its owner goes out of scope.

use vstd::prelude::*;
use vstd::std_specs::iter::IteratorSpec;

use crate::bits::{bits_of, copy_bytes, set_bit, test_bit, zeroed, zeros};
use crate::error::{Error, ErrorKind};
use crate::node::Node;
use crate::seq_facts::lemma_one_more_seen;
use crate::set::{CpuSet, NodeSet};

verus! {

/// The most bytes a node mask can have: a node identifier is a non-negative `i32`, so a
/// node mask has at most 2^31 bits.
pub const NODE_MASK_MAX_BYTES: usize = 0x1000_0000;

/// The message of the error for a set member that has no bit in the mask.
pub const OUT_OF_RANGE: &'static str = "identifier out of range for the mask";

/// The CPU identifiers whose bit is set in `bits`.
pub open spec fn cpus_in(bits: Seq<bool>) -> Set<u64> {
    Set::new(|cpu: u64| cpu < bits.len() && bits[cpu as int])
}

/// The mask of `len` bits in which exactly the bits of the CPUs in `cpus` are set.
pub open spec fn cpu_bits(cpus: Set<u64>, len: nat) -> Seq<bool> {
    Seq::new(len, |i: int| cpus.contains(i as u64))
}

/// The nodes whose bit is set in `bits`.
pub open spec fn nodes_in(bits: Seq<bool>) -> Set<Node> {
    Set::new(|node: Node| 0 <= node.os_id < bits.len() && bits[node.os_id as int])
}

/// The mask of `len` bits in which exactly the bits of the nodes in `nodes` are set.
pub open spec fn node_bits(nodes: Set<Node>, len: nat) -> Seq<bool> {
    Seq::new(len, |i: int| nodes.contains(Node { os_id: i as i32 }))
}

/// An owned mask with one bit for each possible CPU.
pub struct CpuMask {
    bytes: Vec<u8>,
}

/// An owned mask with one bit for each possible node.
pub struct NodeMask {
    bytes: Vec<u8>,
}

impl View for CpuMask {
    type V = Seq<bool>;

    /// The bits, in order.
    open spec fn view(&self) -> Seq<bool> {
        bits_of(self.bytes())
    }
}

impl View for NodeMask {
    type V = Seq<bool>;

    /// The bits, in order.
    open spec fn view(&self) -> Seq<bool> {
        bits_of(self.bytes())
    }
}

impl CpuMask {
    #[verifier::type_invariant]
    spec fn fits(self) -> bool {
        8 * self.bytes@.len() <= usize::MAX
    }

    /// The bytes that hold the bits.
    pub closed spec fn bytes(&self) -> Seq<u8> {
        self.bytes@
    }

    /// A mask of `byte_len` bytes with no bit set.
    pub fn new(byte_len: usize) -> (mask: CpuMask)
        requires
            8 * byte_len <= usize::MAX,
        ensures
            mask@ == zeros((8 * byte_len) as nat),
    {
        CpuMask { bytes: zeroed(byte_len) }
    }

    /// The mask whose bits are those of `bytes`, eight for each byte, lowest bit first.
    pub fn from_bytes(bytes: Vec<u8>) -> (mask: CpuMask)
        requires
            8 * bytes@.len() <= usize::MAX,
        ensures
            mask.bytes() == bytes@,
    {
        CpuMask { bytes }
    }

    /// The bytes that hold the bits, eight for each byte, lowest bit first.
    pub fn as_bytes(&self) -> (bytes: &[u8])
        ensures
            bytes@ == self.bytes(),
    {
        self.bytes.as_slice()
    }

    /// The number of bytes that hold the bits.
    pub fn byte_len(&self) -> (count: usize)
        ensures
            count == self.bytes().len(),
            8 * count <= usize::MAX,
    {
        proof {
            use_type_invariant(self);
        }
        self.bytes.len()
    }

    /// A fresh mask of the same length as `borrowed`, with the same bits.
    pub fn from_borrowed(borrowed: &CpuMask) -> (mask: CpuMask)
        ensures
            mask@ == borrowed@,
    {
        proof {
            use_type_invariant(borrowed);
        }
        let mut mask = CpuMask::new(borrowed.bytes.len());
        mask.copy_from(borrowed);
        mask
    }

    /// Copies every bit of `src`, which has the same length, into this mask.
    pub fn copy_from(&mut self, src: &CpuMask)
        requires
            old(self)@.len() == src@.len(),
        ensures
            final(self)@ == src@,
    {
        proof {
            use_type_invariant(&*self);
        }
        copy_bytes(&mut self.bytes, &src.bytes);
    }

    /// The number of bits in the mask: eight for each of its bytes.
    pub fn len(&self) -> (bits: usize)
        ensures
            bits == self@.len(),
    {
        proof {
            use_type_invariant(self);
        }
        8 * self.bytes.len()
    }

    /// Reads bit `u`; a position past the end reads as unset.
    pub fn is_set(&self, u: usize) -> (set: bool)
        ensures
            set == (u < self@.len() && self@[u as int]),
    {
        proof {
            use_type_invariant(self);
        }
        if u < 8 * self.bytes.len() {
            test_bit(&self.bytes, u)
        } else {
            false
        }
    }

    /// Sets bit `u` and leaves the others as they were. The caller keeps `u` within the
    /// mask: a position past the end has no bit, and then the mask stays as it was.
    pub fn set(&mut self, u: usize)
        ensures
            final(self)@ == if u < old(self)@.len() {
                old(self)@.update(u as int, true)
            } else {
                old(self)@
            },
    {
        proof {
            use_type_invariant(&*self);
        }
        if u < 8 * self.bytes.len() {
            set_bit(&mut self.bytes, u);
        }
    }

    /// A fresh mask of `byte_len` bytes with the bit of each member of `cpus` set. A member
    /// that has no bit in such a mask is an error: no bit is dropped in silence.
    pub fn from_set(cpus: &CpuSet, byte_len: usize) -> (made: Result<CpuMask, Error>)
        requires
            8 * byte_len <= usize::MAX,
        ensures
            made is Ok <==> (forall|cpu: u64| cpus@.contains(cpu) ==> cpu < 8 * byte_len),
            made matches Ok(mask) ==> mask@ == cpu_bits(cpus@, (8 * byte_len) as nat),
            made matches Err(error) ==> error@ == (ErrorKind::Unexpected, OUT_OF_RANGE@),
    {
        let ids = cpus.ids();
        let mut mask = CpuMask::new(byte_len);
        let bits: usize = mask.len();
        let ghost all: Seq<u64> = ids.iter().remaining().unref();
        for id in it: ids.iter()
            invariant
                it.seq().unref() == all,
                all.to_set() == cpus@,
                bits == 8 * byte_len,
                mask@.len() == bits,
                forall|k: int| 0 <= k < it.index() ==> #[trigger] all[k] < bits,
                forall|j: int|
                    0 <= j < bits ==> mask@[j] == all.take(it.index()).contains(j as u64),
        {
            let cpu: u64 = *id;
            if cpu >= bits as u64 {
                assert(all.to_set().contains(cpu));
                return Err(Error::new(ErrorKind::Unexpected, OUT_OF_RANGE));
            }
            mask.set(cpu as usize);
            proof {
                assert forall|j: int| 0 <= j < bits implies mask@[j] == all.take(
                    it.index() + 1,
                ).contains(j as u64) by {
                    lemma_one_more_seen(all, it.index(), j as u64);
                }
            }
        }
        assert(all.take(all.len() as int) == all);
        Ok(mask)
    }
}

impl NodeMask {
    #[verifier::type_invariant]
    spec fn fits(self) -> bool {
        self.bytes@.len() <= NODE_MASK_MAX_BYTES
    }

    /// The bytes that hold the bits.
    pub closed spec fn bytes(&self) -> Seq<u8> {
        self.bytes@
    }

    /// A mask of `byte_len` bytes with no bit set.
    pub fn new(byte_len: usize) -> (mask: NodeMask)
        requires
            byte_len <= NODE_MASK_MAX_BYTES,
        ensures
            mask@ == zeros((8 * byte_len) as nat),
    {
        NodeMask { bytes: zeroed(byte_len) }
    }

    /// The mask whose bits are those of `bytes`, eight for each byte, lowest bit first.
    pub fn from_bytes(bytes: Vec<u8>) -> (mask: NodeMask)
        requires
            bytes@.len() <= NODE_MASK_MAX_BYTES,
        ensures
            mask.bytes() == bytes@,
    {
        NodeMask { bytes }
    }

    /// The bytes that hold the bits, eight for each byte, lowest bit first.
    pub fn as_bytes(&self) -> (bytes: &[u8])
        ensures
            bytes@ == self.bytes(),
    {
        self.bytes.as_slice()
    }

    /// The number of bytes that hold the bits.
    pub fn byte_len(&self) -> (count: usize)
        ensures
            count == self.bytes().len(),
            count <= NODE_MASK_MAX_BYTES,
    {
        proof {
            use_type_invariant(self);
        }
        self.bytes.len()
    }

    /// A fresh mask of the same length as `borrowed`, with the same bits.
    pub fn from_borrowed(borrowed: &NodeMask) -> (mask: NodeMask)
        ensures
            mask@ == borrowed@,
    {
        proof {
            use_type_invariant(borrowed);
        }
        let mut mask = NodeMask::new(borrowed.bytes.len());
        mask.copy_from(borrowed);
        mask
    }

    /// Copies every bit of `src`, which has the same length, into this mask.
    pub fn copy_from(&mut self, src: &NodeMask)
        requires
            old(self)@.len() == src@.len(),
        ensures
            final(self)@ == src@,
    {
        proof {
            use_type_invariant(&*self);
        }
        copy_bytes(&mut self.bytes, &src.bytes);
    }

    /// The number of bits in the mask: eight for each of its bytes.
    pub fn len(&self) -> (bits: usize)
        ensures
            bits == self@.len(),
            bits <= 8 * NODE_MASK_MAX_BYTES,
    {
        proof {
            use_type_invariant(self);
        }
        8 * self.bytes.len()
    }

    /// Reads bit `u`; a position past the end reads as unset.
    pub fn is_set(&self, u: usize) -> (set: bool)
        ensures
            set == (u < self@.len() && self@[u as int]),
    {
        proof {
            use_type_invariant(self);
        }
        if u < 8 * self.bytes.len() {
            test_bit(&self.bytes, u)
        } else {
            false
        }
    }

    /// Sets bit `u` and leaves the others as they were. The caller keeps `u` within the
    /// mask: a position past the end has no bit, and then the mask stays as it was.
    pub fn set(&mut self, u: usize)
        ensures
            final(self)@ == if u < old(self)@.len() {
                old(self)@.update(u as int, true)
            } else {
                old(self)@
            },
    {
        proof {
            use_type_invariant(&*self);
        }
        if u < 8 * self.bytes.len() {
            set_bit(&mut self.bytes, u);
        }
    }

    /// A fresh mask of `byte_len` bytes with the bit of each member of `nodes` set. A member
    /// that has no bit in such a mask is an error: no bit is dropped in silence.
    pub fn from_set(nodes: &NodeSet, byte_len: usize) -> (made: Result<NodeMask, Error>)
        requires
            byte_len <= NODE_MASK_MAX_BYTES,
        ensures
            made is Ok <==> (forall|node: Node|
                nodes@.contains(node) ==> 0 <= node.os_id < 8 * byte_len),
            made matches Ok(mask) ==> mask@ == node_bits(nodes@, (8 * byte_len) as nat),
            made matches Err(error) ==> error@ == (ErrorKind::Unexpected, OUT_OF_RANGE@),
    {
        let ids = nodes.ids();
        let mut mask = NodeMask::new(byte_len);
        let bits: usize = mask.len();
        let ghost all: Seq<i32> = ids.iter().remaining().unref();
        for id in it: ids.iter()
            invariant
                it.seq().unref() == all,
                forall|node: Node| nodes@.contains(node) <==> all.to_set().contains(node.os_id),
                bits == 8 * byte_len,
                bits <= 8 * NODE_MASK_MAX_BYTES,
                mask@.len() == bits,
                forall|k: int| 0 <= k < it.index() ==> 0 <= #[trigger] all[k] < bits,
                forall|j: int|
                    0 <= j < bits ==> mask@[j] == all.take(it.index()).contains(j as i32),
        {
            let os_id: i32 = *id;
            if os_id < 0 || os_id as usize >= bits {
                assert(nodes@.contains(Node { os_id }));
                return Err(Error::new(ErrorKind::Unexpected, OUT_OF_RANGE));
            }
            mask.set(os_id as usize);
            proof {
                assert forall|j: int| 0 <= j < bits implies mask@[j] == all.take(
                    it.index() + 1,
                ).contains(j as i32) by {
                    lemma_one_more_seen(all, it.index(), j as i32);
                }
            }
        }
        assert(all.take(all.len() as int) == all);
        Ok(mask)
    }
}

} // verus!
