//! NUMA topology and scheduling affinity, as owned masks and sets.
//!
//! A system describes its CPUs and its memory nodes by fixed-width bit masks. This library
//! holds such masks as owned values, turns masks into sets of identifiers and sets into
//! masks without loss, and decides what the answers of the system mean: whether NUMA is
//! available, which CPUs a node has, whether pinning the task to some nodes worked.
//!
//! The library does not call into the system. Its caller makes each call and hands over
//! what came back: a mask as plain bits, a status as a number. The one thing read here is
//! the error number that a failed call left behind.

pub mod bits;
pub mod error;
pub mod mask;
pub mod node;
pub mod round_trip;
mod seq_facts;
pub mod set;
pub mod system;

pub use error::{Error, ErrorKind};
pub use mask::{CpuMask, NodeMask};
pub use node::Node;
pub use set::{CpuSet, NodeSet};
pub use system::System;
