use numa::mask::OUT_OF_RANGE;
use numa::{CpuMask, CpuSet, ErrorKind, Node, NodeMask, NodeSet};

fn sorted(mut v: Vec<u64>) -> Vec<u64> {
    v.sort();
    v
}

fn sorted_ids(set: &NodeSet) -> Vec<i32> {
    let mut ids: Vec<i32> = set.to_vec().iter().map(|n| n.os_id()).collect();
    ids.sort();
    ids
}

#[test]
fn nodeset_from_iter() {
    let nodes: Vec<Node> = [0].iter().map(|i| Node::new(*i)).collect();
    let set: NodeSet = NodeSet::from_nodes(&nodes);
    assert_eq!(2 + 2, 4);
    assert!(set.contains(&Node::new(0)));
    assert_eq!(set.len(), 1);
}

#[test]
fn new_sets_are_empty() {
    let cpus = CpuSet::new();
    assert!(cpus.is_empty());
    assert_eq!(cpus.len(), 0);
    assert!(!cpus.contains(0));
    assert!(cpus.to_vec().is_empty());
    let nodes = NodeSet::new();
    assert!(nodes.is_empty());
    assert_eq!(nodes.len(), 0);
    assert!(!nodes.contains(&Node::new(0)));
    assert!(nodes.to_vec().is_empty());
}

#[test]
fn insert_tells_whether_new() {
    let mut cpus = CpuSet::new();
    assert!(cpus.insert(4));
    assert!(!cpus.insert(4));
    assert!(cpus.insert(u64::MAX));
    assert_eq!(cpus.len(), 2);
    assert!(!cpus.is_empty());
    assert!(cpus.contains(4) && cpus.contains(u64::MAX) && !cpus.contains(5));

    let mut nodes = NodeSet::new();
    assert!(nodes.insert(Node::new(-3)));
    assert!(!nodes.insert(Node::new(-3)));
    assert!(nodes.insert(Node::new(3)));
    assert_eq!(nodes.len(), 2);
    assert!(!nodes.is_empty());
    assert!(nodes.contains(&Node::new(-3)) && nodes.contains(&Node::new(3)));
    assert!(!nodes.contains(&Node::new(0)));
}

#[test]
fn to_vec_has_each_member_once() {
    let mut cpus = CpuSet::new();
    for cpu in [9u64, 1, 5, 1, 9, 0] {
        cpus.insert(cpu);
    }
    assert_eq!(sorted(cpus.to_vec()), vec![0, 1, 5, 9]);

    let nodes = NodeSet::from_nodes(&[Node::new(2), Node::new(0), Node::new(2)]);
    assert_eq!(sorted_ids(&nodes), vec![0, 2]);
}

#[test]
fn from_nodes_of_nothing_is_empty() {
    let set = NodeSet::from_nodes(&[]);
    assert!(set.is_empty());
}

#[test]
fn cpu_set_from_mask_reads_the_set_bits() {
    let mask = CpuMask::from_bytes(vec![0b0000_0101, 0x80]);
    let set = CpuSet::from_mask(&mask);
    assert_eq!(sorted(set.to_vec()), vec![0, 2, 15]);
    assert_eq!(mask.as_bytes(), &[0b0000_0101u8, 0x80]);
}

#[test]
fn node_set_from_mask_reads_the_set_bits() {
    let mask = NodeMask::from_bytes(vec![0b0000_0110]);
    let set = NodeSet::from_mask(&mask);
    assert_eq!(sorted_ids(&set), vec![1, 2]);
    assert!(set.contains(&Node::new(1)));
    assert!(!set.contains(&Node::new(0)));
    assert_eq!(mask.as_bytes(), &[0b0000_0110u8]);
}

#[test]
fn clear_masks_read_as_empty_sets() {
    assert!(CpuSet::from_mask(&CpuMask::new(16)).is_empty());
    assert!(NodeSet::from_mask(&NodeMask::new(16)).is_empty());
    assert!(CpuSet::from_mask(&CpuMask::new(0)).is_empty());
}

#[test]
fn set_bits_then_read_back_exactly_those() {
    for byte_len in [1usize, 2, 3, 16] {
        let len = 8 * byte_len;
        let indices: Vec<usize> = (0..len).filter(|i| i % 3 == 0 || *i == len - 1).collect();
        let mut cpus = CpuMask::new(byte_len);
        let mut nodes = NodeMask::new(byte_len);
        for i in &indices {
            cpus.set(*i);
            nodes.set(*i);
        }
        let cpu_set = CpuSet::from_mask(&cpus);
        let node_set = NodeSet::from_mask(&nodes);
        assert_eq!(cpu_set.len(), indices.len());
        assert_eq!(node_set.len(), indices.len());
        for i in 0..len + 8 {
            let expected = i < len && indices.contains(&i);
            assert_eq!(cpu_set.contains(i as u64), expected);
            assert_eq!(node_set.contains(&Node::new(i as i32)), expected);
        }
    }
}

#[test]
fn mask_to_set_to_mask_is_the_same_mask() {
    let bytes = vec![0x00u8, 0xff, 0x5a, 0x01, 0x80];
    let cpus = CpuMask::from_bytes(bytes.clone());
    let again = CpuMask::from_set(&CpuSet::from_mask(&cpus), cpus.byte_len()).unwrap();
    assert_eq!(again.as_bytes(), &bytes[..]);

    let nodes = NodeMask::from_bytes(bytes.clone());
    let again = NodeMask::from_set(&NodeSet::from_mask(&nodes), nodes.byte_len()).unwrap();
    assert_eq!(again.as_bytes(), &bytes[..]);
}

#[test]
fn set_to_mask_to_set_is_the_same_set() {
    let mut cpus = CpuSet::new();
    for cpu in [0u64, 7, 8, 63] {
        cpus.insert(cpu);
    }
    let mask = CpuMask::from_set(&cpus, 8).unwrap();
    assert_eq!(mask.len(), 64);
    assert_eq!(mask.as_bytes(), &[0x81u8, 0x01, 0, 0, 0, 0, 0, 0x80]);
    assert_eq!(sorted(CpuSet::from_mask(&mask).to_vec()), vec![0, 7, 8, 63]);

    let nodes = NodeSet::from_nodes(&[Node::new(1), Node::new(3)]);
    let mask = NodeMask::from_set(&nodes, 1).unwrap();
    assert_eq!(mask.as_bytes(), &[0b0000_1010u8]);
    assert_eq!(sorted_ids(&NodeSet::from_mask(&mask)), vec![1, 3]);
}

#[test]
fn empty_set_makes_a_clear_mask() {
    let mask = CpuMask::from_set(&CpuSet::new(), 2).unwrap();
    assert_eq!(mask.as_bytes(), &[0u8, 0]);
    let mask = NodeMask::from_set(&NodeSet::new(), 2).unwrap();
    assert_eq!(mask.as_bytes(), &[0u8, 0]);
    let mask = NodeMask::from_set(&NodeSet::new(), 0).unwrap();
    assert_eq!(mask.len(), 0);
}

#[test]
fn cpu_past_the_mask_is_an_error() {
    let mut cpus = CpuSet::new();
    cpus.insert(2);
    cpus.insert(16);
    let error = CpuMask::from_set(&cpus, 2).err().unwrap();
    assert_eq!(error.kind(), ErrorKind::Unexpected);
    assert_eq!(error.message(), OUT_OF_RANGE);
    assert_eq!(error.message(), "identifier out of range for the mask");
    assert!(CpuMask::from_set(&cpus, 3).is_ok());

    let mut huge = CpuSet::new();
    huge.insert(u64::MAX);
    assert!(CpuMask::from_set(&huge, 8).is_err());
    assert!(CpuMask::from_set(&huge, 0).is_err());
}

#[test]
fn node_past_the_mask_is_an_error() {
    let nodes = NodeSet::from_nodes(&[Node::new(0), Node::new(8)]);
    let error = NodeMask::from_set(&nodes, 1).err().unwrap();
    assert_eq!(error.kind(), ErrorKind::Unexpected);
    assert_eq!(error.message(), OUT_OF_RANGE);
    assert!(NodeMask::from_set(&nodes, 2).is_ok());
}

#[test]
fn negative_node_is_an_error() {
    let nodes = NodeSet::from_nodes(&[Node::new(-1)]);
    let error = NodeMask::from_set(&nodes, 8).err().unwrap();
    assert_eq!(error.kind(), ErrorKind::Unexpected);
    let nodes = NodeSet::from_nodes(&[Node::new(i32::MIN), Node::new(1)]);
    assert!(NodeMask::from_set(&nodes, 8).is_err());
    let nodes = NodeSet::from_nodes(&[Node::new(i32::MAX)]);
    assert!(NodeMask::from_set(&nodes, 8).is_err());
}
