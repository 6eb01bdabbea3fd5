use section_graph::coord::LocalNodeCoords;
use section_graph::coord::LocalNodeIndex;
use section_graph::octree::stamp_and_drain;
use section_graph::octree::LinearBitOctree;

#[test]
fn bit_octree_get_set() {
    let mut bit_octree = LinearBitOctree::new();

    let node_index =
        LocalNodeIndex::pack(LocalNodeCoords::from_xyz(255, 255, 255).into_level(0, 3), 3);

    bit_octree.set(node_index, 3, true);

    assert!(bit_octree.get_and_clear(node_index, 3));

    assert!(!bit_octree.get_and_clear(node_index, 3));

    let node_index =
        LocalNodeIndex::pack(LocalNodeCoords::from_xyz(255, 255, 255).into_level(0, 2), 2);

    bit_octree.set(node_index, 2, true);

    assert!(bit_octree.get_and_clear(node_index, 2));

    assert!(!bit_octree.get_and_clear(node_index, 2));

    let node_index =
        LocalNodeIndex::pack(LocalNodeCoords::from_xyz(255, 255, 255).into_level(0, 1), 1);

    bit_octree.set(node_index, 1, true);

    assert!(bit_octree.get_and_clear(node_index, 1));

    assert!(!bit_octree.get_and_clear(node_index, 1));

    let node_index =
        LocalNodeIndex::pack(LocalNodeCoords::from_xyz(255, 255, 255).into_level(0, 0), 0);

    bit_octree.set(node_index, 0, true);

    assert!(bit_octree.get_and_clear(node_index, 0));

    assert!(!bit_octree.get_and_clear(node_index, 0));
}

#[test]
fn stamp_and_drain_every_level() {
    let mut bit_octree = LinearBitOctree::new();
    for level in 0..=3u8 {
        let node_index =
            LocalNodeIndex::pack(LocalNodeCoords::from_xyz(13, 202, 97).into_level(0, level), level);
        let (first, second) = stamp_and_drain(&mut bit_octree, node_index, level);
        assert!(first);
        assert!(!second);
    }
}

#[test]
fn setting_a_node_leaves_other_bits_alone() {
    let mut bit_octree = LinearBitOctree::new();

    let a = LocalNodeIndex::pack(LocalNodeCoords::from_xyz(10, 20, 30), 0);
    let b = LocalNodeIndex::pack(LocalNodeCoords::from_xyz(10, 20, 31), 0);
    bit_octree.set(a, 0, true);
    assert!(!bit_octree.get_and_clear(b, 0));
    assert!(bit_octree.get_and_clear(a, 0));

    // a level-2 stamp covers all 64 sections of its cube
    let cube = LocalNodeIndex::pack(LocalNodeCoords::from_xyz(2, 3, 4), 2);
    bit_octree.set(cube, 2, true);
    let inside = LocalNodeIndex::pack(LocalNodeCoords::from_xyz(11, 15, 19), 0);
    assert!(bit_octree.get_and_clear(inside, 0));
    // draining one section breaks the cube's all-set reading
    assert!(!bit_octree.get_and_clear(cube, 2));

    bit_octree.clear();
    assert!(!bit_octree.get_and_clear(cube, 2));
}
