use section_graph::coord::LocalNodeCoords;
use section_graph::direction::GraphDirection;
use section_graph::direction::GraphDirectionSet;
use section_graph::flags::SectionFlag;
use section_graph::flags::SectionFlagSet;
use section_graph::region::LocalRegionIndex;
use section_graph::region::RegionSectionIndex;
use section_graph::visibility::VisibilityData;

#[test]
fn local_region_index() {
    let idx = LocalRegionIndex::from_local_section(LocalNodeCoords::from_xyz(22, 4, 6));
    println!("{:?}", idx);
}

#[test]
fn region_index_packs_the_high_bits() {
    // (x >> 3) << 11 | (y >> 2) << 5 | (z >> 3)
    let idx = LocalRegionIndex::from_local_section(LocalNodeCoords::from_xyz(22, 4, 6));
    assert_eq!(idx.as_u16(), (2 << 11) | (1 << 5) | 0);

    let idx = LocalRegionIndex::from_local_section(LocalNodeCoords::from_xyz(255, 255, 255));
    assert_eq!(idx.as_u16(), (31 << 11) | (63 << 5) | 31);
}

#[test]
fn region_section_index_packs_the_low_bits() {
    // (x & 7) << 5 | (z & 7) << 2 | (y & 3)
    let idx = RegionSectionIndex::from_local_section(LocalNodeCoords::from_xyz(22, 4, 6));
    assert_eq!(idx.as_u8(), (6 << 5) | (6 << 2) | 0);

    let idx = RegionSectionIndex::from_local_section(LocalNodeCoords::from_xyz(0, 128, 0));
    assert_eq!(idx.as_u8(), 0);
}

#[test]
fn direction_set_operations() {
    let mut set = GraphDirectionSet::none();
    assert!(set.is_empty());
    set.add(GraphDirection::NegY);
    assert!(set.contains(GraphDirection::NegY));
    assert!(!set.contains(GraphDirection::PosY));
    set.add_all(GraphDirectionSet::single(GraphDirection::PosZ));
    assert!(set.contains(GraphDirection::PosZ));
    set.remove(GraphDirection::NegY);
    assert!(!set.contains(GraphDirection::NegY));
    let both = set.intersection(GraphDirectionSet::all());
    assert!(both.contains(GraphDirection::PosZ));
    assert!(!both.contains(GraphDirection::NegX));
    assert_eq!(GraphDirection::NegX.opposite(), GraphDirection::PosX);
    assert_eq!(GraphDirection::PosZ.opposite(), GraphDirection::NegZ);
}

#[test]
fn visibility_pack_reads_the_lower_triangle() {
    // relate faces 0 and 1 only: the input row-major matrix has
    // bit (6*1 + 0) for "from face 1 to face 0" and its mirror
    let raw: u64 = (1 << 6) | (1 << 1);
    let data = VisibilityData::pack(raw);
    let incoming = GraphDirectionSet::single(GraphDirection::NegX);
    let out = data.get_outgoing_directions(incoming);
    assert!(out.contains(GraphDirection::NegY));
    assert!(!out.contains(GraphDirection::NegZ));
    assert!(!out.contains(GraphDirection::NegX));

    let incoming = GraphDirectionSet::single(GraphDirection::NegY);
    let out = data.get_outgoing_directions(incoming);
    assert!(out.contains(GraphDirection::NegX));
    assert!(!out.contains(GraphDirection::PosX));
}

#[test]
fn visibility_symmetry_on_every_face_pair() {
    // a datum with an arbitrary triangle relates i to j exactly when
    // it relates j to i
    let raw: u64 = 0x0000_0921_8C41_7E40;
    let data = VisibilityData::pack(raw);
    for i in 0..6u8 {
        for j in 0..6u8 {
            let di = GraphDirection::from_int_unchecked(i);
            let dj = GraphDirection::from_int_unchecked(j);
            let out_i = data.get_outgoing_directions(GraphDirectionSet::single(di));
            let out_j = data.get_outgoing_directions(GraphDirectionSet::single(dj));
            assert_eq!(out_i.contains(dj), out_j.contains(di));
        }
    }
}

#[test]
fn default_visibility_relates_every_pair() {
    let data = VisibilityData::default();
    for i in 0..6u8 {
        let di = GraphDirection::from_int_unchecked(i);
        let out = data.get_outgoing_directions(GraphDirectionSet::single(di));
        for j in 0..6u8 {
            let dj = GraphDirection::from_int_unchecked(j);
            assert_eq!(out.contains(dj), i != j);
        }
    }
}

#[test]
fn opaque_visibility_relates_nothing() {
    let data = VisibilityData::pack(0);
    let out = data.get_outgoing_directions(GraphDirectionSet::all());
    assert!(out.is_empty());
}

#[test]
fn section_flags() {
    let set = SectionFlagSet::from(0b101);
    assert!(set.contains(SectionFlag::HasBlockGeometry));
    assert!(!set.contains(SectionFlag::HasBlockEntities));
    assert!(set.contains(SectionFlag::HasAnimatedSprites));
    let empty = SectionFlagSet::default();
    assert!(!empty.contains(SectionFlag::HasBlockGeometry));
}
