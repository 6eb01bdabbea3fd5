use std::collections::HashSet;

use section_graph::coord::LocalNodeCoords;
use section_graph::coord::LocalNodeIndex;
use section_graph::direction::GraphDirection;

#[test]
fn pack_unpack_local_node_index() {
    for x in 0..=255u8 {
        for y in 0..=255u8 {
            for z in 0..=255u8 {
                let local_coord = LocalNodeCoords::from_xyz(x, y, z);

                let index = LocalNodeIndex::pack(local_coord, 0);
                let unpacked = index.unpack(0);

                assert_eq!(unpacked, local_coord);
            }
        }
    }
}

#[test]
fn inc_dec_local_node_index() {
    let mut local_index = LocalNodeIndex::pack(LocalNodeCoords::from_xyz(0, 0, 0), 3);

    local_index = local_index.inc_x(3);

    assert_eq!(
        LocalNodeCoords::from_xyz(8, 0, 0),
        local_index.unpack_section()
    );

    local_index = local_index.dec_x(3);

    assert_eq!(
        LocalNodeCoords::from_xyz(0, 0, 0),
        local_index.unpack_section()
    );
}

#[test]
fn iterate_lower_local_node_index() {
    let local_index_3 = LocalNodeIndex::pack(LocalNodeCoords::from_xyz(0, 0, 0), 3);
    let mut set = HashSet::new();

    let mut iter_2 = local_index_3.iter_lower_nodes(3);
    while let Some(lower_index_2) = iter_2.next() {
        let lower_coords_2 = lower_index_2.unpack(2);
        println!("2: {:?}", lower_coords_2);
        let mut iter_1 = lower_index_2.iter_lower_nodes(2);
        while let Some(lower_index_1) = iter_1.next() {
            let lower_coords_1 = lower_index_1.unpack(1);
            println!("1: {:?}", lower_coords_1);
            let mut iter_0 = lower_index_1.iter_lower_nodes(1);
            while let Some(lower_index_0) = iter_0.next() {
                let lower_coords_0 = lower_index_0.unpack(0);
                if !set.insert(lower_index_0.as_array_index()) {
                    panic!("Already exists in set {:?}", lower_coords_0);
                }
                println!("0: {:?}", lower_coords_0)
            }
        }
    }

    println!("Unique level 0 nodes: {}", set.len());
}

#[test]
fn local_section_get_neighbors() {
    let idx = LocalNodeIndex::pack(LocalNodeCoords::from_xyz(22, 4, 6), 1);

    let neighbors = idx.get_all_neighbors(1);

    assert_eq!(neighbors.get(GraphDirection::NegX), idx.dec_x(1));
    assert_eq!(neighbors.get(GraphDirection::NegY), idx.dec_y(1));
    assert_eq!(neighbors.get(GraphDirection::NegZ), idx.dec_z(1));
    assert_eq!(neighbors.get(GraphDirection::PosX), idx.inc_x(1));
    assert_eq!(neighbors.get(GraphDirection::PosY), idx.inc_y(1));
    assert_eq!(neighbors.get(GraphDirection::PosZ), idx.inc_z(1));
}

#[test]
fn morton_cube() {
    for x in 0..4 {
        for y in 0..4 {
            for z in 0..4 {
                let index =
                    LocalNodeIndex::pack(LocalNodeCoords::from_xyz(x, y, z), 0).as_array_index();
                println!("{: >3}", index);
            }
            println!();
        }
        println!();
    }
}

#[test]
fn morton_cube_shift_visual() {
    let axis_length: u8 = 4;

    println!("------------------------------");
    println!("SHIFT NEGATIVE X:");
    for x in 0..axis_length {
        for y in 0..axis_length {
            for z in 0..axis_length {
                let initial_idx = LocalNodeIndex::pack(LocalNodeCoords::from_xyz(x, y, z), 0)
                    .as_array_index() as isize;
                if x == 0 {
                    println!("  X");
                } else {
                    let new_idx = LocalNodeIndex::pack(LocalNodeCoords::from_xyz(x - 1, y, z), 0)
                        .as_array_index() as isize;
                    println!("{: >3}", initial_idx - new_idx);
                }
            }
            println!();
        }
        println!();
    }

    println!("------------------------------");
    println!("SHIFT POSITIVE X:");
    for x in 0..axis_length {
        for y in 0..axis_length {
            for z in 0..axis_length {
                let initial_idx = LocalNodeIndex::pack(LocalNodeCoords::from_xyz(x, y, z), 0)
                    .as_array_index() as isize;
                if x == (axis_length - 1) {
                    println!("  X");
                } else {
                    let new_idx = LocalNodeIndex::pack(LocalNodeCoords::from_xyz(x + 1, y, z), 0)
                        .as_array_index() as isize;
                    println!("{: >3}", -(initial_idx - new_idx));
                }
            }
            println!();
        }
        println!();
    }

    println!("------------------------------");
    println!("SHIFT NEGATIVE Y:");
    for x in 0..axis_length {
        for y in 0..axis_length {
            for z in 0..axis_length {
                let initial_idx = LocalNodeIndex::pack(LocalNodeCoords::from_xyz(x, y, z), 0)
                    .as_array_index() as isize;
                if y == 0 {
                    println!("  X");
                } else {
                    let new_idx = LocalNodeIndex::pack(LocalNodeCoords::from_xyz(x, y - 1, z), 0)
                        .as_array_index() as isize;
                    println!("{: >3}", initial_idx - new_idx);
                }
            }
            println!();
        }
        println!();
    }

    println!("------------------------------");
    println!("SHIFT POSITIVE Y:");
    for x in 0..axis_length {
        for y in 0..axis_length {
            for z in 0..axis_length {
                let initial_idx = LocalNodeIndex::pack(LocalNodeCoords::from_xyz(x, y, z), 0)
                    .as_array_index() as isize;
                if y == (axis_length - 1) {
                    println!("  X");
                } else {
                    let new_idx = LocalNodeIndex::pack(LocalNodeCoords::from_xyz(x, y + 1, z), 0)
                        .as_array_index() as isize;
                    println!("{: >3}", -(initial_idx - new_idx));
                }
            }
            println!();
        }
        println!();
    }

    println!("------------------------------");
    println!("SHIFT NEGATIVE Z:");
    for x in 0..axis_length {
        for y in 0..axis_length {
            for z in 0..axis_length {
                let initial_idx = LocalNodeIndex::pack(LocalNodeCoords::from_xyz(x, y, z), 0)
                    .as_array_index() as isize;
                if z == 0 {
                    println!("  X");
                } else {
                    let new_idx = LocalNodeIndex::pack(LocalNodeCoords::from_xyz(x, y, z - 1), 0)
                        .as_array_index() as isize;
                    println!("{: >3}", initial_idx - new_idx);
                }
            }
            println!();
        }
        println!();
    }

    println!("------------------------------");
    println!("SHIFT POSITIVE Z:");
    for x in 0..axis_length {
        for y in 0..axis_length {
            for z in 0..axis_length {
                let initial_idx = LocalNodeIndex::pack(LocalNodeCoords::from_xyz(x, y, z), 0)
                    .as_array_index() as isize;
                if z == (axis_length - 1) {
                    println!("  X");
                } else {
                    let new_idx = LocalNodeIndex::pack(LocalNodeCoords::from_xyz(x, y, z + 1), 0)
                        .as_array_index() as isize;
                    println!("{: >3}", -(initial_idx - new_idx));
                }
            }
            println!();
        }
        println!();
    }
}

#[test]
fn morton_cube_shift() {
    let axis_length: u8 = 4;
    let mut array: Vec<String> = (0..64).map(|_| String::new()).collect();

    println!("------------------------------");
    println!("SHIFT NEGATIVE Z:");
    for x in 0..axis_length {
        for y in 0..axis_length {
            for z in 0..axis_length {
                let initial_idx =
                    LocalNodeIndex::pack(LocalNodeCoords::from_xyz(x, y, z), 0).as_array_index();
                if z == 0 {
                    array[initial_idx].push('*');
                } else {
                    let new_idx = LocalNodeIndex::pack(LocalNodeCoords::from_xyz(x, y, z - 1), 0)
                        .as_array_index();
                    array[initial_idx].push_str(&new_idx.to_string());
                }
            }
        }
    }

    for str in &mut array {
        println!("{str}, ");
        str.clear();
    }
    println!();

    println!("------------------------------");
    println!("SHIFT POSITIVE Z:");
    for x in 0..axis_length {
        for y in 0..axis_length {
            for z in 0..axis_length {
                let initial_idx =
                    LocalNodeIndex::pack(LocalNodeCoords::from_xyz(x, y, z), 0).as_array_index();
                if z == (axis_length - 1) {
                    array[initial_idx].push('*');
                } else {
                    let new_idx = LocalNodeIndex::pack(LocalNodeCoords::from_xyz(x, y, z + 1), 0)
                        .as_array_index();
                    array[initial_idx].push_str(&new_idx.to_string());
                }
            }
        }
    }

    for str in &array {
        println!("{str}, ");
    }
    println!();
}

#[test]
fn morton_cube_overflow() {
    let axis_length: u8 = 4;
    let mut array: Vec<String> = (0..64).map(|_| String::new()).collect();
    let mut bit_mask = 0_u64;

    println!("------------------------------");
    println!("OVERFLOW NEGATIVE Z:");
    for x in 0..axis_length {
        for y in 0..axis_length {
            for z in 0..axis_length {
                let initial_idx =
                    LocalNodeIndex::pack(LocalNodeCoords::from_xyz(x, y, z), 0).as_array_index();
                if z != 0 {
                    array[initial_idx].push('*');
                } else {
                    let new_idx = LocalNodeIndex::pack(LocalNodeCoords::from_xyz(x, y, z + 3), 0)
                        .as_array_index();
                    bit_mask |= 1 << initial_idx;
                    array[initial_idx].push_str(&new_idx.to_string());
                }
            }
        }
    }

    for str in &mut array {
        println!("{str}, ");
        str.clear();
    }
    println!();
    println!("Bitmask: {:#018x}", bit_mask);
    bit_mask = 0;

    println!("------------------------------");
    println!("OVERFLOW POSITIVE Z:");
    for x in 0..axis_length {
        for y in 0..axis_length {
            for z in 0..axis_length {
                let initial_idx =
                    LocalNodeIndex::pack(LocalNodeCoords::from_xyz(x, y, z), 0).as_array_index();
                if z != (axis_length - 1) {
                    array[initial_idx].push('*');
                } else {
                    let new_idx = LocalNodeIndex::pack(LocalNodeCoords::from_xyz(x, y, z - 3), 0)
                        .as_array_index();
                    bit_mask |= 1 << initial_idx;
                    array[initial_idx].push_str(&new_idx.to_string());
                }
            }
        }
    }

    for str in &array {
        println!("{str}, ");
    }
    println!();
    println!("Bitmask: {:#018x}", bit_mask);
}

#[test]
fn morton_cube_bfs_scalar() {
    let mut bit_array = 0_u64;

    bit_array |= 1 << LocalNodeIndex::pack(LocalNodeCoords::from_xyz(1, 2, 2), 0).as_array_index();

    for _ in 0..3 {
        println!("-------------------------");

        // negative X shift
        let bit_array_shift_nx =
            ((bit_array & 0x0f0f0f0f00000000) >> 28) | ((bit_array & 0xf0f0f0f0f0f0f0f0) >> 4);
        // negative Y shift
        let bit_array_shift_ny =
            ((bit_array & 0x3333000033330000) >> 14) | ((bit_array & 0xcccccccccccccccc) >> 2);
        // negative Z shift
        let bit_array_shift_nz =
            ((bit_array & 0x5500550055005500) >> 7) | ((bit_array & 0xaaaaaaaaaaaaaaaa) >> 1);
        // positive X shift
        let bit_array_shift_px =
            ((bit_array & 0x0f0f0f0f0f0f0f0f) << 4) | ((bit_array & 0x00000000f0f0f0f0) << 28);
        // positive Y shift
        let bit_array_shift_py =
            ((bit_array & 0x3333333333333333) << 2) | ((bit_array & 0x0000cccc0000cccc) << 14);
        // positive Z shift
        let bit_array_shift_pz =
            ((bit_array & 0x5555555555555555) << 1) | ((bit_array & 0x00aa00aa00aa00aa) << 7);

        // negative Z overflow
        let _bit_array_overflow_nz = (bit_array & 0x0055005500550055) << 9;
        // positive Z overflow
        let bit_array_overflow_pz = (bit_array & 0xaa00aa00aa00aa00) >> 9;

        bit_array |= bit_array_shift_ny;
        bit_array |= bit_array_shift_py;
        bit_array |= bit_array_shift_nx;
        bit_array |= bit_array_shift_px;
        bit_array |= bit_array_shift_nz;
        bit_array |= bit_array_shift_pz;

        for x in 0..4 {
            for y in 0..4 {
                for z in 0..4 {
                    let index = LocalNodeIndex::pack(LocalNodeCoords::from_xyz(x, y, z), 0)
                        .as_array_index();
                    println!("{: >3}", (bit_array_overflow_pz >> index) & 0b1);
                }
                println!();
            }
            println!();
        }
    }
}

#[test]
fn morton_pack_known_values() {
    // X7..X0 sit at bits 3i+2, Y at 3i+1, Z at 3i
    let i = LocalNodeIndex::pack(LocalNodeCoords::from_xyz(1, 0, 0), 0);
    assert_eq!(i.as_array_index(), 0b100);
    let i = LocalNodeIndex::pack(LocalNodeCoords::from_xyz(0, 1, 0), 0);
    assert_eq!(i.as_array_index(), 0b010);
    let i = LocalNodeIndex::pack(LocalNodeCoords::from_xyz(0, 0, 1), 0);
    assert_eq!(i.as_array_index(), 0b001);
    let i = LocalNodeIndex::pack(LocalNodeCoords::from_xyz(255, 255, 255), 0);
    assert_eq!(i.as_array_index(), 0xFFFFFF);
    let i = LocalNodeIndex::pack(LocalNodeCoords::from_xyz(0x80, 0, 0), 0);
    assert_eq!(i.as_array_index(), 0x800000);
}

#[test]
fn morton_steps_wrap_around_the_window() {
    // a +x step at level 0 from x = 255 wraps to x = 0
    let i = LocalNodeIndex::pack(LocalNodeCoords::from_xyz(255, 10, 20), 0);
    let j = i.inc_x(0);
    assert_eq!(j.unpack_section(), LocalNodeCoords::from_xyz(0, 10, 20));
    // and a -x step comes back
    assert_eq!(j.dec_x(0).unpack_section(), LocalNodeCoords::from_xyz(255, 10, 20));

    // steps on one axis leave the other axes alone
    let i = LocalNodeIndex::pack(LocalNodeCoords::from_xyz(3, 7, 9), 0);
    assert_eq!(i.inc_y(0).unpack_section(), LocalNodeCoords::from_xyz(3, 8, 9));
    assert_eq!(i.dec_z(0).unpack_section(), LocalNodeCoords::from_xyz(3, 7, 8));
}
