use section_graph::collections::CInlineVec;
use section_graph::context::FogCylinder;
use section_graph::context::LocalCoordContext;
use section_graph::graph::get_bfs_queue_max_size;
use section_graph::graph::Graph;
use section_graph::region::RegionRenderList;
use section_graph::visibility::VisibilityData;

fn collect(results: &CInlineVec<RegionRenderList>) -> Vec<((i32, i32, i32), Vec<u8>)> {
    results
        .get_slice()
        .iter()
        .map(|entry| (entry.get_coords(), entry.get_sections().to_vec()))
        .collect()
}

fn contains_section(out: &[((i32, i32, i32), Vec<u8>)], coords: (i32, i32, i32), rsi: u8) -> bool {
    out.iter()
        .any(|(c, sections)| *c == coords && sections.contains(&rsi))
}

#[test]
fn queue_size_for_the_largest_world() {
    assert_eq!(get_bfs_queue_max_size(127, 254), 70966);
}

#[test]
fn empty_world_small_fog_emits_the_camera_neighborhood() {
    // camera at the origin, fog of one section, flat world at y = 0
    let mut graph = Graph::new();
    let ctx = LocalCoordContext::new(0, 0, 0, 1, 0, 0);
    let vol = FogCylinder {
        camera_block_x: 0,
        camera_block_z: 0,
        fog_distance_squared: 16 * 16,
    };
    let out = collect(graph.cull_and_sort(&ctx, &vol, true));

    // the camera section and its three wrapped-west and -north
    // companions are the only sections within fog range; regions come
    // out in first-touch order and empty regions are dropped
    let expected: Vec<((i32, i32, i32), Vec<u8>)> = vec![
        ((0, 0, 0), vec![0]),
        ((-1, 0, 0), vec![224]),
        ((0, 0, -1), vec![28]),
        ((-1, 0, -1), vec![252]),
    ];
    assert_eq!(out, expected);
}

#[test]
fn fog_membership_matches_the_closest_corner_rule() {
    let mut graph = Graph::new();
    let ctx = LocalCoordContext::new(0, 0, 0, 3, 0, 0);
    let fog_squared: i64 = 48 * 48;
    let vol = FogCylinder {
        camera_block_x: 0,
        camera_block_z: 0,
        fog_distance_squared: fog_squared,
    };
    let out = collect(graph.cull_and_sort(&ctx, &vol, true));

    let mut expected_count = 0;
    for gx in -8i32..8 {
        for gz in -8i32..8 {
            let closest = |g: i32| -> i64 {
                if g > 0 {
                    (16 * g) as i64
                } else if g < 0 {
                    (16 * (g + 1)) as i64
                } else {
                    0
                }
            };
            let cx = closest(gx);
            let cz = closest(gz);
            let inside = cx * cx + cz * cz < fog_squared;

            let lx = (gx & 255) as u8;
            let lz = (gz & 255) as u8;
            let rsi = ((lx & 7) << 5) | ((lz & 7) << 2);
            let rx = (lx >> 3) as i32 + if lx >= 248 { -32 } else { 0 };
            let rz = (lz >> 3) as i32 + if lz >= 248 { -32 } else { 0 };

            assert_eq!(
                contains_section(&out, (rx, 0, rz), rsi),
                inside,
                "section at ({}, 0, {})",
                gx,
                gz
            );
            if inside {
                expected_count += 1;
            }
        }
    }
    let total: usize = out.iter().map(|(_, sections)| sections.len()).sum();
    assert_eq!(total, expected_count);
}

#[test]
fn opaque_section_blocks_the_flood_behind_it() {
    let mut graph = Graph::new();
    let ctx = LocalCoordContext::new(0, 0, 0, 3, 0, 0);
    let vol = FogCylinder {
        camera_block_x: 0,
        camera_block_z: 0,
        fog_distance_squared: 48 * 48,
    };
    // a fully opaque section one step east of the camera
    graph.set_section(1, 0, 0, VisibilityData::pack(0));

    let out = collect(graph.cull_and_sort(&ctx, &vol, true));
    // the opaque section itself is still staged: it is visible even
    // though nothing passes through it
    assert!(contains_section(&out, (0, 0, 0), 0b0100000));
    // but the section behind it is never reached
    assert!(!contains_section(&out, (0, 0, 0), 0b1000000));

    // with occlusion culling off, the connectivity is ignored and the
    // section behind the opaque one appears
    let out = collect(graph.cull_and_sort(&ctx, &vol, false));
    assert!(contains_section(&out, (0, 0, 0), 0b1000000));

    // removing the opaque section restores the default connectivity
    graph.remove_section(1, 0, 0);
    let out = collect(graph.cull_and_sort(&ctx, &vol, true));
    assert!(contains_section(&out, (0, 0, 0), 0b1000000));
}

#[test]
fn set_then_remove_leaves_no_trace() {
    let ctx = LocalCoordContext::new(0, 0, 0, 2, 0, 0);
    let vol = FogCylinder {
        camera_block_x: 0,
        camera_block_z: 0,
        fog_distance_squared: 32 * 32,
    };

    let mut touched = Graph::new();
    touched.set_section(1, 0, 1, VisibilityData::pack(0x21));
    touched.remove_section(1, 0, 1);
    let out_touched = collect(touched.cull_and_sort(&ctx, &vol, true));

    let mut fresh = Graph::new();
    let out_fresh = collect(fresh.cull_and_sort(&ctx, &vol, true));

    assert_eq!(out_touched, out_fresh);
}

#[test]
fn repeated_searches_give_identical_output() {
    let mut graph = Graph::new();
    graph.set_section(1, 0, 0, VisibilityData::pack(0));
    graph.set_section(-1, 0, 1, VisibilityData::pack(0x0000_0921_8C41_7E40));
    let ctx = LocalCoordContext::new(0, 0, 0, 2, 0, 0);
    let vol = FogCylinder {
        camera_block_x: 0,
        camera_block_z: 0,
        fog_distance_squared: 32 * 32,
    };
    let first = collect(graph.cull_and_sort(&ctx, &vol, true));
    let second = collect(graph.cull_and_sort(&ctx, &vol, true));
    assert_eq!(first, second);
}

#[test]
fn window_wrap_keeps_regions_on_the_camera_side() {
    // camera near the east window seam: global block x = 4080, which
    // is section 255; the section at local x = 0 is one region east
    // of the camera's region, not thirty-one regions west
    let mut graph = Graph::new();
    let ctx = LocalCoordContext::new(255, 0, 0, 2, 0, 0);
    let vol = FogCylinder {
        camera_block_x: 4080,
        camera_block_z: 0,
        fog_distance_squared: 32 * 32,
    };
    let out = collect(graph.cull_and_sort(&ctx, &vol, true));

    // the camera's own section sits in region x = 31
    assert!(contains_section(&out, (31, 0, 0), 0b1110_0000));
    // its eastern neighbor wraps to local x = 0, region x = 32
    assert!(contains_section(&out, (32, 0, 0), 0));
    // nothing lands a window west of the camera
    assert!(out.iter().all(|(c, _)| c.0 == 31 || c.0 == 32));
}

#[test]
fn context_places_the_camera_in_the_window() {
    // global section (-1, -130, 300) wraps into the 256-section window
    let ctx = LocalCoordContext::new(-1, -130, 300, 4, -64, 63);
    assert_eq!(ctx.camera_section_coords.x, 255);
    assert_eq!(ctx.camera_section_coords.y, 254); // -130 + 128 wraps to 254
    assert_eq!(ctx.camera_section_coords.z, 44); // 300 wraps to 44
    // the window origin sits a whole number of regions below the camera
    assert_eq!(ctx.origin_region_x as i64 * 8, -1i64 - 255);
    assert_eq!(ctx.origin_region_y as i64 * 4, -130i64 - 254);
    assert_eq!(ctx.origin_region_z as i64 * 8, 300i64 - 44);
    // world bounds lifted into window coordinates
    assert_eq!(ctx.world_bottom_section_y, 64);
    assert_eq!(ctx.world_top_section_y, 191);
    // the iteration start is the level-3 cube below the view corner
    assert_eq!(ctx.iter_start_section_coords.x, 248); // 255 - 4, aligned down
    assert_eq!(ctx.iter_start_section_coords.y, 64);
    assert_eq!(ctx.iter_start_section_coords.z, 40);
    assert!(!ctx.can_underflow_x);
    assert!(ctx.can_overflow_x); // the view box runs past the east seam
    assert!(!ctx.can_underflow_z && !ctx.can_overflow_z);
}

#[test]
fn world_height_clips_the_flood_vertically() {
    // a four-section-tall world: the level-3 node holding it is only
    // partially inside the height bounds, so the cull must descend
    let mut graph = Graph::new();
    let ctx = LocalCoordContext::new(0, 1, 0, 1, 0, 3);
    let vol = FogCylinder {
        camera_block_x: 0,
        camera_block_z: 0,
        fog_distance_squared: 16 * 16,
    };
    let out = collect(graph.cull_and_sort(&ctx, &vol, true));

    // the camera's column is emitted over the whole world height and
    // nothing else lands in the camera's region; the flood reaches the
    // camera section first, then floods down and up
    let camera_region: Vec<&Vec<u8>> = out
        .iter()
        .filter(|(c, _)| *c == (0, 0, 0))
        .map(|(_, sections)| sections)
        .collect();
    assert_eq!(camera_region.len(), 1);
    assert_eq!(camera_region[0], &vec![1, 0, 2, 3]);
}
