use voxel_terrain::coord::{chunk_index, local_index, world_coord, ChunkCoordinate, CHUNK_SIZE};

#[test]
fn chunk_size_is_sixteen() {
    assert_eq!(CHUNK_SIZE, 16);
}

#[test]
fn chunk_index_floors_toward_negative_infinity() {
    assert_eq!(chunk_index(0), 0);
    assert_eq!(chunk_index(15), 0);
    assert_eq!(chunk_index(16), 1);
    assert_eq!(chunk_index(31), 1);
    assert_eq!(chunk_index(-1), -1);
    assert_eq!(chunk_index(-16), -1);
    assert_eq!(chunk_index(-17), -2);
    assert_eq!(chunk_index(i64::MAX), 576460752303423487);
    assert_eq!(chunk_index(i64::MIN), -576460752303423488);
}

#[test]
fn local_index_is_never_negative() {
    assert_eq!(local_index(0), 0);
    assert_eq!(local_index(15), 15);
    assert_eq!(local_index(16), 0);
    assert_eq!(local_index(-1), 15);
    assert_eq!(local_index(-15), 1);
    assert_eq!(local_index(-16), 0);
    assert_eq!(local_index(-17), 15);
    assert_eq!(local_index(i64::MAX), 15);
    assert_eq!(local_index(i64::MIN), 0);
}

#[test]
fn world_minus_one_is_local_fifteen_of_chunk_minus_one() {
    let c = ChunkCoordinate::containing(-1, 0, 0).unwrap();
    assert_eq!(c, ChunkCoordinate::new(-1, 0, 0));
    assert_eq!(local_index(-1), 15);
    assert_eq!(world_coord(-1, 15), -1);
}

#[test]
fn index_and_offset_rebuild_the_coordinate() {
    for w in -100i64..100 {
        let c = chunk_index(w);
        let l = local_index(w);
        assert!(l < 16);
        assert_eq!(c * 16 + l as i64, w);
        assert_eq!(c, w.div_euclid(16));
        assert_eq!(l as i64, w.rem_euclid(16));
    }
}

#[test]
fn containing_gives_the_chunk_of_each_axis() {
    assert_eq!(
        ChunkCoordinate::containing(0, 0, 0),
        Some(ChunkCoordinate::new(0, 0, 0))
    );
    assert_eq!(
        ChunkCoordinate::containing(17, -1, 160),
        Some(ChunkCoordinate::new(1, -1, 10))
    );
    assert_eq!(
        ChunkCoordinate::containing(-33, 47, -16),
        Some(ChunkCoordinate::new(-3, 2, -1))
    );
}

#[test]
fn containing_reaches_the_ends_of_chunk_space() {
    let top = i32::MAX as i64 * 16 + 15;
    let bottom = i32::MIN as i64 * 16;
    assert_eq!(
        ChunkCoordinate::containing(top, bottom, 0),
        Some(ChunkCoordinate::new(i32::MAX, i32::MIN, 0))
    );
    assert_eq!(ChunkCoordinate::containing(top + 1, 0, 0), None);
    assert_eq!(ChunkCoordinate::containing(0, bottom - 1, 0), None);
    assert_eq!(ChunkCoordinate::containing(0, 0, i64::MAX), None);
    assert_eq!(ChunkCoordinate::containing(i64::MIN, 0, 0), None);
}

#[test]
fn origin_is_coordinate_times_chunk_size() {
    assert_eq!(ChunkCoordinate::new(0, 0, 0).origin(), (0, 0, 0));
    assert_eq!(ChunkCoordinate::new(1, -1, 3).origin(), (16, -16, 48));
    assert_eq!(
        ChunkCoordinate::new(i32::MAX, i32::MIN, -2).origin(),
        (34359738352, -34359738368, -32)
    );
}

#[test]
fn world_coord_adds_the_offset() {
    assert_eq!(world_coord(0, 0), 0);
    assert_eq!(world_coord(2, 5), 37);
    assert_eq!(world_coord(-2, 5), -27);
    assert_eq!(world_coord(i32::MAX, 15), 34359738367);
}

#[test]
fn chebyshev_is_the_largest_axis_distance() {
    let o = ChunkCoordinate::new(0, 0, 0);
    assert_eq!(o.chebyshev(&o), 0);
    assert_eq!(o.chebyshev(&ChunkCoordinate::new(1, -2, 3)), 3);
    assert_eq!(o.chebyshev(&ChunkCoordinate::new(-5, 2, 3)), 5);
    assert_eq!(o.chebyshev(&ChunkCoordinate::new(1, 7, -3)), 7);
    assert_eq!(ChunkCoordinate::new(4, 4, 4).chebyshev(&ChunkCoordinate::new(1, 5, 4)), 3);
    assert_eq!(
        ChunkCoordinate::new(i32::MIN, 0, 0).chebyshev(&ChunkCoordinate::new(i32::MAX, 0, 0)),
        4294967295
    );
}

#[test]
fn chebyshev_is_symmetric() {
    let a = ChunkCoordinate::new(3, -9, 2);
    let b = ChunkCoordinate::new(-4, 1, 8);
    assert_eq!(a.chebyshev(&b), 10);
    assert_eq!(b.chebyshev(&a), 10);
}
