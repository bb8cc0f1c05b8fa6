use voxel_terrain::collision::is_solid;
use voxel_terrain::coord::ChunkCoordinate;
use voxel_terrain::grid::{ColumnHeights, VoxelGrid};
use voxel_terrain::store::ChunkStore;

fn uniform(h: i32) -> ColumnHeights {
    ColumnHeights::from_vec(vec![h; 256]).unwrap()
}

fn cells_of(g: &VoxelGrid) -> Vec<bool> {
    let mut v = Vec::new();
    for x in 0..16 {
        for y in 0..16 {
            for z in 0..16 {
                v.push(g.is_solid(x, y, z));
            }
        }
    }
    v
}

#[test]
fn new_store_holds_nothing() {
    let s = ChunkStore::new();
    assert!(!s.contains(ChunkCoordinate::new(0, 0, 0)));
    assert!(s.get(ChunkCoordinate::new(0, 0, 0)).is_none());
}

#[test]
fn first_request_generates_and_keeps() {
    let mut s = ChunkStore::new();
    let c = ChunkCoordinate::new(1, 0, -1);
    let got = cells_of(s.get_or_generate(c, &uniform(4)));
    assert_eq!(got, cells_of(&VoxelGrid::generate(c, &uniform(4))));
    assert!(s.contains(c));
    assert_eq!(cells_of(s.get(c).unwrap()), got);
    assert!(!s.contains(ChunkCoordinate::new(-1, 0, 1)));
}

#[test]
fn second_request_returns_the_resident_grid() {
    let mut s = ChunkStore::new();
    let c = ChunkCoordinate::new(0, 0, 0);
    let first = cells_of(s.get_or_generate(c, &uniform(4)));
    let second = cells_of(s.get_or_generate(c, &uniform(4)));
    assert_eq!(first, second);
    let third = cells_of(s.get_or_generate(c, &uniform(9)));
    assert_eq!(first, third);
    assert_eq!(first.iter().filter(|&&b| b).count(), 4 * 256);
}

#[test]
fn chunks_are_kept_apart() {
    let mut s = ChunkStore::new();
    let a = ChunkCoordinate::new(0, 0, 0);
    let b = ChunkCoordinate::new(0, 0, 1);
    let c = ChunkCoordinate::new(1, 0, 0);
    let d = ChunkCoordinate::new(-1, -1, -1);
    s.get_or_generate(a, &uniform(1));
    s.get_or_generate(b, &uniform(2));
    s.get_or_generate(c, &uniform(3));
    s.get_or_generate(d, &uniform(-12));
    assert_eq!(s.get(a).unwrap().solid_count(), 256);
    assert_eq!(s.get(b).unwrap().solid_count(), 2 * 256);
    assert_eq!(s.get(c).unwrap().solid_count(), 3 * 256);
    assert_eq!(s.get(d).unwrap().solid_count(), 4 * 256);
    assert!(!s.contains(ChunkCoordinate::new(0, 1, 0)));
}

#[test]
fn extreme_coordinates_are_kept_apart() {
    let mut s = ChunkStore::new();
    let a = ChunkCoordinate::new(i32::MAX, i32::MIN, 0);
    let b = ChunkCoordinate::new(i32::MIN, i32::MAX, 0);
    let c = ChunkCoordinate::new(0, 0, i32::MIN);
    s.get_or_generate(a, &uniform(i32::MIN));
    s.get_or_generate(b, &uniform(i32::MAX));
    assert!(s.contains(a));
    assert!(s.contains(b));
    assert!(!s.contains(c));
    assert_eq!(s.get(a).unwrap().solid_count(), 4096);
    assert_eq!(s.get(b).unwrap().solid_count(), 0);
}

#[test]
fn evict_removes_only_the_named_chunk() {
    let mut s = ChunkStore::new();
    let a = ChunkCoordinate::new(0, 0, 0);
    let b = ChunkCoordinate::new(2, 0, 0);
    s.get_or_generate(a, &uniform(1));
    s.get_or_generate(b, &uniform(2));
    s.evict(a);
    assert!(!s.contains(a));
    assert!(s.contains(b));
    assert_eq!(s.get(b).unwrap().solid_count(), 2 * 256);
}

#[test]
fn evict_of_an_absent_chunk_changes_nothing() {
    let mut s = ChunkStore::new();
    let a = ChunkCoordinate::new(0, 0, 0);
    s.evict(a);
    assert!(!s.contains(a));
    s.get_or_generate(a, &uniform(3));
    s.evict(ChunkCoordinate::new(0, 0, 1));
    assert!(s.contains(a));
    assert_eq!(s.get(a).unwrap().solid_count(), 3 * 256);
}

#[test]
fn request_after_evict_generates_again() {
    let mut s = ChunkStore::new();
    let c = ChunkCoordinate::new(0, 0, 0);
    let first = cells_of(s.get_or_generate(c, &uniform(6)));
    s.evict(c);
    let again = cells_of(s.get_or_generate(c, &uniform(6)));
    assert_eq!(first, again);
    s.evict(c);
    let other = cells_of(s.get_or_generate(c, &uniform(7)));
    assert_eq!(other.iter().filter(|&&b| b).count(), 7 * 256);
}

#[test]
fn unloaded_space_is_passable() {
    let s = ChunkStore::new();
    assert!(!is_solid(&s, 0, 0, 0));
    assert!(!is_solid(&s, -1, -1, -1));
    assert!(!is_solid(&s, 1000, -1000, 5));
    assert!(!is_solid(&s, i64::MAX, i64::MIN, 0));
}

#[test]
fn neighbours_of_a_resident_chunk_are_passable() {
    let mut s = ChunkStore::new();
    s.get_or_generate(ChunkCoordinate::new(0, 0, 0), &uniform(16));
    assert!(is_solid(&s, 0, 0, 0));
    assert!(is_solid(&s, 15, 15, 15));
    assert!(!is_solid(&s, 16, 0, 0));
    assert!(!is_solid(&s, -1, 0, 0));
    assert!(!is_solid(&s, 0, 16, 0));
    assert!(!is_solid(&s, 0, -1, 0));
    assert!(!is_solid(&s, 0, 0, 16));
    assert!(!is_solid(&s, 0, 0, -1));
}

#[test]
fn point_is_solid_below_the_surface() {
    let mut s = ChunkStore::new();
    s.get_or_generate(ChunkCoordinate::new(0, 0, 0), &uniform(5));
    assert!(is_solid(&s, 3, 4, 9));
    assert!(!is_solid(&s, 3, 5, 9));
    assert!(is_solid(&s, 0, 0, 0));
    assert!(!is_solid(&s, 15, 15, 15));
}

#[test]
fn negative_world_coordinates_use_the_non_negative_remainder() {
    let mut heights = vec![0; 256];
    heights[15 * 16 + 14] = -16 + 3;
    let h = ColumnHeights::from_vec(heights).unwrap();
    let mut s = ChunkStore::new();
    s.get_or_generate(ChunkCoordinate::new(-1, -1, -1), &h);
    assert!(is_solid(&s, -1, -16, -2));
    assert!(is_solid(&s, -1, -14, -2));
    assert!(!is_solid(&s, -1, -13, -2));
    assert!(is_solid(&s, -2, -1, -1));
    assert!(is_solid(&s, -16, -1, -16));
    assert!(!is_solid(&s, -17, -1, -16));
}

#[test]
fn eviction_makes_space_passable_again() {
    let mut s = ChunkStore::new();
    let c = ChunkCoordinate::new(2, 0, 2);
    s.get_or_generate(c, &uniform(8));
    assert!(is_solid(&s, 40, 7, 40));
    s.evict(c);
    assert!(!is_solid(&s, 40, 7, 40));
}
