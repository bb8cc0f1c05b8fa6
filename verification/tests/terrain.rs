use noise::{NoiseFn, Perlin};
use voxel_terrain::collision::is_solid;
use voxel_terrain::coord::{world_coord, ChunkCoordinate};
use voxel_terrain::grid::ColumnHeights;
use voxel_terrain::store::ChunkStore;

fn height(perlin: &Perlin, world_x: i64, world_z: i64) -> i32 {
    (perlin.get([world_x as f64 * 0.01, world_z as f64 * 0.01]) * 32.0 + 32.0).floor() as i32
}

fn heights_of(perlin: &Perlin, coord: ChunkCoordinate) -> ColumnHeights {
    let mut v = Vec::new();
    for lx in 0..16 {
        for lz in 0..16 {
            v.push(height(perlin, world_coord(coord.x, lx), world_coord(coord.z, lz)));
        }
    }
    ColumnHeights::from_vec(v).unwrap()
}

#[test]
fn height_is_the_same_for_the_same_seed() {
    let a = Perlin::new(0);
    let b = Perlin::new(0);
    for x in [-300i64, -17, -1, 0, 1, 16, 250, 100000] {
        for z in [-64i64, 0, 3, 999] {
            assert_eq!(height(&a, x, z), height(&a, x, z));
            assert_eq!(height(&a, x, z), height(&b, x, z));
        }
    }
}

#[test]
fn height_at_the_origin_is_the_offset() {
    assert_eq!(height(&Perlin::new(0), 0, 0), 32);
}

#[test]
fn origin_column_is_solid_below_its_height() {
    let perlin = Perlin::new(0);
    let h = height(&perlin, 0, 0) as i64;
    for cy in 0..4 {
        let c = ChunkCoordinate::new(0, cy, 0);
        let mut s = ChunkStore::new();
        let first: Vec<bool> = {
            let g = s.get_or_generate(c, &heights_of(&perlin, c));
            (0..16).map(|y| g.is_solid(0, y, 0)).collect()
        };
        for y in 0..16usize {
            assert_eq!(first[y], cy as i64 * 16 + (y as i64) < h);
        }
        s.evict(c);
        assert!(!s.contains(c));
        let again = Perlin::new(0);
        assert_eq!(height(&again, 0, 0) as i64, h);
        let g = s.get_or_generate(c, &heights_of(&again, c));
        for y in 0..16usize {
            assert_eq!(g.is_solid(0, y, 0), first[y]);
        }
    }
}

#[test]
fn regenerated_chunk_has_the_same_occupancy() {
    let perlin = Perlin::new(0);
    let c = ChunkCoordinate::new(-3, 1, 7);
    let mut s = ChunkStore::new();
    let mut first = Vec::new();
    {
        let g = s.get_or_generate(c, &heights_of(&perlin, c));
        for x in 0..16 {
            for y in 0..16 {
                for z in 0..16 {
                    first.push(g.is_solid(x, y, z));
                }
            }
        }
    }
    s.evict(c);
    let g = s.get_or_generate(c, &heights_of(&Perlin::new(0), c));
    let mut k = 0;
    for x in 0..16 {
        for y in 0..16 {
            for z in 0..16 {
                assert_eq!(g.is_solid(x, y, z), first[k]);
                k += 1;
            }
        }
    }
}

#[test]
fn collision_follows_the_terrain_surface() {
    let perlin = Perlin::new(0);
    let mut s = ChunkStore::new();
    for cx in -1..1 {
        for cy in 0..4 {
            for cz in -1..1 {
                let c = ChunkCoordinate::new(cx, cy, cz);
                s.get_or_generate(c, &heights_of(&perlin, c));
            }
        }
    }
    for (x, z) in [(0i64, 0i64), (-1, -1), (-16, 15), (7, -9), (15, 15)] {
        let h = height(&perlin, x, z) as i64;
        assert!(h > 0 && h < 64);
        assert!(is_solid(&s, x, h - 1, z));
        assert!(!is_solid(&s, x, h, z));
        assert!(is_solid(&s, x, 0, z));
        assert!(!is_solid(&s, x, 63, z));
        assert!(!is_solid(&s, x, -1, z));
    }
}
