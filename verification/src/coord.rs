//! Chunk-space and world-space integer coordinates.
//!
//! World coordinates are `i64`, chunk coordinates `i32`, local coordinates
//! lie in `[0, CHUNK_SIZE)`. A world coordinate `w` belongs to chunk
//! `floor(w / CHUNK_SIZE)` at local offset `w mod CHUNK_SIZE`, the remainder
//! being the non-negative one.

use vstd::prelude::*;

verus! {

/// Voxels along one edge of a chunk.
pub const CHUNK_SIZE: usize = 16;

/// Identifies one chunk in chunk space.
#[derive(Clone, Copy, Debug, PartialEq, Eq, Structural, Hash)]
pub struct ChunkCoordinate {
    pub x: i32,
    pub y: i32,
    pub z: i32,
}

/// The chunk index of a world coordinate: the floor of `w / 16`.
pub open spec fn chunk_index_of(w: int) -> int {
    w / 16
}

/// The local offset of a world coordinate: the non-negative remainder of `w / 16`.
pub open spec fn local_index_of(w: int) -> int {
    w % 16
}

/// The world coordinate of local offset `local` in chunk `chunk`.
pub open spec fn world_of(chunk: int, local: int) -> int {
    chunk * 16 + local
}

/// Chebyshev distance between two integer triples.
pub open spec fn chebyshev_of(a: ChunkCoordinate, b: ChunkCoordinate) -> int {
    let dx = if a.x >= b.x { a.x - b.x } else { b.x - a.x };
    let dy = if a.y >= b.y { a.y - b.y } else { b.y - a.y };
    let dz = if a.z >= b.z { a.z - b.z } else { b.z - a.z };
    if dx >= dy && dx >= dz {
        dx
    } else if dy >= dz {
        dy
    } else {
        dz
    }
}

/// Whether an integer is an `i32`.
pub open spec fn fits_i32(v: int) -> bool {
    -0x8000_0000 <= v <= 0x7fff_ffff
}

/// Floor division of a world coordinate by the chunk size.
pub fn chunk_index(w: i64) -> (r: i64)
    ensures
        r == chunk_index_of(w as int),
        r * 16 <= w < r * 16 + 16,
{
    if w >= 0 {
        w / 16
    } else {
        let below: i64 = -1 - w;
        -1 - below / 16
    }
}

/// Non-negative remainder of a world coordinate by the chunk size.
pub fn local_index(w: i64) -> (r: usize)
    ensures
        r == local_index_of(w as int),
        r < CHUNK_SIZE,
        world_of(chunk_index_of(w as int), r as int) == w,
{
    if w >= 0 {
        (w % 16) as usize
    } else {
        let below: i64 = -1 - w;
        (15 - below % 16) as usize
    }
}

/// Splitting a world coordinate into chunk and offset loses nothing, and the
/// offset of any coordinate built from a chunk and an in-range offset is that
/// offset again.
pub proof fn lemma_split_world(chunk: int, local: int)
    requires
        0 <= local < 16,
    ensures
        chunk_index_of(world_of(chunk, local)) == chunk,
        local_index_of(world_of(chunk, local)) == local,
{
}

impl ChunkCoordinate {
    pub fn new(x: i32, y: i32, z: i32) -> (c: ChunkCoordinate)
        ensures
            c == (ChunkCoordinate { x, y, z }),
    {
        ChunkCoordinate { x, y, z }
    }

    /// The chunk that holds the world point, where its indices are `i32`s.
    pub fn containing(wx: i64, wy: i64, wz: i64) -> (r: Option<ChunkCoordinate>)
        ensures
            r.is_some() <==> fits_i32(chunk_index_of(wx as int)) && fits_i32(
                chunk_index_of(wy as int),
            ) && fits_i32(chunk_index_of(wz as int)),
            r.is_some() ==> r.unwrap().x == chunk_index_of(wx as int) && r.unwrap().y
                == chunk_index_of(wy as int) && r.unwrap().z == chunk_index_of(wz as int),
    {
        let cx: i64 = chunk_index(wx);
        let cy: i64 = chunk_index(wy);
        let cz: i64 = chunk_index(wz);
        if in_i32(cx) && in_i32(cy) && in_i32(cz) {
            Some(ChunkCoordinate { x: cx as i32, y: cy as i32, z: cz as i32 })
        } else {
            None
        }
    }

    /// World coordinates of the chunk's lowest corner: the coordinate times
    /// the chunk size, per axis.
    pub fn origin(&self) -> (r: (i64, i64, i64))
        ensures
            r.0 == world_of(self.x as int, 0),
            r.1 == world_of(self.y as int, 0),
            r.2 == world_of(self.z as int, 0),
    {
        (self.x as i64 * 16, self.y as i64 * 16, self.z as i64 * 16)
    }

    /// Chebyshev distance to another chunk.
    pub fn chebyshev(&self, other: &ChunkCoordinate) -> (d: i64)
        ensures
            d == chebyshev_of(*self, *other),
            0 <= d <= 0xffff_ffff,
    {
        let dx: i64 = axis_distance(self.x, other.x);
        let dy: i64 = axis_distance(self.y, other.y);
        let dz: i64 = axis_distance(self.z, other.z);
        if dx >= dy && dx >= dz {
            dx
        } else if dy >= dz {
            dy
        } else {
            dz
        }
    }
}

/// World coordinate of a local offset within a chunk index.
pub fn world_coord(chunk: i32, local: usize) -> (w: i64)
    requires
        local < CHUNK_SIZE,
    ensures
        w == world_of(chunk as int, local as int),
{
    chunk as i64 * 16 + local as i64
}

fn in_i32(v: i64) -> (r: bool)
    ensures
        r == fits_i32(v as int),
{
    -0x8000_0000 <= v && v <= 0x7fff_ffff
}

fn axis_distance(a: i32, b: i32) -> (d: i64)
    ensures
        d == if a >= b { a - b } else { b - a },
        0 <= d <= 0xffff_ffff,
{
    if a >= b {
        a as i64 - b as i64
    } else {
        b as i64 - a as i64
    }
}

} // verus!
