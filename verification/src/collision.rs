//! Point occupancy queries against the resident chunks.

use vstd::prelude::*;
use crate::coord::ChunkCoordinate;
use crate::coord::chunk_index_of;
use crate::coord::local_index_of;
use crate::coord::local_index;
use crate::coord::world_of;
use crate::coord::fits_i32;
use crate::grid::cell_index;
use crate::grid::is_local;
use crate::store::ChunkStore;

verus! {

/// Whether the world point lies in a solid voxel of a resident chunk. A point
/// whose chunk is not resident, or has no coordinate, is not.
pub open spec fn solid_in(chunks: Map<ChunkCoordinate, Seq<bool>>, wx: int, wy: int, wz: int)
    -> bool {
    let cx = chunk_index_of(wx);
    let cy = chunk_index_of(wy);
    let cz = chunk_index_of(wz);
    let coord = ChunkCoordinate { x: cx as i32, y: cy as i32, z: cz as i32 };
    fits_i32(cx) && fits_i32(cy) && fits_i32(cz) && chunks.contains_key(coord) && chunks[coord][cell_index(
        local_index_of(wx),
        local_index_of(wy),
        local_index_of(wz),
    )]
}

/// Whether the world point `(wx, wy, wz)` is inside a solid voxel. Space
/// whose chunk is not resident is passable.
pub fn is_solid(store: &ChunkStore, wx: i64, wy: i64, wz: i64) -> (r: bool)
    requires
        store.wf(),
    ensures
        r == solid_in(store@, wx as int, wy as int, wz as int),
{
    match ChunkCoordinate::containing(wx, wy, wz) {
        Some(coord) => match store.get(coord) {
            Some(grid) => grid.is_solid(local_index(wx), local_index(wy), local_index(wz)),
            None => false,
        },
        None => false,
    }
}

/// A point is passable wherever the chunk that holds it is not resident; in
/// particular everywhere while nothing is resident.
pub proof fn lemma_unloaded_is_passable(
    chunks: Map<ChunkCoordinate, Seq<bool>>,
    wx: int,
    wy: int,
    wz: int,
)
    requires
        forall|c: ChunkCoordinate|
            c.x == chunk_index_of(wx) && c.y == chunk_index_of(wy) && c.z == chunk_index_of(wz)
                ==> !chunks.contains_key(c),
    ensures
        !solid_in(chunks, wx, wy, wz),
{
    let coord = ChunkCoordinate {
        x: chunk_index_of(wx) as i32,
        y: chunk_index_of(wy) as i32,
        z: chunk_index_of(wz) as i32,
    };
    if fits_i32(chunk_index_of(wx)) && fits_i32(chunk_index_of(wy)) && fits_i32(
        chunk_index_of(wz),
    ) {
        assert(!chunks.contains_key(coord));
    }
}

/// The point at local `(lx, ly, lz)` of chunk `coord` is solid exactly when
/// that chunk is resident and its voxel there is solid, for chunks at
/// negative coordinates as for others.
pub proof fn lemma_solid_in_chunk(
    chunks: Map<ChunkCoordinate, Seq<bool>>,
    coord: ChunkCoordinate,
    lx: int,
    ly: int,
    lz: int,
)
    requires
        is_local(lx),
        is_local(ly),
        is_local(lz),
    ensures
        solid_in(
            chunks,
            world_of(coord.x as int, lx),
            world_of(coord.y as int, ly),
            world_of(coord.z as int, lz),
        ) <==> chunks.contains_key(coord) && chunks[coord][cell_index(lx, ly, lz)],
{
    let cx = chunk_index_of(world_of(coord.x as int, lx));
    let cy = chunk_index_of(world_of(coord.y as int, ly));
    let cz = chunk_index_of(world_of(coord.z as int, lz));
    assert(cx == coord.x && cy == coord.y && cz == coord.z);
    assert(coord == ChunkCoordinate { x: cx as i32, y: cy as i32, z: cz as i32 });
}

} // verus!
