//! The resident chunks: at most one grid per chunk coordinate, generated on
//! first request and kept until evicted.

use std::collections::HashMap;
use vstd::prelude::*;
use crate::coord::ChunkCoordinate;
use crate::grid::ColumnHeights;
use crate::grid::VoxelGrid;
use crate::grid::generated_cells;

verus! {

/// The integer under which a chunk is filed: its three components, each
/// shifted to be non-negative, as the digits of a number in base 2^32.
pub open spec fn key_of(c: ChunkCoordinate) -> int {
    ((c.x + 0x8000_0000) * 0x1_0000_0000 + (c.y + 0x8000_0000)) * 0x1_0000_0000 + (c.z
        + 0x8000_0000)
}

/// Distinct chunks are filed under distinct integers.
pub proof fn lemma_key_injective(a: ChunkCoordinate, b: ChunkCoordinate)
    ensures
        key_of(a) == key_of(b) <==> a == b,
        0 <= key_of(a) < 0x1_0000_0000_0000_0000_0000_0000,
{
}

/// What a store holds after a request for `coord`: what it held, and the
/// generated grid of `coord` if it held none for it.
pub open spec fn after_request(
    chunks: Map<ChunkCoordinate, Seq<bool>>,
    coord: ChunkCoordinate,
    heights: Seq<i32>,
) -> Map<ChunkCoordinate, Seq<bool>> {
    if chunks.contains_key(coord) {
        chunks
    } else {
        chunks.insert(coord, generated_cells(coord, heights))
    }
}

/// The grid that a request for `coord` answers with: the resident one, else
/// the generated one.
pub open spec fn requested_cells(
    chunks: Map<ChunkCoordinate, Seq<bool>>,
    coord: ChunkCoordinate,
    heights: Seq<i32>,
) -> Seq<bool> {
    if chunks.contains_key(coord) {
        chunks[coord]
    } else {
        generated_cells(coord, heights)
    }
}

/// Asking twice for the same chunk, with nothing evicted in between, gives
/// the same cells both times and leaves the store as the first request left
/// it, whatever heights the second request brings.
pub proof fn lemma_request_idempotent(
    chunks: Map<ChunkCoordinate, Seq<bool>>,
    coord: ChunkCoordinate,
    first: Seq<i32>,
    second: Seq<i32>,
)
    ensures
        requested_cells(after_request(chunks, coord, first), coord, second) == requested_cells(
            chunks,
            coord,
            first,
        ),
        after_request(after_request(chunks, coord, first), coord, second) == after_request(
            chunks,
            coord,
            first,
        ),
{
}

/// Evicting a chunk and asking for it again with the same heights gives the
/// cells that generation gives.
pub proof fn lemma_regenerate_after_evict(
    chunks: Map<ChunkCoordinate, Seq<bool>>,
    coord: ChunkCoordinate,
    heights: Seq<i32>,
)
    ensures
        requested_cells(chunks.remove(coord), coord, heights) == generated_cells(coord, heights),
        !chunks.contains_key(coord) ==> requested_cells(chunks, coord, heights)
            == requested_cells(chunks.remove(coord), coord, heights),
{
}

fn key(coord: ChunkCoordinate) -> (k: u128)
    ensures
        k == key_of(coord),
{
    let x: u128 = (coord.x as i64 + 0x8000_0000) as u128;
    let y: u128 = (coord.y as i64 + 0x8000_0000) as u128;
    let z: u128 = (coord.z as i64 + 0x8000_0000) as u128;
    (x * 0x1_0000_0000 + y) * 0x1_0000_0000 + z
}

/// Maps chunk coordinates to their grids and owns every resident grid.
pub struct ChunkStore {
    chunks: HashMap<u128, VoxelGrid>,
}

impl ChunkStore {
    /// The resident chunks, each with its cells in flat order.
    pub closed spec fn view(&self) -> Map<ChunkCoordinate, Seq<bool>> {
        Map::new(
            |c: ChunkCoordinate| self.chunks@.contains_key(key_of(c) as u128),
            |c: ChunkCoordinate| self.chunks@[key_of(c) as u128]@,
        )
    }

    /// Every resident grid is a whole grid.
    pub closed spec fn wf(&self) -> bool {
        forall|k: u128| #[trigger] self.chunks@.contains_key(k) ==> self.chunks@[k].wf()
    }

    /// Every resident grid has a cell for each local coordinate.
    pub proof fn lemma_resident_grids_whole(&self, coord: ChunkCoordinate)
        requires
            self.wf(),
            self@.contains_key(coord),
        ensures
            self@[coord].len() == 4096,
    {
    }

    /// A store with no chunk resident.
    pub fn new() -> (store: ChunkStore)
        ensures
            store.wf(),
            store@ == Map::<ChunkCoordinate, Seq<bool>>::empty(),
    {
        let store = ChunkStore { chunks: HashMap::new() };
        assert(store@ =~= Map::<ChunkCoordinate, Seq<bool>>::empty());
        store
    }

    /// Whether a grid is resident for `coord`.
    pub fn contains(&self, coord: ChunkCoordinate) -> (r: bool)
        ensures
            r == self@.contains_key(coord),
    {
        let k: u128 = key(coord);
        self.chunks.contains_key(&k)
    }

    /// The resident grid of `coord`, if there is one.
    pub fn get(&self, coord: ChunkCoordinate) -> (r: Option<&VoxelGrid>)
        requires
            self.wf(),
        ensures
            r.is_some() <==> self@.contains_key(coord),
            r.is_some() ==> r.unwrap()@ == self@[coord] && r.unwrap().wf(),
    {
        let k: u128 = key(coord);
        self.chunks.get(&k)
    }

    /// The grid of `coord`: the resident one where there is one, untouched and
    /// with `heights` ignored; else the one generated from `heights`, which
    /// becomes resident.
    pub fn get_or_generate(&mut self, coord: ChunkCoordinate, heights: &ColumnHeights) -> (grid:
        &VoxelGrid)
        requires
            old(self).wf(),
            heights.wf(),
        ensures
            final(self).wf(),
            final(self)@ == after_request(old(self)@, coord, heights@),
            grid@ == requested_cells(old(self)@, coord, heights@),
            grid@ == final(self)@[coord],
            grid.wf(),
    {
        let k: u128 = key(coord);
        if !self.chunks.contains_key(&k) {
            let fresh = VoxelGrid::generate(coord, heights);
            self.chunks.insert(k, fresh);
            proof {
                assert forall|c: ChunkCoordinate| c != coord implies key_of(c) as u128 != k by {
                    lemma_key_injective(c, coord);
                }
                assert(self@ =~= old(self)@.insert(coord, generated_cells(coord, heights@)));
            }
        }
        self.chunks.get(&k).unwrap()
    }

    /// Removes the grid of `coord` if one is resident; changes nothing
    /// otherwise.
    pub fn evict(&mut self, coord: ChunkCoordinate)
        requires
            old(self).wf(),
        ensures
            final(self).wf(),
            final(self)@ == old(self)@.remove(coord),
    {
        let k: u128 = key(coord);
        self.chunks.remove(&k);
        proof {
            assert forall|c: ChunkCoordinate| c != coord implies key_of(c) as u128 != k by {
                lemma_key_injective(c, coord);
            }
            assert(self@ =~= old(self)@.remove(coord));
        }
    }
}

} // verus!
