//! Column heights and the dense occupancy grid of one chunk.
//!
//! A grid is a flat sequence of `CHUNK_VOLUME` booleans; the voxel at local
//! `(lx, ly, lz)` is stored at `cell_index(lx, ly, lz)`, so the flat order is
//! x-major, then y, then z.

use vstd::prelude::*;
use crate::coord::ChunkCoordinate;
use crate::coord::world_of;
use crate::coord::world_coord;
use crate::coord::CHUNK_SIZE;

verus! {

/// Columns in one chunk.
pub const CHUNK_AREA: usize = 256;

/// Voxels in one chunk.
pub const CHUNK_VOLUME: usize = 4096;

/// Flat position of a column's height.
pub open spec fn column_index(lx: int, lz: int) -> int {
    lx * 16 + lz
}

/// Flat position of a voxel.
pub open spec fn cell_index(lx: int, ly: int, lz: int) -> int {
    (lx * 16 + ly) * 16 + lz
}

/// Local x of a flat voxel position.
pub open spec fn cell_x(i: int) -> int {
    i / 256
}

/// Local y of a flat voxel position.
pub open spec fn cell_y(i: int) -> int {
    (i / 16) % 16
}

/// Local z of a flat voxel position.
pub open spec fn cell_z(i: int) -> int {
    i % 16
}

/// Whether a local coordinate lies inside a chunk.
pub open spec fn is_local(l: int) -> bool {
    0 <= l < 16
}

/// The occupancy of the chunk at `coord` over the given column heights: a
/// voxel is solid exactly when its world y lies below its column's height.
pub open spec fn generated_cells(coord: ChunkCoordinate, heights: Seq<i32>) -> Seq<bool> {
    Seq::new(
        4096,
        |i: int| world_of(coord.y as int, cell_y(i)) < heights[column_index(cell_x(i), cell_z(i))],
    )
}

/// Number of solid voxels among the first `n` cells.
pub open spec fn solid_count_of(cells: Seq<bool>, n: nat) -> nat
    decreases n,
{
    if n == 0 {
        0
    } else {
        solid_count_of(cells, (n - 1) as nat) + if cells[n - 1] {
            1nat
        } else {
            0nat
        }
    }
}

/// A flat voxel position and its local coordinates determine each other.
pub proof fn lemma_cell_index(lx: int, ly: int, lz: int)
    requires
        is_local(lx),
        is_local(ly),
        is_local(lz),
    ensures
        0 <= cell_index(lx, ly, lz) < 4096,
        cell_x(cell_index(lx, ly, lz)) == lx,
        cell_y(cell_index(lx, ly, lz)) == ly,
        cell_z(cell_index(lx, ly, lz)) == lz,
{
}

/// No more voxels are solid than there are cells.
pub proof fn lemma_solid_count_bound(cells: Seq<bool>, n: nat)
    ensures
        solid_count_of(cells, n) <= n,
    decreases n,
{
    if n > 0 {
        lemma_solid_count_bound(cells, (n - 1) as nat);
    }
}

/// Terrain heights of the 16 x 16 columns of one chunk, one per local
/// `(lx, lz)`.
#[derive(Clone, Debug)]
pub struct ColumnHeights {
    values: Vec<i32>,
}

impl ColumnHeights {
    /// The heights as a flat sequence, the column `(lx, lz)` at
    /// `column_index(lx, lz)`.
    pub closed spec fn view(&self) -> Seq<i32> {
        self.values@
    }

    pub open spec fn wf(&self) -> bool {
        self@.len() == 256
    }

    /// The height of column `(lx, lz)`.
    pub open spec fn height_of(&self, lx: int, lz: int) -> int {
        self@[column_index(lx, lz)] as int
    }

    /// Takes the heights of all columns, x-major; `None` unless there are
    /// exactly `CHUNK_AREA` of them.
    pub fn from_vec(values: Vec<i32>) -> (r: Option<ColumnHeights>)
        ensures
            r.is_some() <==> values@.len() == 256,
            r.is_some() ==> r.unwrap()@ == values@ && r.unwrap().wf(),
    {
        if values.len() == CHUNK_AREA {
            Some(ColumnHeights { values })
        } else {
            None
        }
    }

    pub fn height(&self, lx: usize, lz: usize) -> (h: i32)
        requires
            self.wf(),
            lx < CHUNK_SIZE,
            lz < CHUNK_SIZE,
        ensures
            h == self.height_of(lx as int, lz as int),
    {
        self.values[lx * 16 + lz]
    }
}

/// Occupancy of one chunk: solid or empty for each local coordinate.
#[derive(Clone, Debug)]
pub struct VoxelGrid {
    cells: Vec<bool>,
}

impl VoxelGrid {
    /// The cells as a flat sequence, the voxel `(lx, ly, lz)` at
    /// `cell_index(lx, ly, lz)`.
    pub closed spec fn view(&self) -> Seq<bool> {
        self.cells@
    }

    pub open spec fn wf(&self) -> bool {
        self@.len() == 4096
    }

    /// Whether the voxel at local `(lx, ly, lz)` is solid.
    pub open spec fn solid_at(&self, lx: int, ly: int, lz: int) -> bool {
        self@[cell_index(lx, ly, lz)]
    }

    /// Takes the cells in flat order; `None` unless there are exactly
    /// `CHUNK_VOLUME` of them.
    pub fn from_cells(cells: Vec<bool>) -> (r: Option<VoxelGrid>)
        ensures
            r.is_some() <==> cells@.len() == 4096,
            r.is_some() ==> r.unwrap()@ == cells@ && r.unwrap().wf(),
    {
        if cells.len() == CHUNK_VOLUME {
            Some(VoxelGrid { cells })
        } else {
            None
        }
    }

    /// Fills the grid of the chunk at `coord`: one height per column, read
    /// once and used for the whole column.
    pub fn generate(coord: ChunkCoordinate, heights: &ColumnHeights) -> (grid: VoxelGrid)
        requires
            heights.wf(),
        ensures
            grid.wf(),
            grid@ == generated_cells(coord, heights@),
            forall|lx: int, ly: int, lz: int|
                is_local(lx) && is_local(ly) && is_local(lz) ==> (#[trigger] grid.solid_at(
                    lx,
                    ly,
                    lz,
                ) <==> world_of(coord.y as int, ly) < heights.height_of(lx, lz)),
    {
        let mut cells: Vec<bool> = Vec::new();
        let mut n: usize = 0;
        while n < CHUNK_VOLUME
            invariant
                n <= CHUNK_VOLUME,
                cells@.len() == n,
            decreases CHUNK_VOLUME - n,
        {
            cells.push(false);
            n = n + 1;
        }
        let mut x: usize = 0;
        while x < CHUNK_SIZE
            invariant
                x <= CHUNK_SIZE,
                heights.wf(),
                cells@.len() == 4096,
                forall|i: int|
                    0 <= i < 4096 && cell_x(i) < x ==> cells@[i] == generated_cells(
                        coord,
                        heights@,
                    )[i],
            decreases CHUNK_SIZE - x,
        {
            let mut z: usize = 0;
            while z < CHUNK_SIZE
                invariant
                    x < CHUNK_SIZE,
                    z <= CHUNK_SIZE,
                    heights.wf(),
                    cells@.len() == 4096,
                    forall|i: int|
                        0 <= i < 4096 && (cell_x(i) < x || (cell_x(i) == x && cell_z(i) < z))
                            ==> cells@[i] == generated_cells(coord, heights@)[i],
                decreases CHUNK_SIZE - z,
            {
                let height: i64 = heights.height(x, z) as i64;
                let mut y: usize = 0;
                while y < CHUNK_SIZE
                    invariant
                        x < CHUNK_SIZE,
                        z < CHUNK_SIZE,
                        y <= CHUNK_SIZE,
                        height == heights.height_of(x as int, z as int),
                        cells@.len() == 4096,
                        forall|i: int|
                            0 <= i < 4096 && (cell_x(i) < x || (cell_x(i) == x && (cell_z(i) < z
                                || (cell_z(i) == z && cell_y(i) < y)))) ==> cells@[i]
                                == generated_cells(coord, heights@)[i],
                    decreases CHUNK_SIZE - y,
                {
                    let world_y: i64 = world_coord(coord.y, y);
                    proof {
                        lemma_cell_index(x as int, y as int, z as int);
                    }
                    cells.set((x * 16 + y) * 16 + z, world_y < height);
                    y = y + 1;
                }
                z = z + 1;
            }
            x = x + 1;
        }
        let grid = VoxelGrid { cells };
        proof {
            assert(grid@ =~= generated_cells(coord, heights@));
            assert forall|lx: int, ly: int, lz: int|
                is_local(lx) && is_local(ly) && is_local(lz) implies (#[trigger] grid.solid_at(
                lx,
                ly,
                lz,
            ) <==> world_of(coord.y as int, ly) < heights.height_of(lx, lz)) by {
                lemma_cell_index(lx, ly, lz);
            }
        }
        grid
    }

    /// Whether the voxel at local `(lx, ly, lz)` is solid.
    pub fn is_solid(&self, lx: usize, ly: usize, lz: usize) -> (r: bool)
        requires
            self.wf(),
            lx < CHUNK_SIZE,
            ly < CHUNK_SIZE,
            lz < CHUNK_SIZE,
        ensures
            r == self.solid_at(lx as int, ly as int, lz as int),
    {
        self.cells[(lx * 16 + ly) * 16 + lz]
    }

    /// Number of solid voxels in the grid.
    pub fn solid_count(&self) -> (k: usize)
        requires
            self.wf(),
        ensures
            k == solid_count_of(self@, 4096),
            k <= 4096,
    {
        let mut k: usize = 0;
        let mut i: usize = 0;
        while i < CHUNK_VOLUME
            invariant
                i <= CHUNK_VOLUME,
                self.cells@.len() == 4096,
                k == solid_count_of(self.cells@, i as nat),
                k <= i,
            decreases CHUNK_VOLUME - i,
        {
            if self.cells[i] {
                k = k + 1;
            }
            i = i + 1;
        }
        k
    }
}

/// The generated cell at a local coordinate is solid exactly when the voxel's
/// world y lies below the height of its column.
pub proof fn lemma_generated_cell(
    coord: ChunkCoordinate,
    heights: Seq<i32>,
    lx: int,
    ly: int,
    lz: int,
)
    requires
        heights.len() == 256,
        is_local(lx),
        is_local(ly),
        is_local(lz),
    ensures
        generated_cells(coord, heights)[cell_index(lx, ly, lz)] <==> world_of(coord.y as int, ly)
            < heights[column_index(lx, lz)],
{
    lemma_cell_index(lx, ly, lz);
}

} // verus!
