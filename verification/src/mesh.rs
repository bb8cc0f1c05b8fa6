//! Triangle geometry of a grid: one unit cube per solid voxel, no face
//! culled, cells visited in flat order (x-major, then y, then z).

use vstd::prelude::*;
use crate::coord::CHUNK_SIZE;
use crate::grid::VoxelGrid;
use crate::grid::cell_index;
use crate::grid::cell_x;
use crate::grid::cell_y;
use crate::grid::cell_z;
use crate::grid::solid_count_of;
use crate::grid::lemma_cell_index;
use crate::grid::lemma_solid_count_bound;

verus! {

/// A position or a direction on the integer lattice.
pub type Point = (i32, i32, i32);

/// The eight corners of the unit cube whose lowest corner is `(x, y, z)`:
/// the four of the near face counter-clockwise, then the four of the far face.
pub open spec fn cube_vertices(x: int, y: int, z: int) -> Seq<Point> {
    seq![
        (x as i32, y as i32, z as i32),
        ((x + 1) as i32, y as i32, z as i32),
        ((x + 1) as i32, (y + 1) as i32, z as i32),
        (x as i32, (y + 1) as i32, z as i32),
        (x as i32, y as i32, (z + 1) as i32),
        ((x + 1) as i32, y as i32, (z + 1) as i32),
        ((x + 1) as i32, (y + 1) as i32, (z + 1) as i32),
        (x as i32, (y + 1) as i32, (z + 1) as i32),
    ]
}

/// Corner numbers of the twelve triangles of a cube, two per face: front,
/// right, back, left, top, bottom.
pub open spec fn cube_pattern() -> Seq<int> {
    seq![
        0, 1, 2, 2, 3, 0,
        1, 5, 6, 6, 2, 1,
        5, 4, 7, 7, 6, 5,
        4, 0, 3, 3, 7, 4,
        3, 2, 6, 6, 7, 3,
        4, 5, 1, 1, 0, 4,
    ]
}

/// The 36 indices of a cube whose first corner is vertex number `start`.
pub open spec fn cube_indices(start: int) -> Seq<u32> {
    Seq::new(36, |i: int| (start + cube_pattern()[i]) as u32)
}

/// One normal per corner: the near face's for its four corners, the far
/// face's for the other four.
pub open spec fn cube_normals() -> Seq<Point> {
    seq![
        (0i32, 0i32, -1i32),
        (0i32, 0i32, -1i32),
        (0i32, 0i32, -1i32),
        (0i32, 0i32, -1i32),
        (0i32, 0i32, 1i32),
        (0i32, 0i32, 1i32),
        (0i32, 0i32, 1i32),
        (0i32, 0i32, 1i32),
    ]
}

/// Vertices of the cubes of the solid voxels among the first `n` cells.
pub open spec fn mesh_vertices(cells: Seq<bool>, n: nat) -> Seq<Point>
    decreases n,
{
    if n == 0 {
        Seq::empty()
    } else {
        let i = n - 1;
        let before = mesh_vertices(cells, i as nat);
        if cells[i] {
            before + cube_vertices(cell_x(i), cell_y(i), cell_z(i))
        } else {
            before
        }
    }
}

/// Indices of the cubes of the solid voxels among the first `n` cells.
pub open spec fn mesh_indices(cells: Seq<bool>, n: nat) -> Seq<u32>
    decreases n,
{
    if n == 0 {
        Seq::empty()
    } else {
        let i = n - 1;
        let before = mesh_indices(cells, i as nat);
        if cells[i] {
            before + cube_indices((8 * solid_count_of(cells, i as nat)) as int)
        } else {
            before
        }
    }
}

/// Normals of the cubes of the solid voxels among the first `n` cells.
pub open spec fn mesh_normals(cells: Seq<bool>, n: nat) -> Seq<Point>
    decreases n,
{
    if n == 0 {
        Seq::empty()
    } else {
        let i = n - 1;
        let before = mesh_normals(cells, i as nat);
        if cells[i] {
            before + cube_normals()
        } else {
            before
        }
    }
}

/// With `K` solid voxels among the first `n` cells of at most a chunk, the
/// geometry has `8K` vertices, `36K` indices and `8K` normals, and every index
/// names one of the vertices.
pub proof fn lemma_mesh_shape(cells: Seq<bool>, n: nat)
    requires
        n <= 4096,
    ensures
        mesh_vertices(cells, n).len() == 8 * solid_count_of(cells, n),
        mesh_indices(cells, n).len() == 36 * solid_count_of(cells, n),
        mesh_normals(cells, n).len() == 8 * solid_count_of(cells, n),
        forall|j: int|
            0 <= j < mesh_indices(cells, n).len() ==> (#[trigger] mesh_indices(cells, n)[j]) < 8
                * solid_count_of(cells, n),
    decreases n,
{
    if n > 0 {
        let i = (n - 1) as nat;
        lemma_mesh_shape(cells, i);
        lemma_solid_count_bound(cells, i);
        if cells[i as int] {
            let start = 8 * solid_count_of(cells, i);
            let before = mesh_indices(cells, i);
            lemma_cube_indices(start as int);
            assert forall|j: int| 0 <= j < mesh_indices(cells, n).len() implies (
            #[trigger] mesh_indices(cells, n)[j]) < 8 * solid_count_of(cells, n) by {
                if j >= before.len() {
                    assert(mesh_indices(cells, n)[j] == cube_indices(start as int)[j
                        - before.len()]);
                }
            }
        }
    }
}

/// The indices of one cube name its own eight corners.
pub proof fn lemma_cube_indices(start: int)
    requires
        0 <= start <= 0xffff_fff0,
    ensures
        cube_indices(start).len() == 36,
        forall|j: int|
            0 <= j < 36 ==> start <= (#[trigger] cube_indices(start)[j]) < start + 8,
{
    assert forall|j: int| 0 <= j < 36 implies start <= (#[trigger] cube_indices(start)[j]) < start
        + 8 by {
        assert(0 <= cube_pattern()[j] < 8);
    }
}

/// Vertex positions, triangle indices into them, and one normal per vertex.
#[derive(Clone, Debug)]
pub struct Mesh {
    pub vertices: Vec<Point>,
    pub indices: Vec<u32>,
    pub normals: Vec<Point>,
}

fn push_triangle(indices: &mut Vec<u32>, a: u32, b: u32, c: u32)
    ensures
        final(indices)@ == old(indices)@.push(a).push(b).push(c),
{
    indices.push(a);
    indices.push(b);
    indices.push(c);
}

impl Mesh {
    /// A mesh without geometry.
    pub fn new() -> (mesh: Mesh)
        ensures
            mesh.vertices@.len() == 0,
            mesh.indices@.len() == 0,
            mesh.normals@.len() == 0,
    {
        Mesh { vertices: Vec::new(), indices: Vec::new(), normals: Vec::new() }
    }

    /// Appends the unit cube whose lowest corner is `(x, y, z)`; its indices
    /// count from the number of vertices held before.
    pub fn add_cube(&mut self, x: i32, y: i32, z: i32)
        requires
            old(self).vertices@.len() <= 0xffff_fff0,
            x < i32::MAX,
            y < i32::MAX,
            z < i32::MAX,
        ensures
            final(self).vertices@ == old(self).vertices@ + cube_vertices(
                x as int,
                y as int,
                z as int,
            ),
            final(self).indices@ == old(self).indices@ + cube_indices(
                old(self).vertices@.len() as int,
            ),
            final(self).normals@ == old(self).normals@ + cube_normals(),
    {
        let s: u32 = self.vertices.len() as u32;
        self.vertices.push((x, y, z));
        self.vertices.push((x + 1, y, z));
        self.vertices.push((x + 1, y + 1, z));
        self.vertices.push((x, y + 1, z));
        self.vertices.push((x, y, z + 1));
        self.vertices.push((x + 1, y, z + 1));
        self.vertices.push((x + 1, y + 1, z + 1));
        self.vertices.push((x, y + 1, z + 1));
        push_triangle(&mut self.indices, s, s + 1, s + 2);
        push_triangle(&mut self.indices, s + 2, s + 3, s);
        push_triangle(&mut self.indices, s + 1, s + 5, s + 6);
        push_triangle(&mut self.indices, s + 6, s + 2, s + 1);
        push_triangle(&mut self.indices, s + 5, s + 4, s + 7);
        push_triangle(&mut self.indices, s + 7, s + 6, s + 5);
        push_triangle(&mut self.indices, s + 4, s, s + 3);
        push_triangle(&mut self.indices, s + 3, s + 7, s + 4);
        push_triangle(&mut self.indices, s + 3, s + 2, s + 6);
        push_triangle(&mut self.indices, s + 6, s + 7, s + 3);
        push_triangle(&mut self.indices, s + 4, s + 5, s + 1);
        push_triangle(&mut self.indices, s + 1, s, s + 4);
        self.normals.push((0, 0, -1));
        self.normals.push((0, 0, -1));
        self.normals.push((0, 0, -1));
        self.normals.push((0, 0, -1));
        self.normals.push((0, 0, 1));
        self.normals.push((0, 0, 1));
        self.normals.push((0, 0, 1));
        self.normals.push((0, 0, 1));
        proof {
            assert(self.vertices@ =~= old(self).vertices@ + cube_vertices(
                x as int,
                y as int,
                z as int,
            ));
            assert(self.indices@ =~= old(self).indices@ + cube_indices(
                old(self).vertices@.len() as int,
            ));
            assert(self.normals@ =~= old(self).normals@ + cube_normals());
        }
    }

    /// Builds the geometry of a grid: for each solid voxel, whatever its
    /// neighbours, one cube at its local coordinate.
    pub fn build(grid: &VoxelGrid) -> (mesh: Mesh)
        requires
            grid.wf(),
        ensures
            mesh.vertices@ == mesh_vertices(grid@, 4096),
            mesh.indices@ == mesh_indices(grid@, 4096),
            mesh.normals@ == mesh_normals(grid@, 4096),
            mesh.vertices@.len() == 8 * solid_count_of(grid@, 4096),
            mesh.indices@.len() == 36 * solid_count_of(grid@, 4096),
            mesh.normals@.len() == 8 * solid_count_of(grid@, 4096),
            forall|j: int|
                0 <= j < mesh.indices@.len() ==> (#[trigger] mesh.indices@[j])
                    < mesh.vertices@.len(),
    {
        let mut mesh = Mesh::new();
        let mut x: usize = 0;
        while x < CHUNK_SIZE
            invariant
                x <= CHUNK_SIZE,
                grid.wf(),
                mesh.vertices@ == mesh_vertices(grid@, cell_index(x as int, 0, 0) as nat),
                mesh.indices@ == mesh_indices(grid@, cell_index(x as int, 0, 0) as nat),
                mesh.normals@ == mesh_normals(grid@, cell_index(x as int, 0, 0) as nat),
            decreases CHUNK_SIZE - x,
        {
            let mut y: usize = 0;
            while y < CHUNK_SIZE
                invariant
                    x < CHUNK_SIZE,
                    y <= CHUNK_SIZE,
                    grid.wf(),
                    mesh.vertices@ == mesh_vertices(
                        grid@,
                        cell_index(x as int, y as int, 0) as nat,
                    ),
                    mesh.indices@ == mesh_indices(grid@, cell_index(x as int, y as int, 0) as nat),
                    mesh.normals@ == mesh_normals(grid@, cell_index(x as int, y as int, 0) as nat),
                decreases CHUNK_SIZE - y,
            {
                let mut z: usize = 0;
                while z < CHUNK_SIZE
                    invariant
                        x < CHUNK_SIZE,
                        y < CHUNK_SIZE,
                        z <= CHUNK_SIZE,
                        grid.wf(),
                        mesh.vertices@ == mesh_vertices(
                            grid@,
                            cell_index(x as int, y as int, z as int) as nat,
                        ),
                        mesh.indices@ == mesh_indices(
                            grid@,
                            cell_index(x as int, y as int, z as int) as nat,
                        ),
                        mesh.normals@ == mesh_normals(
                            grid@,
                            cell_index(x as int, y as int, z as int) as nat,
                        ),
                    decreases CHUNK_SIZE - z,
                {
                    proof {
                        let i = cell_index(x as int, y as int, z as int);
                        lemma_cell_index(x as int, y as int, z as int);
                        lemma_mesh_shape(grid@, i as nat);
                        lemma_solid_count_bound(grid@, i as nat);
                        assert(cell_index(x as int, y as int, z as int + 1) == i + 1);
                    }
                    if grid.is_solid(x, y, z) {
                        mesh.add_cube(x as i32, y as i32, z as i32);
                    }
                    z = z + 1;
                }
                y = y + 1;
            }
            x = x + 1;
        }
        proof {
            lemma_mesh_shape(grid@, 4096);
        }
        mesh
    }
}

} // verus!
