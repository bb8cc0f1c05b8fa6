//! The per-tick streaming decision: which chunks to stop rendering and which
//! to start rendering, given the observer's chunk.
//!
//! The controller keeps the list of rendered chunks. An update moves that
//! list to the cube of chunks within the render distance of the observer and
//! reports the difference; resident voxel data is left alone.

use vstd::prelude::*;
use vstd::seq_lib::lemma_seq_contains_after_push;
use vstd::seq_lib::lemma_seq_concat_contains_all_elements;
use crate::coord::ChunkCoordinate;
use crate::coord::chebyshev_of;
use crate::coord::world_of;
use crate::grid::ColumnHeights;
use crate::mesh::Mesh;
use crate::mesh::mesh_vertices;
use crate::mesh::mesh_indices;
use crate::mesh::mesh_normals;
use crate::store::ChunkStore;
use crate::store::after_request;
use crate::store::requested_cells;

verus! {

/// Chunk radius that is rendered around the observer unless another is chosen.
pub const RENDER_DISTANCE: u32 = 3;

/// Whether chunk `c` lies within Chebyshev distance `r` of chunk `o`.
pub open spec fn in_range(c: ChunkCoordinate, o: ChunkCoordinate, r: int) -> bool {
    chebyshev_of(c, o) <= r
}

/// The chunks within distance `r` of `o`, as a predicate.
pub open spec fn inside(o: ChunkCoordinate, r: int) -> spec_fn(ChunkCoordinate) -> bool {
    |c: ChunkCoordinate| in_range(c, o, r)
}

/// The chunks farther than `r` from `o`, as a predicate.
pub open spec fn outside(o: ChunkCoordinate, r: int) -> spec_fn(ChunkCoordinate) -> bool {
    |c: ChunkCoordinate| !in_range(c, o, r)
}

/// Lexicographic order on `(x, y, z)`.
pub open spec fn lex_before(a: ChunkCoordinate, b: ChunkCoordinate) -> bool {
    a.x < b.x || (a.x == b.x && (a.y < b.y || (a.y == b.y && a.z < b.z)))
}

/// Whether a sequence of chunks ascends strictly in lexicographic order.
pub open spec fn ascending(s: Seq<ChunkCoordinate>) -> bool {
    forall|i: int, j: int| 0 <= i < j < s.len() ==> lex_before(#[trigger] s[i], #[trigger] s[j])
}

spec fn before_cursor(c: ChunkCoordinate, x: int, y: int, z: int) -> bool {
    c.x < x || (c.x == x && (c.y < y || (c.y == y && c.z < z)))
}

proof fn lemma_filter_members(
    s: Seq<ChunkCoordinate>,
    p: spec_fn(ChunkCoordinate) -> bool,
    e: ChunkCoordinate,
)
    ensures
        s.filter(p).contains(e) <==> (s.contains(e) && p(e)),
    decreases s.len(),
{
    reveal(Seq::filter);
    if s.len() > 0 {
        let rest = s.drop_last();
        let last = s.last();
        lemma_filter_members(rest, p, e);
        assert(s =~= rest.push(last));
        rest.lemma_filter_push(last, p);
        lemma_seq_contains_after_push(rest, last, e);
        lemma_seq_contains_after_push(rest.filter(p), last, e);
    }
}

proof fn lemma_push_fresh(s: Seq<ChunkCoordinate>, v: ChunkCoordinate)
    requires
        s.no_duplicates(),
        !s.contains(v),
    ensures
        s.push(v).no_duplicates(),
{
    assert forall|i: int, j: int| 0 <= i < s.push(v).len() && 0 <= j < s.push(v).len() && i
        != j implies s.push(v)[i] != s.push(v)[j] by {
        if i < s.len() {
            assert(s.contains(s[i]));
        }
        if j < s.len() {
            assert(s.contains(s[j]));
        }
    }
}

proof fn lemma_filter_distinct(s: Seq<ChunkCoordinate>, p: spec_fn(ChunkCoordinate) -> bool)
    requires
        s.no_duplicates(),
    ensures
        s.filter(p).no_duplicates(),
    decreases s.len(),
{
    reveal(Seq::filter);
    if s.len() > 0 {
        let rest = s.drop_last();
        let last = s.last();
        lemma_filter_distinct(rest, p);
        assert(s =~= rest.push(last));
        rest.lemma_filter_push(last, p);
        if p(last) {
            lemma_filter_members(rest, p, last);
            if rest.contains(last) {
                let i = choose|i: int| 0 <= i < rest.len() && rest[i] == last;
                assert(s[i] == s[s.len() - 1]);
            }
            lemma_push_fresh(rest.filter(p), last);
        }
    }
}

fn list_contains(list: &Vec<ChunkCoordinate>, c: ChunkCoordinate) -> (r: bool)
    ensures
        r == list@.contains(c),
{
    let mut i: usize = 0;
    while i < list.len()
        invariant
            i <= list@.len(),
            forall|j: int| 0 <= j < i ==> list@[j] != c,
        decreases list@.len() - i,
    {
        if list[i] == c {
            return true;
        }
        i = i + 1;
    }
    false
}

/// What one update asks of the renderer.
#[derive(Debug)]
pub struct StreamPlan {
    /// Rendered chunks that fell out of range, in the order they were held.
    pub despawn: Vec<ChunkCoordinate>,
    /// Chunks in range that were not rendered, in lexicographic order.
    pub spawn: Vec<ChunkCoordinate>,
}

/// Keeps the set of rendered chunks equal to the observer's neighbourhood.
#[derive(Debug)]
pub struct StreamingController {
    render_distance: u32,
    rendered: Vec<ChunkCoordinate>,
}

impl StreamingController {
    /// The rendered chunks, in the order they are held.
    pub closed spec fn view(&self) -> Seq<ChunkCoordinate> {
        self.rendered@
    }

    /// The render distance, in chunks.
    pub closed spec fn radius(&self) -> int {
        self.render_distance as int
    }

    /// No chunk is held twice.
    pub open spec fn wf(&self) -> bool {
        self@.no_duplicates()
    }

    /// A controller that renders nothing yet.
    pub fn new(render_distance: u32) -> (c: StreamingController)
        ensures
            c.wf(),
            c@ == Seq::<ChunkCoordinate>::empty(),
            c.radius() == render_distance,
    {
        StreamingController { render_distance, rendered: Vec::new() }
    }

    pub fn render_distance(&self) -> (r: u32)
        ensures
            r == self.radius(),
    {
        self.render_distance
    }

    /// The rendered chunks, in the order they are held.
    pub fn rendered(&self) -> (r: &Vec<ChunkCoordinate>)
        ensures
            r@ == self@,
    {
        &self.rendered
    }

    /// Whether `coord` is rendered.
    pub fn is_rendered(&self, coord: ChunkCoordinate) -> (r: bool)
        ensures
            r == self@.contains(coord),
    {
        list_contains(&self.rendered, coord)
    }

    /// Moves the rendered set to the chunks within the render distance of
    /// `observer`, and reports what left it and what joined it. The chunks
    /// that stay keep their order; the new ones follow in lexicographic order.
    pub fn update(&mut self, observer: ChunkCoordinate) -> (plan: StreamPlan)
        requires
            old(self).wf(),
        ensures
            final(self).wf(),
            final(self).radius() == old(self).radius(),
            plan.despawn@ == old(self)@.filter(outside(observer, old(self).radius())),
            forall|c: ChunkCoordinate| #[trigger]
                plan.spawn@.contains(c) <==> in_range(c, observer, old(self).radius()) && !old(
                    self,
                )@.contains(c),
            ascending(plan.spawn@),
            final(self)@ == old(self)@.filter(inside(observer, old(self).radius()))
                + plan.spawn@,
            forall|c: ChunkCoordinate| #[trigger]
                final(self)@.contains(c) <==> in_range(c, observer, old(self).radius()),
    {
        let ghost before = self.rendered@;
        let ghost r = self.render_distance as int;
        let mut despawn: Vec<ChunkCoordinate> = Vec::new();
        let mut next: Vec<ChunkCoordinate> = Vec::new();
        let mut i: usize = 0;
        while i < self.rendered.len()
            invariant
                i <= before.len(),
                self.rendered@ == before,
                self.render_distance == r,
                despawn@ == before.take(i as int).filter(outside(observer, r)),
                next@ == before.take(i as int).filter(inside(observer, r)),
            decreases before.len() - i,
        {
            let c = self.rendered[i];
            proof {
                assert(before.take(i + 1) =~= before.take(i as int).push(c));
                before.take(i as int).lemma_filter_push(c, outside(observer, r));
                before.take(i as int).lemma_filter_push(c, inside(observer, r));
            }
            if c.chebyshev(&observer) > self.render_distance as i64 {
                despawn.push(c);
            } else {
                next.push(c);
            }
            i = i + 1;
        }
        let ghost kept = next@;
        proof {
            assert(before.take(before.len() as int) =~= before);
            lemma_filter_distinct(before, inside(observer, r));
            assert forall|c: ChunkCoordinate| kept.contains(c) <==> before.contains(c) && in_range(
                c,
                observer,
                r,
            ) by {
                lemma_filter_members(before, inside(observer, r), c);
            }
            assert(kept + Seq::<ChunkCoordinate>::empty() =~= kept);
        }
        let reach: i64 = self.render_distance as i64;
        let lo_x: i64 = low_bound(observer.x, reach);
        let hi_x: i64 = high_bound(observer.x, reach);
        let lo_y: i64 = low_bound(observer.y, reach);
        let hi_y: i64 = high_bound(observer.y, reach);
        let lo_z: i64 = low_bound(observer.z, reach);
        let hi_z: i64 = high_bound(observer.z, reach);
        assert(forall|c: ChunkCoordinate| #[trigger]
            in_range(c, observer, r) <==> lo_x <= c.x <= hi_x && lo_y <= c.y <= hi_y && lo_z
                <= c.z <= hi_z);
        let mut spawn: Vec<ChunkCoordinate> = Vec::new();
        let mut x: i64 = lo_x;
        while x <= hi_x
            invariant
                -0x8000_0000 <= lo_x <= x <= hi_x + 1 <= 0x8000_0000,
                -0x8000_0000 <= lo_y <= hi_y <= 0x7fff_ffff,
                -0x8000_0000 <= lo_z <= hi_z <= 0x7fff_ffff,
                self.rendered@ == before,
                self.render_distance == r,
                forall|c: ChunkCoordinate| #[trigger]
                    in_range(c, observer, r) <==> lo_x <= c.x <= hi_x && lo_y <= c.y <= hi_y
                        && lo_z <= c.z <= hi_z,
                forall|c: ChunkCoordinate| #[trigger]
                    spawn@.contains(c) <==> in_range(c, observer, r) && !before.contains(c)
                        && before_cursor(c, x as int, lo_y as int, lo_z as int),
                forall|c: ChunkCoordinate| kept.contains(c) ==> before.contains(c),
                ascending(spawn@),
                next@ == kept + spawn@,
                next@.no_duplicates(),
            decreases hi_x + 1 - x,
        {
            let mut y: i64 = lo_y;
            while y <= hi_y
                invariant
                    -0x8000_0000 <= lo_x <= x <= hi_x <= 0x7fff_ffff,
                    -0x8000_0000 <= lo_y <= y <= hi_y + 1 <= 0x8000_0000,
                    -0x8000_0000 <= lo_z <= hi_z <= 0x7fff_ffff,
                    self.rendered@ == before,
                    self.render_distance == r,
                    forall|c: ChunkCoordinate| #[trigger]
                        in_range(c, observer, r) <==> lo_x <= c.x <= hi_x && lo_y <= c.y <= hi_y
                            && lo_z <= c.z <= hi_z,
                    forall|c: ChunkCoordinate| #[trigger]
                        spawn@.contains(c) <==> in_range(c, observer, r) && !before.contains(c)
                            && before_cursor(c, x as int, y as int, lo_z as int),
                    forall|c: ChunkCoordinate| kept.contains(c) ==> before.contains(c),
                    ascending(spawn@),
                    next@ == kept + spawn@,
                    next@.no_duplicates(),
                decreases hi_y + 1 - y,
            {
                let mut z: i64 = lo_z;
                while z <= hi_z
                    invariant
                        -0x8000_0000 <= lo_x <= x <= hi_x <= 0x7fff_ffff,
                        -0x8000_0000 <= lo_y <= y <= hi_y <= 0x7fff_ffff,
                        -0x8000_0000 <= lo_z <= z <= hi_z + 1 <= 0x8000_0000,
                        self.rendered@ == before,
                        self.render_distance == r,
                        forall|c: ChunkCoordinate| #[trigger]
                            in_range(c, observer, r) <==> lo_x <= c.x <= hi_x && lo_y <= c.y
                                <= hi_y && lo_z <= c.z <= hi_z,
                        forall|c: ChunkCoordinate| #[trigger]
                            spawn@.contains(c) <==> in_range(c, observer, r) && !before.contains(
                                c,
                            ) && before_cursor(c, x as int, y as int, z as int),
                        forall|c: ChunkCoordinate| kept.contains(c) ==> before.contains(c),
                        ascending(spawn@),
                        next@ == kept + spawn@,
                        next@.no_duplicates(),
                    decreases hi_z + 1 - z,
                {
                    let candidate = ChunkCoordinate { x: x as i32, y: y as i32, z: z as i32 };
                    if !list_contains(&self.rendered, candidate) {
                        let ghost held = spawn@;
                        proof {
                            assert(!held.contains(candidate));
                            lemma_seq_concat_contains_all_elements(kept, held, candidate);
                            lemma_push_fresh(next@, candidate);
                            assert((kept + held).push(candidate) =~= kept + held.push(candidate));
                            assert forall|i: int, j: int|
                                0 <= i < j < held.push(candidate).len() implies lex_before(
                                #[trigger] held.push(candidate)[i],
                                #[trigger] held.push(candidate)[j],
                            ) by {
                                if j == held.len() {
                                    assert(held.contains(held[i]));
                                }
                            }
                        }
                        spawn.push(candidate);
                        next.push(candidate);
                        proof {
                            assert forall|c: ChunkCoordinate| #[trigger]
                                spawn@.contains(c) <==> in_range(c, observer, r)
                                    && !before.contains(c) && before_cursor(
                                    c,
                                    x as int,
                                    y as int,
                                    z as int + 1,
                                ) by {
                                lemma_seq_contains_after_push(held, candidate, c);
                            }
                        }
                    }
                    z = z + 1;
                }
                y = y + 1;
            }
            x = x + 1;
        }
        proof {
            assert forall|c: ChunkCoordinate| #[trigger]
                next@.contains(c) <==> in_range(c, observer, r) by {
                lemma_seq_concat_contains_all_elements(kept, spawn@, c);
                lemma_filter_members(before, inside(observer, r), c);
            }
        }
        self.rendered = next;
        StreamPlan { despawn, spawn }
    }
}

fn low_bound(center: i32, reach: i64) -> (lo: i64)
    requires
        0 <= reach <= 0xffff_ffff,
    ensures
        lo == if center - reach < -0x8000_0000 {
            -0x8000_0000
        } else {
            center - reach
        },
{
    let lo: i64 = center as i64 - reach;
    if lo < -0x8000_0000 {
        -0x8000_0000
    } else {
        lo
    }
}

fn high_bound(center: i32, reach: i64) -> (hi: i64)
    requires
        0 <= reach <= 0xffff_ffff,
    ensures
        hi == if center + reach > 0x7fff_ffff {
            0x7fff_ffff
        } else {
            center + reach
        },
{
    let hi: i64 = center as i64 + reach;
    if hi > 0x7fff_ffff {
        0x7fff_ffff
    } else {
        hi
    }
}

/// What the renderer needs to show one chunk.
#[derive(Debug)]
pub struct ChunkGeometry {
    /// The chunk's geometry in local coordinates.
    pub mesh: Mesh,
    /// World position of the chunk's lowest corner.
    pub offset: (i64, i64, i64),
}

/// Readies one chunk for rendering: takes its grid from the store, generating
/// it from `heights` only where none is resident, and builds its geometry.
pub fn load_chunk(store: &mut ChunkStore, coord: ChunkCoordinate, heights: &ColumnHeights) -> (g:
    ChunkGeometry)
    requires
        old(store).wf(),
        heights.wf(),
    ensures
        final(store).wf(),
        final(store)@ == after_request(old(store)@, coord, heights@),
        g.mesh.vertices@ == mesh_vertices(requested_cells(old(store)@, coord, heights@), 4096),
        g.mesh.indices@ == mesh_indices(requested_cells(old(store)@, coord, heights@), 4096),
        g.mesh.normals@ == mesh_normals(requested_cells(old(store)@, coord, heights@), 4096),
        forall|j: int|
            0 <= j < g.mesh.indices@.len() ==> (#[trigger] g.mesh.indices@[j])
                < g.mesh.vertices@.len(),
        g.offset.0 == world_of(coord.x as int, 0),
        g.offset.1 == world_of(coord.y as int, 0),
        g.offset.2 == world_of(coord.z as int, 0),
{
    let grid = store.get_or_generate(coord, heights);
    let mesh = Mesh::build(grid);
    ChunkGeometry { mesh, offset: coord.origin() }
}

} // verus!
