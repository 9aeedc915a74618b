//! The icosphere generator: base topology, symbolic vertex buffer, and the
//! triangulated index buffer, together with the specification functions that
//! pin down exactly which vertex and which triangle sits at every position.
//!
//! The base shape is a bipyramid: six unit directions (vertices 0..5), twelve
//! edges between them, and eight triangular faces, each bounded by two side
//! edges that share a common apex and one bottom edge.  A generation pass
//! first seeds the six base vertices, then inserts `resolution` interpolated
//! vertices along each of the twelve edges, then fills the interior of each
//! face row by row and emits the triangle list.

use vstd::prelude::*;

verus! {

// ---------------------------------------------------------------------------
// Base topology
// ---------------------------------------------------------------------------

/// Base vertex at which edge `e` of the bipyramid starts.
pub open spec fn edge_start(e: int) -> int {
    if e < 4 {
        0
    } else if e < 8 {
        e - 3
    } else {
        5
    }
}

/// Base vertex at which edge `e` of the bipyramid ends.
pub open spec fn edge_end(e: int) -> int {
    if e == 0 {
        1
    } else if e == 1 {
        2
    } else if e == 2 {
        3
    } else if e == 3 {
        4
    } else if e == 4 {
        2
    } else if e == 5 {
        3
    } else if e == 6 {
        4
    } else if e == 7 {
        1
    } else {
        e - 7
    }
}

/// First side edge of face `f`; its start vertex is the apex of the face.
pub open spec fn face_side_a(f: int) -> int {
    if f < 4 {
        f
    } else {
        f + 4
    }
}

/// Second side edge of face `f`; it starts at the same apex.
pub open spec fn face_side_b(f: int) -> int {
    if f < 3 {
        f + 1
    } else if f == 3 {
        0
    } else if f < 7 {
        f + 5
    } else {
        8
    }
}

/// Bottom edge of face `f`, opposite the apex.
pub open spec fn face_bottom(f: int) -> int {
    if f < 4 {
        f + 4
    } else {
        f
    }
}

/// Direction vector of base vertex `b`, as exact integer coordinates:
/// +Y, -X, -Z, +X, +Z, -Y in this order.
pub open spec fn base_direction(b: int) -> (int, int, int) {
    if b == 0 {
        (0, 1, 0)
    } else if b == 1 {
        (-1, 0, 0)
    } else if b == 2 {
        (0, 0, -1)
    } else if b == 3 {
        (1, 0, 0)
    } else if b == 4 {
        (0, 0, 1)
    } else {
        (0, -1, 0)
    }
}

/// The pair of base vertices joined by edge `e`.
pub fn edge_pair(e: usize) -> (r: (usize, usize))
    requires
        e < 12,
    ensures
        r.0 == edge_start(e as int),
        r.1 == edge_end(e as int),
{
    match e {
        0 => (0, 1),
        1 => (0, 2),
        2 => (0, 3),
        3 => (0, 4),
        4 => (1, 2),
        5 => (2, 3),
        6 => (3, 4),
        7 => (4, 1),
        8 => (5, 1),
        9 => (5, 2),
        10 => (5, 3),
        _ => (5, 4),
    }
}

/// The three edges bounding face `f`: side a, side b, bottom.
pub fn face_edges(f: usize) -> (r: (usize, usize, usize))
    requires
        f < 8,
    ensures
        r.0 == face_side_a(f as int),
        r.1 == face_side_b(f as int),
        r.2 == face_bottom(f as int),
        r.0 < 12,
        r.1 < 12,
        r.2 < 12,
{
    match f {
        0 => (0, 1, 4),
        1 => (1, 2, 5),
        2 => (2, 3, 6),
        3 => (3, 0, 7),
        4 => (8, 9, 4),
        5 => (9, 10, 5),
        6 => (10, 11, 6),
        _ => (11, 8, 7),
    }
}

/// Direction of base vertex `b`, as integer coordinates on the unit sphere.
pub fn base_vertex_direction(b: usize) -> (r: (i64, i64, i64))
    requires
        b < 6,
    ensures
        (r.0 as int, r.1 as int, r.2 as int) == base_direction(b as int),
{
    match b {
        0 => (0, 1, 0),
        1 => (-1, 0, 0),
        2 => (0, 0, -1),
        3 => (1, 0, 0),
        4 => (0, 0, 1),
        _ => (0, -1, 0),
    }
}

/// Every base direction is a unit vector.
pub proof fn lemma_base_direction_unit(b: int)
    requires
        0 <= b < 6,
    ensures
        ({
            let (x, y, z) = base_direction(b);
            x * x + y * y + z * z == 1
        }),
{
}

// ---------------------------------------------------------------------------
// Counting
// ---------------------------------------------------------------------------

/// The n-th triangular number, 0 + 1 + ... + n.
pub open spec fn tnum(n: int) -> int
    decreases n,
{
    if n <= 0 {
        0
    } else {
        tnum(n - 1) + n
    }
}

/// Number of vertices in one fully populated triangular face of resolution
/// `r`, boundary included.
pub open spec fn verts_per_face(r: int) -> int {
    ((r + 3) * (r + 3) - (r + 3)) / 2
}

/// Total number of distinct vertices of the whole mesh at resolution `r`:
/// eight faces, with the twelve shared edges and six shared base vertices
/// counted once.
pub open spec fn num_verts(r: int) -> int {
    8 * verts_per_face(r) - 12 * (r + 2) + 6
}

/// Total number of triangles of the whole mesh at resolution `r`.
pub open spec fn num_tris(r: int) -> int {
    8 * (r + 1) * (r + 1)
}

/// First vertex id past the base vertices and the edge-interior vertices.
pub open spec fn interior_start(r: int) -> int {
    6 + 12 * r
}

/// Number of vertices strictly inside one face.
pub open spec fn interior_per_face(r: int) -> int {
    tnum(r - 1)
}

/// The resolution is small enough that every buffer length fits in `usize`;
/// the largest buffer is the index list with `3 * 8 * (r+1)^2` entries.
pub open spec fn fits_usize(r: int) -> bool {
    24 * (r + 1) * (r + 1) <= usize::MAX as int
}

pub proof fn lemma_tnum_nonneg(n: int)
    ensures
        tnum(n) >= 0,
        n >= 0 ==> tnum(n) >= n,
    decreases n,
{
    if n > 0 {
        lemma_tnum_nonneg(n - 1);
    }
}

pub proof fn lemma_tnum_mono(a: int, b: int)
    requires
        a <= b,
    ensures
        tnum(a) <= tnum(b),
    decreases b - a,
{
    if a < b {
        lemma_tnum_mono(a, b - 1);
        lemma_tnum_nonneg(b);
    }
}

/// Closed form of the triangular numbers.
pub proof fn lemma_tnum_closed(n: int)
    requires
        n >= 0,
    ensures
        tnum(n) == n * (n + 1) / 2,
    decreases n,
{
    if n == 0 {
    } else {
        lemma_tnum_closed(n - 1);
        assert((n - 1) * n / 2 + n == n * (n + 1) / 2) by (nonlinear_arith);
    }
}

/// The per-face vertex count is the (r+2)-nd triangular number.
pub proof fn lemma_verts_per_face_tnum(r: int)
    requires
        r >= 0,
    ensures
        verts_per_face(r) == tnum(r + 2),
{
    lemma_tnum_closed(r + 2);
    assert((r + 3) * (r + 3) - (r + 3) == (r + 2) * (r + 3)) by (nonlinear_arith);
    assert((r + 2) * (r + 3) / 2 == (r + 2) * ((r + 2) + 1) / 2);
}

/// The global vertex count, split into base, edge-interior, and face-interior
/// vertices.
pub proof fn lemma_num_verts_split(r: int)
    requires
        r >= 0,
    ensures
        num_verts(r) == interior_start(r) + 8 * interior_per_face(r),
        num_verts(r) >= 6,
{
    lemma_verts_per_face_tnum(r);
    assert(tnum(r + 2) == tnum(r + 1) + (r + 2));
    assert(tnum(r + 1) == tnum(r) + (r + 1));
    if r == 0 {
        assert(tnum(0) == 0);
        assert(tnum(-1) == 0);
    } else {
        assert(tnum(r) == tnum(r - 1) + r);
    }
    lemma_tnum_nonneg(r - 1);
}

// ---------------------------------------------------------------------------
// Vertex ids
// ---------------------------------------------------------------------------
//
// Vertices are numbered in generation order: ids 0..5 are the base vertices,
// then each edge e contributes its r interior vertices (ids 6 + e*r + d),
// then each face f contributes its tnum(r-1) interior vertices, laid out row
// by row below the apex.

/// Id of the k-th vertex along edge `e` (k in 0..r+2): the start vertex,
/// then the r interpolated interior vertices, then the end vertex.
pub open spec fn edge_vid(r: int, e: int, k: int) -> int {
    if k == 0 {
        edge_start(e)
    } else if k == r + 1 {
        edge_end(e)
    } else {
        6 + e * r + (k - 1)
    }
}

/// Id of the d-th interior vertex of edge `e` (d in 0..r).
pub open spec fn edge_interior_vid(r: int, e: int, d: int) -> int {
    6 + e * r + d
}

/// Id of the j-th interior vertex of row `i` of face `f`
/// (i in 1..=r, j in 0..i-1).
pub open spec fn interior_vid(r: int, f: int, i: int, j: int) -> int {
    interior_start(r) + f * interior_per_face(r) + tnum(i - 2) + j
}

/// Symbolic position of one mesh vertex: either one of the six base
/// directions, or the spherical interpolation between two earlier vertices
/// at parameter `num / den`.
#[derive(Clone, Copy, PartialEq, Eq, Structural, Debug)]
pub enum Vertex {
    Base { index: usize },
    Slerp { start: usize, end: usize, num: usize, den: usize },
}

/// The vertex placed at id `6 + e*r + d` while subdividing edge `e`.
pub open spec fn edge_point(r: int, e: int, d: int) -> Vertex {
    Vertex::Slerp {
        start: edge_start(e) as usize,
        end: edge_end(e) as usize,
        num: (d + 1) as usize,
        den: (r + 1) as usize,
    }
}

/// The vertex placed at id `interior_vid(r, f, i, j)` while filling face
/// `f`: row `i` interpolates between the i-th vertex of the two side edges.
pub open spec fn face_point(r: int, f: int, i: int, j: int) -> Vertex {
    Vertex::Slerp {
        start: edge_vid(r, face_side_a(f), i) as usize,
        end: edge_vid(r, face_side_b(f), i) as usize,
        num: (j + 1) as usize,
        den: i as usize,
    }
}

// ---------------------------------------------------------------------------
// Vertex buffer predicates
// ---------------------------------------------------------------------------

/// A vertex entry is well formed at position `idx` of the buffer: base
/// vertices name their own id, and every interpolated vertex refers only to
/// earlier vertices, with a parameter strictly between 0 and 1.  Evaluating
/// the buffer in order therefore needs no lookahead, and (by induction, since
/// slerp of unit vectors is unit) every evaluated position lies on the unit
/// sphere.
pub open spec fn vertex_wf(v: Vertex, idx: int) -> bool {
    match v {
        Vertex::Base { index } => index == idx && idx < 6,
        Vertex::Slerp { start, end, num, den } => start < idx && end < idx && 6 <= idx && 0 < num
            < den,
    }
}

pub open spec fn plan_wf(plan: Seq<Vertex>) -> bool {
    forall|v: int| 0 <= v < plan.len() ==> vertex_wf(#[trigger] plan[v], v)
}

/// The first six entries are the base vertices, in base order.
pub open spec fn plan_base_complete(plan: Seq<Vertex>) -> bool {
    forall|b: int| 0 <= b < 6 ==> #[trigger] plan[b] == Vertex::Base { index: b as usize }
}

/// The interior vertices of the first `n_edges` edges are in place.
pub open spec fn plan_edges_complete(r: int, plan: Seq<Vertex>, n_edges: int) -> bool {
    forall|e: int, d: int|
        0 <= e < n_edges && 0 <= d < r ==> plan[#[trigger] edge_interior_vid(r, e, d)]
            == edge_point(r, e, d)
}

/// The interior vertices of the first `n_faces` faces are in place.
pub open spec fn plan_faces_complete(r: int, plan: Seq<Vertex>, n_faces: int) -> bool {
    forall|f: int, i: int, j: int|
        0 <= f < n_faces && 1 <= i <= r && 0 <= j < i - 1 ==> plan[#[trigger] interior_vid(
            r,
            f,
            i,
            j,
        )] == face_point(r, f, i, j)
}

/// The full vertex buffer of a finished generation pass.
pub open spec fn plan_complete(r: int, plan: Seq<Vertex>) -> bool {
    &&& plan.len() == num_verts(r)
    &&& plan_base_complete(plan)
    &&& plan_edges_complete(r, plan, 12)
    &&& plan_faces_complete(r, plan, 8)
}

// ---------------------------------------------------------------------------
// Edges
// ---------------------------------------------------------------------------

/// An edge of the base bipyramid after subdivision: the ids of its vertices
/// in order from its start base vertex to its end base vertex.
pub struct Edge {
    pub vertex_indices: Vec<usize>,
}

impl Edge {
    pub fn new(indices: Vec<usize>) -> (r: Edge)
        ensures
            r.vertex_indices@ == indices@,
    {
        Edge { vertex_indices: indices }
    }
}

impl Default for Edge {
    fn default() -> (r: Self)
        ensures
            r.vertex_indices@.len() == 0,
    {
        Self { vertex_indices: Vec::new() }
    }
}

/// Edge `e` has been subdivided: r + 2 vertex ids, exactly as `edge_vid`
/// lays them out.
pub open spec fn edge_complete(r: int, ed: Edge, e: int) -> bool {
    &&& ed.vertex_indices@.len() == r + 2
    &&& forall|k: int| 0 <= k < r + 2 ==> #[trigger] ed.vertex_indices@[k] == edge_vid(r, e, k)
}

pub open spec fn edges_complete(r: int, edges: Seq<Edge>) -> bool {
    &&& edges.len() == 12
    &&& forall|e: int| 0 <= e < 12 ==> edge_complete(r, #[trigger] edges[e], e)
}

// ---------------------------------------------------------------------------
// Bounds on vertex ids
// ---------------------------------------------------------------------------

pub proof fn lemma_edge_vid_bounds(r: int, e: int, k: int)
    requires
        r >= 0,
        0 <= e < 12,
        0 <= k < r + 2,
    ensures
        0 <= edge_vid(r, e, k) < interior_start(r),
        edge_vid(r, e, k) < num_verts(r),
        k == 0 || k == r + 1 ==> edge_vid(r, e, k) < 6,
{
    if k != 0 && k != r + 1 {
        assert(e * r <= 11 * r) by (nonlinear_arith)
            requires
                0 <= r && e <= 11,
        ;
    }
    lemma_num_verts_split(r);
    lemma_tnum_nonneg(r - 1);
}

pub proof fn lemma_interior_vid_bounds(r: int, f: int, i: int, j: int)
    requires
        r >= 0,
        0 <= f < 8,
        1 <= i <= r,
        0 <= j < i - 1,
    ensures
        interior_start(r) <= interior_vid(r, f, i, j) < num_verts(r),
{
    lemma_num_verts_split(r);
    lemma_tnum_nonneg(i - 2);
    assert(tnum(i - 1) == tnum(i - 2) + (i - 1));
    lemma_tnum_mono(i - 1, r - 1);
    assert(f * interior_per_face(r) <= 7 * interior_per_face(r)) by (nonlinear_arith)
        requires
            f <= 7 && interior_per_face(r) >= 0,
    ;
    lemma_tnum_nonneg(r - 1);
}

// ---------------------------------------------------------------------------
// The per-face vertex map and the triangulation
// ---------------------------------------------------------------------------
//
// Each face is triangulated through a vertex map: a row-major linear layout
// of every vertex of the face, from the apex (row 0) down to the bottom edge
// (row r+1).  Row t holds t+1 vertices for t <= r; the last row holds the
// full bottom edge, r+2 vertices.

/// Offset of (row `t`, column `c`) in the row-major vertex map layout.
pub open spec fn vmpos(t: int, c: int) -> int {
    tnum(t) + c
}

/// Is (row `t`, column `c`) a position of the vertex map at resolution `r`?
pub open spec fn valid_pos(r: int, t: int, c: int) -> bool {
    0 <= t <= r + 1 && 0 <= c && (if t <= r {
        c <= t
    } else {
        c <= r + 1
    })
}

/// The vertex id at (row `t`, column `c`) of face `f`'s vertex map: the
/// first column walks side edge a, the last column walks side edge b, the
/// final row is the bottom edge, and everything in between is face interior.
pub open spec fn vmap_at(r: int, f: int, t: int, c: int) -> int {
    if t <= r {
        if c == 0 {
            edge_vid(r, face_side_a(f), t)
        } else if c == t {
            edge_vid(r, face_side_b(f), t)
        } else {
            interior_vid(r, f, t, c - 1)
        }
    } else {
        edge_vid(r, face_bottom(f), c)
    }
}

/// Index of triangle (face `f`, row `row`, column `c`) in generation order;
/// row `row` of a face holds 2*row + 1 triangles.
pub open spec fn tri_id(r: int, f: int, row: int, c: int) -> int {
    f * ((r + 1) * (r + 1)) + row * row + c
}

/// Position of slot `s` (0, 1 or 2) of that triangle in the index buffer.
pub open spec fn slot_pos(r: int, f: int, row: int, c: int, s: int) -> int {
    3 * tri_id(r, f, row, c) + s
}

/// The vertex id emitted at slot `s` of triangle (f, row, c).  Even columns
/// are triangles pointing away from the apex, odd columns point toward it;
/// faces 4..7 emit their last two corners swapped so that both hemispheres
/// wind outward.
pub open spec fn tri_corner(r: int, f: int, row: int, c: int, s: int) -> int {
    let h = (c + 1) / 2;
    let v0 = vmap_at(r, f, row, h);
    let v1 = if c % 2 == 0 {
        vmap_at(r, f, row + 1, h + 1)
    } else {
        vmap_at(r, f, row + 1, h)
    };
    let v2 = if c % 2 == 0 {
        vmap_at(r, f, row + 1, h)
    } else {
        vmap_at(r, f, row, h - 1)
    };
    if s == 0 {
        v0
    } else if f < 4 {
        if s == 1 {
            v1
        } else {
            v2
        }
    } else {
        if s == 1 {
            v2
        } else {
            v1
        }
    }
}

/// The index buffer holds the triangles of the first `n_faces` faces.
pub open spec fn indices_complete(r: int, ind: Seq<usize>, n_faces: int) -> bool {
    forall|f: int, row: int, c: int, s: int|
        0 <= f < n_faces && 0 <= row <= r && 0 <= c < 2 * row + 1 && 0 <= s < 3 ==> ind[
            #[trigger] slot_pos(r, f, row, c, s)] == tri_corner(r, f, row, c, s)
}

/// Every entry of the index buffer is a valid vertex id.
pub open spec fn indices_in_bounds(r: int, ind: Seq<usize>) -> bool {
    forall|p: int| 0 <= p < ind.len() ==> #[trigger] ind[p] < num_verts(r)
}

// ---------------------------------------------------------------------------
// Bounds for vertex map positions and triangle corners
// ---------------------------------------------------------------------------

/// A valid vertex map position lies inside the row-major layout, and the
/// rows tile it without overlap.
pub proof fn lemma_vmpos_range(r: int, t: int, c: int)
    requires
        r >= 0,
        valid_pos(r, t, c),
    ensures
        tnum(t) <= vmpos(t, c) < tnum(t + 1),
        vmpos(t, c) < tnum(r + 2),
        t == r + 1 && c == r + 1 ==> vmpos(t, c) == tnum(r + 2) - 1,
{
    assert(tnum(t + 1) == tnum(t) + (t + 1));
    if t <= r {
        lemma_tnum_mono(t + 1, r + 2);
    } else {
        assert(tnum(r + 2) == tnum(r + 1) + (r + 2));
    }
}

/// The vertex id at any valid vertex map position is a real vertex id.
pub proof fn lemma_vmap_at_bounds(r: int, f: int, t: int, c: int)
    requires
        r >= 0,
        0 <= f < 8,
        valid_pos(r, t, c),
    ensures
        0 <= vmap_at(r, f, t, c) < num_verts(r),
{
    lemma_num_verts_split(r);
    lemma_tnum_nonneg(r - 1);
    if t <= r {
        if c == 0 || c == t {
            if t == 0 {
                lemma_edge_vid_bounds(r, if c == 0 { face_side_a(f) } else { face_side_b(f) }, 0);
            } else {
                lemma_edge_vid_bounds(r, if c == 0 { face_side_a(f) } else { face_side_b(f) }, t);
            }
        } else {
            lemma_interior_vid_bounds(r, f, t, c - 1);
        }
    } else {
        lemma_edge_vid_bounds(r, face_bottom(f), c);
    }
}

/// Every triangle corner is a real vertex id.
pub proof fn lemma_tri_corner_bounds(r: int, f: int, row: int, c: int, s: int)
    requires
        r >= 0,
        0 <= f < 8,
        0 <= row <= r,
        0 <= c < 2 * row + 1,
        0 <= s < 3,
    ensures
        0 <= tri_corner(r, f, row, c, s) < num_verts(r),
{
    let h = (c + 1) / 2;
    if c % 2 == 0 {
        lemma_vmap_at_bounds(r, f, row, h);
        lemma_vmap_at_bounds(r, f, row + 1, h + 1);
        lemma_vmap_at_bounds(r, f, row + 1, h);
    } else {
        lemma_vmap_at_bounds(r, f, row, h);
        lemma_vmap_at_bounds(r, f, row + 1, h);
        lemma_vmap_at_bounds(r, f, row, h - 1);
    }
}

/// Triangles are laid out contiguously: slot positions of face `f` fill
/// exactly the window [3*f*(r+1)^2, 3*(f+1)*(r+1)^2) of the index buffer.
pub proof fn lemma_slot_pos_range(r: int, f: int, row: int, c: int, s: int)
    requires
        r >= 0,
        0 <= f,
        0 <= row <= r,
        0 <= c < 2 * row + 1,
        0 <= s < 3,
    ensures
        3 * (f * ((r + 1) * (r + 1))) <= slot_pos(r, f, row, c, s) < 3 * ((f + 1) * ((r + 1) * (r
            + 1))),
{
    assert(row * row + c < (r + 1) * (r + 1)) by (nonlinear_arith)
        requires
            0 <= row <= r && c < 2 * row + 1,
    ;
    assert((f + 1) * ((r + 1) * (r + 1)) == f * ((r + 1) * (r + 1)) + (r + 1) * (r + 1))
        by (nonlinear_arith);
    assert(row * row >= 0) by (nonlinear_arith);
}

// ---------------------------------------------------------------------------
// The generator
// ---------------------------------------------------------------------------

/// Scratch state of one generation pass: the symbolic vertex buffer, the
/// triangle index buffer, and the twelve subdivided edges.
pub struct SphereMesh {
    pub vertices: Vec<Vertex>,
    pub indices: Vec<usize>,
    pub edges: Vec<Edge>,
    pub num_verts_per_face: usize,
    pub num_divisions: usize,
}

/// A finished generation pass at resolution `r`: the vertex buffer is the
/// complete well-formed plan, and the index buffer holds all 8*(r+1)^2
/// triangles, every corner exactly as `tri_corner` lays them out.
pub open spec fn mesh_generated(m: SphereMesh, r: int) -> bool {
    &&& m.num_divisions == r
    &&& m.num_verts_per_face == verts_per_face(r)
    &&& plan_complete(r, m.vertices@)
    &&& plan_wf(m.vertices@)
    &&& m.indices@.len() == 3 * num_tris(r)
    &&& indices_complete(r, m.indices@, 8)
    &&& indices_in_bounds(r, m.indices@)
    &&& edges_complete(r, m.edges@)
}

/// The state in the middle of a generation pass, after the first `f` faces
/// have been filled and triangulated.
pub open spec fn face_progress(m: SphereMesh, r: int, f: int) -> bool {
    &&& m.num_divisions == r
    &&& m.num_verts_per_face == verts_per_face(r)
    &&& edges_complete(r, m.edges@)
    &&& m.vertices@.len() == interior_start(r) + f * interior_per_face(r)
    &&& plan_base_complete(m.vertices@)
    &&& plan_edges_complete(r, m.vertices@, 12)
    &&& plan_faces_complete(r, m.vertices@, f)
    &&& plan_wf(m.vertices@)
    &&& m.indices@.len() == 3 * (f * ((r + 1) * (r + 1)))
    &&& indices_complete(r, m.indices@, f)
    &&& indices_in_bounds(r, m.indices@)
}

impl SphereMesh {
    /// Id of the k-th vertex along subdivided edge `e`.
    fn edge_entry(&self, e: usize, k: usize) -> (res: usize)
        requires
            edges_complete(self.num_divisions as int, self.edges@),
            e < 12,
            k < self.num_divisions + 2,
        ensures
            res == edge_vid(self.num_divisions as int, e as int, k as int),
    {
        self.edges[e].vertex_indices[k]
    }
}

impl Default for SphereMesh {
    fn default() -> (r: Self)
        ensures
            r.vertices@.len() == 0,
            r.indices@.len() == 0,
            r.edges@.len() == 0,
            r.num_verts_per_face == 0,
            r.num_divisions == 0,
    {
        Self {
            vertices: Vec::new(),
            indices: Vec::new(),
            edges: Vec::new(),
            num_verts_per_face: 0,
            num_divisions: 0,
        }
    }
}

/// Triangles of one face are emitted in generation order: everything before
/// triangle (rowB, colB) of face `f` sits strictly below its slots.
proof fn lemma_tri_order(r: int, f: int, r2: int, c2: int, s2: int, row_b: int, col_b: int)
    requires
        0 <= r2,
        0 <= c2 <= 2 * r2,
        0 <= s2 < 3,
        0 <= col_b,
        r2 < row_b || (r2 == row_b && c2 < col_b),
    ensures
        slot_pos(r, f, r2, c2, s2) < slot_pos(r, f, row_b, col_b, 0),
{
    assert(r2 * r2 + c2 < row_b * row_b + col_b) by (nonlinear_arith)
        requires
            0 <= r2 && 0 <= c2 <= 2 * r2 && 0 <= col_b && (r2 < row_b || (r2 == row_b && c2
                < col_b)),
    ;
}

/// Appending a well-formed vertex keeps the buffer well formed.
proof fn lemma_plan_wf_push(s: Seq<Vertex>, v: Vertex)
    requires
        plan_wf(s),
        vertex_wf(v, s.len() as int),
    ensures
        plan_wf(s.push(v)),
{
    assert forall|p: int| 0 <= p < s.push(v).len() implies vertex_wf(
        #[trigger] s.push(v)[p],
        p,
    ) by {
        if p < s.len() {
            assert(s.push(v)[p] == s[p]);
        } else {
            assert(s.push(v)[p] == v);
        }
    }
}

/// Extending the vertex buffer preserves everything already in place: the
/// base vertices, the edge-interior vertices, and the interiors of the
/// first `f_done` faces all sit below `s1.len()`.
proof fn lemma_plan_prefix_preserved(r: int, f_done: int, s1: Seq<Vertex>, s2: Seq<Vertex>)
    requires
        r >= 0,
        0 <= f_done <= 8,
        s1.len() >= interior_start(r) + f_done * interior_per_face(r),
        s2.len() >= s1.len(),
        forall|p: int| 0 <= p < s1.len() ==> s2[p] == s1[p],
        plan_base_complete(s1),
        plan_edges_complete(r, s1, 12),
        plan_faces_complete(r, s1, f_done),
    ensures
        plan_base_complete(s2),
        plan_edges_complete(r, s2, 12),
        plan_faces_complete(r, s2, f_done),
{
    lemma_tnum_nonneg(r - 1);
    assert(f_done * interior_per_face(r) >= 0) by (nonlinear_arith)
        requires
            f_done >= 0 && interior_per_face(r) >= 0,
    ;
    assert forall|b: int| 0 <= b < 6 implies #[trigger] s2[b] == Vertex::Base {
        index: b as usize,
    } by {
        assert(s2[b] == s1[b]);
    }
    assert forall|e: int, d: int| 0 <= e < 12 && 0 <= d < r implies s2[#[trigger] edge_interior_vid(
        r,
        e,
        d,
    )] == edge_point(r, e, d) by {
        assert(6 + e * r + d < 6 + 12 * r) by (nonlinear_arith)
            requires
                0 <= e < 12 && 0 <= d < r,
        ;
        assert(s2[edge_interior_vid(r, e, d)] == s1[edge_interior_vid(r, e, d)]);
    }
    assert forall|f2: int, i2: int, j2: int|
        0 <= f2 < f_done && 1 <= i2 <= r && 0 <= j2 < i2 - 1 implies s2[#[trigger] interior_vid(
        r,
        f2,
        i2,
        j2,
    )] == face_point(r, f2, i2, j2) by {
        lemma_tnum_nonneg(i2 - 2);
        assert(tnum(i2 - 1) == tnum(i2 - 2) + (i2 - 1));
        lemma_tnum_mono(i2 - 1, r - 1);
        assert((f2 + 1) * interior_per_face(r) <= f_done * interior_per_face(r))
            by (nonlinear_arith)
            requires
                f2 + 1 <= f_done && interior_per_face(r) >= 0,
        ;
        assert((f2 + 1) * interior_per_face(r) == f2 * interior_per_face(r) + interior_per_face(
            r,
        )) by (nonlinear_arith);
        assert(interior_vid(r, f2, i2, j2) < s1.len());
        assert(s2[interior_vid(r, f2, i2, j2)] == s1[interior_vid(r, f2, i2, j2)]);
    }
}

/// Extending the vertex map preserves its completed rows, which occupy the
/// first `tnum(rows)` positions.
proof fn lemma_vm_rows_preserved(r: int, f: int, vm1: Seq<usize>, vm2: Seq<usize>, rows: int)
    requires
        r >= 0,
        0 <= rows <= r + 1,
        vm1.len() >= tnum(rows),
        vm2.len() >= vm1.len(),
        forall|p: int| 0 <= p < vm1.len() ==> vm2[p] == vm1[p],
        forall|t: int, c: int|
            0 <= t < rows && 0 <= c <= t ==> #[trigger] vm1[vmpos(t, c)] == vmap_at(r, f, t, c),
    ensures
        forall|t: int, c: int|
            0 <= t < rows && 0 <= c <= t ==> #[trigger] vm2[vmpos(t, c)] == vmap_at(r, f, t, c),
{
    assert forall|t: int, c: int| 0 <= t < rows && 0 <= c <= t implies #[trigger] vm2[vmpos(t, c)]
        == vmap_at(r, f, t, c) by {
        lemma_tnum_nonneg(t);
        lemma_vmpos_range(r, t, c);
        lemma_tnum_mono(t + 1, rows);
        assert(vm2[vmpos(t, c)] == vm1[vmpos(t, c)]);
    }
}

/// Extending the vertex buffer preserves the interior vertices of the rows
/// of the face under construction.
proof fn lemma_face_rows_preserved(r: int, f: int, s1: Seq<Vertex>, s2: Seq<Vertex>, rows: int)
    requires
        r >= 0,
        0 <= f,
        1 <= rows <= r + 1,
        s1.len() >= interior_start(r) + f * interior_per_face(r) + tnum(rows - 2),
        s2.len() >= s1.len(),
        forall|p: int| 0 <= p < s1.len() ==> s2[p] == s1[p],
        forall|i2: int, j2: int|
            1 <= i2 < rows && 0 <= j2 < i2 - 1 ==> s1[#[trigger] interior_vid(r, f, i2, j2)]
                == face_point(r, f, i2, j2),
    ensures
        forall|i2: int, j2: int|
            1 <= i2 < rows && 0 <= j2 < i2 - 1 ==> s2[#[trigger] interior_vid(r, f, i2, j2)]
                == face_point(r, f, i2, j2),
{
    assert forall|i2: int, j2: int| 1 <= i2 < rows && 0 <= j2 < i2 - 1 implies s2[
    #[trigger] interior_vid(r, f, i2, j2)] == face_point(r, f, i2, j2) by {
        lemma_tnum_nonneg(i2 - 2);
        lemma_tnum_nonneg(r - 1);
        assert(f * interior_per_face(r) >= 0) by (nonlinear_arith)
            requires
                f >= 0 && interior_per_face(r) >= 0,
        ;
        assert(tnum(i2 - 1) == tnum(i2 - 2) + (i2 - 1));
        lemma_tnum_mono(i2 - 1, rows - 2);
        assert(interior_vid(r, f, i2, j2) < s1.len());
        assert(s2[interior_vid(r, f, i2, j2)] == s1[interior_vid(r, f, i2, j2)]);
    }
}

impl SphereMesh {
    /// Builds the row-major vertex map of face `f`, inserting the face's
    /// interior vertices into the vertex buffer as a side effect: row 0 is
    /// the apex, row i walks from side edge a over i-1 interpolated interior
    /// points to side edge b, and the final row reuses the whole bottom edge.
    #[verifier::loop_isolation(false)]
    #[verifier::rlimit(100)]
    fn build_vertex_map(&mut self, f: usize) -> (vertex_map: Vec<usize>)
        requires
            fits_usize(old(self).num_divisions as int),
            f < 8,
            face_progress(*old(self), old(self).num_divisions as int, f as int),
        ensures
            final(self).num_divisions == old(self).num_divisions,
            final(self).num_verts_per_face == old(self).num_verts_per_face,
            final(self).edges == old(self).edges,
            final(self).indices == old(self).indices,
            final(self).vertices@.len() == interior_start(old(self).num_divisions as int) + (
            f as int + 1) * interior_per_face(old(self).num_divisions as int),
            plan_base_complete(final(self).vertices@),
            plan_edges_complete(old(self).num_divisions as int, final(self).vertices@, 12),
            plan_faces_complete(old(self).num_divisions as int, final(self).vertices@, f as int
                + 1),
            plan_wf(final(self).vertices@),
            vertex_map@.len() == tnum(old(self).num_divisions as int + 2),
            forall|t: int, c: int|
                valid_pos(old(self).num_divisions as int, t, c) ==> #[trigger] vertex_map@[vmpos(
                    t,
                    c,
                )] == vmap_at(old(self).num_divisions as int, f as int, t, c),
    {
        let r = self.num_divisions;
        let ghost ri: int = r as int;
        let ghost fi: int = f as int;
        let ghost base: int = interior_start(ri) + fi * interior_per_face(ri);

        proof {
            lemma_num_verts_split(ri);
            lemma_tnum_nonneg(ri - 1);
            assert(ri + 2 <= 24 * (ri + 1) * (ri + 1)) by (nonlinear_arith)
                requires
                    ri >= 0,
            ;
        }

        let (ea, eb, ec) = face_edges(f);
        let num_points_in_edge = r + 2;

        // Row-major vertex map of the face: apex, then each row between the
        // side edges, then the whole bottom edge.
        let mut vertex_map: Vec<usize> = Vec::new();
        let apex = self.edge_entry(ea, 0);
        vertex_map.push(apex);

        proof {
            assert(tnum(-1) == 0);
            assert(tnum(0) == 0);
            assert(tnum(1) == 1);
            assert(fi * interior_per_face(ri) >= 0) by (nonlinear_arith)
                requires
                    fi >= 0 && interior_per_face(ri) >= 0,
            ;
            assert forall|t: int, c: int| 0 <= t < 1 && 0 <= c <= t implies #[trigger] vertex_map@[
            vmpos(t, c)] == vmap_at(ri, fi, t, c) by {
                assert(t == 0 && c == 0);
                assert(vmpos(0, 0) == 0);
            }
        }

        let mut i: usize = 1;
        while i < num_points_in_edge - 1
            invariant
                1 <= i <= r + 1,
                vertex_map@.len() == tnum(i as int),
                self.vertices@.len() == base + tnum(i as int - 2),
                self.edges == old(self).edges,
                self.indices == old(self).indices,
                self.num_divisions == old(self).num_divisions,
                self.num_verts_per_face == old(self).num_verts_per_face,
                forall|t: int, c: int|
                    0 <= t < i && 0 <= c <= t ==> #[trigger] vertex_map@[vmpos(t, c)] == vmap_at(
                        ri,
                        fi,
                        t,
                        c,
                    ),
                plan_base_complete(self.vertices@),
                plan_edges_complete(ri, self.vertices@, 12),
                plan_faces_complete(ri, self.vertices@, fi),
                plan_wf(self.vertices@),
                forall|i2: int, j2: int|
                    1 <= i2 < i && 0 <= j2 < i2 - 1 ==> self.vertices@[#[trigger] interior_vid(
                        ri,
                        fi,
                        i2,
                        j2,
                    )] == face_point(ri, fi, i2, j2),
            decreases r + 1 - i,
        {
            let ghost ii: int = i as int;
            let sa_i = self.edge_entry(ea, i);
            let sb_i = self.edge_entry(eb, i);
            let ghost vm_rows: Seq<usize> = vertex_map@;
            vertex_map.push(sa_i);
            proof {
                lemma_vm_rows_preserved(ri, fi, vm_rows, vertex_map@, ii);
                assert(vmpos(ii, 0) == tnum(ii));
                assert(vertex_map@[vmpos(ii, 0)] == sa_i);
                assert(vmap_at(ri, fi, ii, 0) == edge_vid(ri, face_side_a(fi), ii));
            }
            let num_inner_points = i - 1;
            let mut j: usize = 0;
            while j < num_inner_points
                invariant
                    0 <= j <= i - 1,
                    vertex_map@.len() == tnum(ii) + 1 + j,
                    self.vertices@.len() == base + tnum(ii - 2) + j,
                    self.edges == old(self).edges,
                    self.indices == old(self).indices,
                    self.num_divisions == old(self).num_divisions,
                    self.num_verts_per_face == old(self).num_verts_per_face,
                    forall|t: int, c: int|
                        0 <= t < ii && 0 <= c <= t ==> #[trigger] vertex_map@[vmpos(t, c)]
                            == vmap_at(ri, fi, t, c),
                    vertex_map@[vmpos(ii, 0)] == vmap_at(ri, fi, ii, 0),
                    forall|c: int|
                        1 <= c <= j ==> #[trigger] vertex_map@[vmpos(ii, c)] == vmap_at(
                            ri,
                            fi,
                            ii,
                            c,
                        ),
                    plan_base_complete(self.vertices@),
                    plan_edges_complete(ri, self.vertices@, 12),
                    plan_faces_complete(ri, self.vertices@, fi),
                    plan_wf(self.vertices@),
                    forall|i2: int, j2: int|
                        1 <= i2 < ii && 0 <= j2 < i2 - 1 ==> self.vertices@[#[trigger] interior_vid(
                            ri,
                            fi,
                            i2,
                            j2,
                        )] == face_point(ri, fi, i2, j2),
                    forall|j2: int|
                        0 <= j2 < j ==> self.vertices@[#[trigger] interior_vid(ri, fi, ii, j2)]
                            == face_point(ri, fi, ii, j2),
                decreases i - 1 - j,
            {
                let idx = self.vertices.len();
                let ghost vm_prev: Seq<usize> = vertex_map@;
                let ghost verts_prev: Seq<Vertex> = self.vertices@;
                let point = Vertex::Slerp { start: sa_i, end: sb_i, num: j + 1, den: i };
                vertex_map.push(idx);
                self.vertices.push(point);
                proof {
                    lemma_tnum_nonneg(ii - 2);
                    lemma_edge_vid_bounds(ri, face_side_a(fi), ii);
                    lemma_edge_vid_bounds(ri, face_side_b(fi), ii);
                    assert(vertex_wf(point, idx as int));
                    lemma_plan_wf_push(verts_prev, point);
                    lemma_plan_prefix_preserved(ri, fi, verts_prev, self.vertices@);
                    lemma_face_rows_preserved(ri, fi, verts_prev, self.vertices@, ii);
                    lemma_vm_rows_preserved(ri, fi, vm_prev, vertex_map@, ii);
                    assert(interior_vid(ri, fi, ii, j as int) == idx as int);
                    assert(self.vertices@[interior_vid(ri, fi, ii, j as int)] == point);
                    assert(face_point(ri, fi, ii, j as int) == point);
                    assert(vmpos(ii, j as int + 1) == tnum(ii) + 1 + j as int);
                    assert(vertex_map@[vmpos(ii, j as int + 1)] == idx);
                    assert(vmap_at(ri, fi, ii, j as int + 1) == interior_vid(ri, fi, ii, j as int));
                    assert(vertex_map@[vmpos(ii, 0)] == vm_prev[vmpos(ii, 0)]);
                    assert forall|c: int| 1 <= c <= j as int + 1 implies #[trigger] vertex_map@[
                    vmpos(ii, c)] == vmap_at(ri, fi, ii, c) by {
                        if c <= j as int {
                            assert(vertex_map@[vmpos(ii, c)] == vm_prev[vmpos(ii, c)]);
                        }
                    }
                    assert forall|j2: int| 0 <= j2 < j as int + 1 implies self.vertices@[
                    #[trigger] interior_vid(ri, fi, ii, j2)] == face_point(ri, fi, ii, j2) by {
                        if j2 < j as int {
                            assert(self.vertices@[interior_vid(ri, fi, ii, j2)]
                                == verts_prev[interior_vid(ri, fi, ii, j2)]);
                        }
                    }
                }
                j += 1;
            }
            let ghost vm_prev: Seq<usize> = vertex_map@;
            let ghost verts_row_done: Seq<Vertex> = self.vertices@;
            vertex_map.push(sb_i);
            proof {
                lemma_vm_rows_preserved(ri, fi, vm_prev, vertex_map@, ii);
                assert(vmpos(ii, ii) == tnum(ii) + ii);
                assert(vertex_map@[vmpos(ii, ii)] == sb_i);
                assert(vmap_at(ri, fi, ii, ii) == edge_vid(ri, face_side_b(fi), ii));
                assert(tnum(ii + 1) == tnum(ii) + ii + 1);
                assert(tnum(ii - 1) == tnum(ii - 2) + (ii - 1));
                assert(vertex_map@[vmpos(ii, 0)] == vm_prev[vmpos(ii, 0)]);
                assert forall|t: int, c: int| 0 <= t < ii + 1 && 0 <= c <= t implies #[trigger]
                    vertex_map@[vmpos(t, c)] == vmap_at(ri, fi, t, c) by {
                    if t == ii {
                        if c == 0 {
                        } else if c == ii {
                        } else {
                            assert(vm_prev[vmpos(ii, c)] == vmap_at(ri, fi, ii, c));
                            assert(vmpos(ii, c) < vm_prev.len());
                            assert(vertex_map@[vmpos(ii, c)] == vm_prev[vmpos(ii, c)]);
                        }
                    }
                }
                assert forall|i2: int, j2: int| 1 <= i2 < ii + 1 && 0 <= j2 < i2 - 1 implies self
                    .vertices@[#[trigger] interior_vid(ri, fi, i2, j2)] == face_point(
                    ri,
                    fi,
                    i2,
                    j2,
                ) by {}
            }
            i += 1;
        }

        // The final row of the vertex map is the whole bottom edge, reused
        // as-is: this is what keeps adjacent faces watertight.
        let mut k: usize = 0;
        while k < num_points_in_edge
            invariant
                k <= r + 2,
                vertex_map@.len() == tnum(ri + 1) + k,
                self.vertices@.len() == base + interior_per_face(ri),
                self.edges == old(self).edges,
                self.indices == old(self).indices,
                self.num_divisions == old(self).num_divisions,
                self.num_verts_per_face == old(self).num_verts_per_face,
                forall|t: int, c: int|
                    0 <= t <= ri && 0 <= c <= t ==> #[trigger] vertex_map@[vmpos(t, c)] == vmap_at(
                        ri,
                        fi,
                        t,
                        c,
                    ),
                forall|c: int|
                    0 <= c < k ==> #[trigger] vertex_map@[vmpos(ri + 1, c)] == vmap_at(
                        ri,
                        fi,
                        ri + 1,
                        c,
                    ),
            decreases r + 2 - k,
        {
            let bk = self.edge_entry(ec, k);
            let ghost vm_prev: Seq<usize> = vertex_map@;
            vertex_map.push(bk);
            proof {
                lemma_vm_rows_preserved(ri, fi, vm_prev, vertex_map@, ri + 1);
                assert(vmpos(ri + 1, k as int) == tnum(ri + 1) + k as int);
                assert(vertex_map@[vmpos(ri + 1, k as int)] == bk);
                assert(vmap_at(ri, fi, ri + 1, k as int) == edge_vid(ri, face_bottom(fi), k as int));
                assert forall|c: int| 0 <= c < k as int + 1 implies #[trigger] vertex_map@[vmpos(
                    ri + 1,
                    c,
                )] == vmap_at(ri, fi, ri + 1, c) by {
                    if c < k as int {
                        assert(vertex_map@[vmpos(ri + 1, c)] == vm_prev[vmpos(ri + 1, c)]);
                    }
                }
            }
            k += 1;
        }
        proof {
            assert(tnum(ri + 2) == tnum(ri + 1) + ri + 2);
            assert(vertex_map@.len() == tnum(ri + 2));
            assert((fi + 1) * interior_per_face(ri) == fi * interior_per_face(ri)
                + interior_per_face(ri)) by (nonlinear_arith);
            assert(tnum(ri + 1 - 2) == interior_per_face(ri));
            assert forall|t: int, c: int| valid_pos(ri, t, c) implies #[trigger] vertex_map@[vmpos(
                t,
                c,
            )] == vmap_at(ri, fi, t, c) by {
                if t <= ri {
                    assert(vertex_map@[vmpos(t, c)] == vmap_at(ri, fi, t, c));
                } else {
                    assert(vertex_map@[vmpos(ri + 1, c)] == vmap_at(ri, fi, ri + 1, c));
                }
            }
            assert(plan_faces_complete(ri, self.vertices@, fi + 1)) by {
                assert forall|f2: int, i2: int, j2: int|
                    0 <= f2 < fi + 1 && 1 <= i2 <= ri && 0 <= j2 < i2 - 1 implies self.vertices@[
                #[trigger] interior_vid(ri, f2, i2, j2)] == face_point(ri, f2, i2, j2) by {
                    if f2 == fi {
                        assert(self.vertices@[interior_vid(ri, fi, i2, j2)] == face_point(
                            ri,
                            fi,
                            i2,
                            j2,
                        ));
                    }
                }
            }
        }
        vertex_map
    }

    /// Emits the (r+1)^2 triangles of face `f` from its vertex map: row
    /// `row` contributes 2*row+1 triangles, alternating between ones that
    /// point away from the apex and ones that point toward it, with the last
    /// two corners swapped on the reversed hemisphere so that both
    /// hemispheres wind outward.
    #[verifier::loop_isolation(false)]
    #[verifier::rlimit(100)]
    fn triangulate_face(&mut self, f: usize, reverse: bool, vertex_map: &Vec<usize>)
        requires
            fits_usize(old(self).num_divisions as int),
            f < 8,
            reverse == (f >= 4),
            vertex_map@.len() == tnum(old(self).num_divisions as int + 2),
            forall|t: int, c: int|
                valid_pos(old(self).num_divisions as int, t, c) ==> #[trigger] vertex_map@[vmpos(
                    t,
                    c,
                )] == vmap_at(old(self).num_divisions as int, f as int, t, c),
            old(self).indices@.len() == 3 * (f as int * ((old(self).num_divisions as int + 1) * (
            old(self).num_divisions as int + 1))),
            indices_complete(old(self).num_divisions as int, old(self).indices@, f as int),
            indices_in_bounds(old(self).num_divisions as int, old(self).indices@),
        ensures
            final(self).num_divisions == old(self).num_divisions,
            final(self).num_verts_per_face == old(self).num_verts_per_face,
            final(self).edges == old(self).edges,
            final(self).vertices == old(self).vertices,
            final(self).indices@.len() == 3 * ((f as int + 1) * ((old(self).num_divisions as int
                + 1) * (old(self).num_divisions as int + 1))),
            indices_complete(old(self).num_divisions as int, final(self).indices@, f as int + 1),
            indices_in_bounds(old(self).num_divisions as int, final(self).indices@),
    {
        let r = self.num_divisions;
        let ghost ri: int = r as int;
        let ghost fi: int = f as int;
        let ghost dd: int = (ri + 1) * (ri + 1);

        proof {
            lemma_num_verts_split(ri);
            lemma_tnum_nonneg(ri - 1);
            assert(ri + 2 <= 24 * (ri + 1) * (ri + 1)) by (nonlinear_arith)
                requires
                    ri >= 0,
            ;
        }

        let num_rows = r + 1;
        let mut row: usize = 0;
        while row < num_rows
            invariant
                row <= r + 1,
                self.vertices == old(self).vertices,
                self.edges == old(self).edges,
                self.num_divisions == old(self).num_divisions,
                self.num_verts_per_face == old(self).num_verts_per_face,
                self.indices@.len() == 3 * (fi * dd + (row as int) * (row as int)),
                indices_complete(ri, self.indices@, fi),
                forall|r2: int, c2: int, s2: int|
                    0 <= r2 < row && 0 <= c2 < 2 * r2 + 1 && 0 <= s2 < 3 ==> self.indices@[
                        #[trigger] slot_pos(ri, fi, r2, c2, s2)] == tri_corner(ri, fi, r2, c2, s2),
                indices_in_bounds(ri, self.indices@),
            decreases r + 1 - row,
        {
            let ghost rr: int = row as int;
            proof {
                assert((rr + 2) * (rr + 2) <= 24 * (ri + 1) * (ri + 1)) by (nonlinear_arith)
                    requires
                        0 <= rr <= ri,
                ;
                lemma_tnum_closed(rr);
                lemma_tnum_closed(rr + 1);
                assert((rr + 1) * (rr + 1) - rr - 1 == rr * (rr + 1)) by (nonlinear_arith);
                assert((rr + 2) * (rr + 2) - rr - 2 == (rr + 1) * (rr + 2)) by (nonlinear_arith);
            }
            let mut top_vertex = ((row + 1) * (row + 1) - row - 1) / 2;
            let mut bottom_vertex = ((row + 2) * (row + 2) - row - 2) / 2;
            let num_triangles_in_row = 1 + 2 * row;
            let mut column: usize = 0;
            while column < num_triangles_in_row
                invariant
                    column <= 2 * row + 1,
                    top_vertex as int == tnum(rr) + (column as int + 1) / 2,
                    bottom_vertex as int == tnum(rr + 1) + (column as int + 1) / 2,
                    self.vertices == old(self).vertices,
                    self.edges == old(self).edges,
                    self.num_divisions == old(self).num_divisions,
                    self.num_verts_per_face == old(self).num_verts_per_face,
                    self.indices@.len() == 3 * (fi * dd + rr * rr + column as int),
                    indices_complete(ri, self.indices@, fi),
                    forall|r2: int, c2: int, s2: int|
                        0 <= r2 < rr && 0 <= c2 < 2 * r2 + 1 && 0 <= s2 < 3 ==> self.indices@[
                            #[trigger] slot_pos(ri, fi, r2, c2, s2)] == tri_corner(
                            ri,
                            fi,
                            r2,
                            c2,
                            s2,
                        ),
                    forall|c2: int, s2: int|
                        0 <= c2 < column && 0 <= s2 < 3 ==> self.indices@[#[trigger] slot_pos(
                            ri,
                            fi,
                            rr,
                            c2,
                            s2,
                        )] == tri_corner(ri, fi, rr, c2, s2),
                    indices_in_bounds(ri, self.indices@),
                decreases 2 * row + 1 - column,
            {
                let ghost cc: int = column as int;
                let ghost h: int = (cc + 1) / 2;
                proof {
                    if cc % 2 == 0 {
                        lemma_vmpos_range(ri, rr, h);
                        lemma_vmpos_range(ri, rr + 1, h + 1);
                        lemma_vmpos_range(ri, rr + 1, h);
                        lemma_vmap_at_bounds(ri, fi, rr, h);
                        lemma_vmap_at_bounds(ri, fi, rr + 1, h + 1);
                        lemma_vmap_at_bounds(ri, fi, rr + 1, h);
                    } else {
                        lemma_vmpos_range(ri, rr, h);
                        lemma_vmpos_range(ri, rr + 1, h);
                        lemma_vmpos_range(ri, rr, h - 1);
                        lemma_vmap_at_bounds(ri, fi, rr, h);
                        lemma_vmap_at_bounds(ri, fi, rr + 1, h);
                        lemma_vmap_at_bounds(ri, fi, rr, h - 1);
                    }
                }
                let v0: usize;
                let v1: usize;
                let v2: usize;
                if column % 2 == 0 {
                    v0 = top_vertex;
                    v1 = bottom_vertex + 1;
                    v2 = bottom_vertex;
                    top_vertex += 1;
                    bottom_vertex += 1;
                } else {
                    v0 = top_vertex;
                    v1 = bottom_vertex;
                    v2 = top_vertex - 1;
                }
                proof {
                    if cc % 2 == 0 {
                        assert(v0 as int == vmpos(rr, h));
                        assert(v1 as int == vmpos(rr + 1, h + 1));
                        assert(v2 as int == vmpos(rr + 1, h));
                    } else {
                        assert(v0 as int == vmpos(rr, h));
                        assert(v1 as int == vmpos(rr + 1, h));
                        assert(v2 as int == vmpos(rr, h - 1));
                    }
                }
                let t0 = vertex_map[v0];
                let t1 = vertex_map[if reverse { v2 } else { v1 }];
                let t2 = vertex_map[if reverse { v1 } else { v2 }];
                proof {
                    assert(t0 == tri_corner(ri, fi, rr, cc, 0));
                    assert(t1 == tri_corner(ri, fi, rr, cc, 1));
                    assert(t2 == tri_corner(ri, fi, rr, cc, 2));
                }
                let ghost prior: Seq<usize> = self.indices@;
                self.indices.push(t0);
                self.indices.push(t1);
                self.indices.push(t2);
                proof {
                    let ghost len0 = prior.len() as int;
                    assert(slot_pos(ri, fi, rr, cc, 0) == len0);
                    lemma_tri_corner_bounds(ri, fi, rr, cc, 0);
                    lemma_tri_corner_bounds(ri, fi, rr, cc, 1);
                    lemma_tri_corner_bounds(ri, fi, rr, cc, 2);
                    assert forall|f2: int, r2: int, c2: int, s2: int|
                        0 <= f2 < fi && 0 <= r2 <= ri && 0 <= c2 < 2 * r2 + 1 && 0 <= s2
                            < 3 implies self.indices@[#[trigger] slot_pos(ri, f2, r2, c2, s2)]
                        == tri_corner(ri, f2, r2, c2, s2) by {
                        lemma_slot_pos_range(ri, f2, r2, c2, s2);
                        assert(3 * ((f2 + 1) * dd) <= 3 * (fi * dd)) by (nonlinear_arith)
                            requires
                                f2 + 1 <= fi && dd >= 0,
                        ;
                        assert(rr * rr >= 0) by (nonlinear_arith);
                        assert(slot_pos(ri, f2, r2, c2, s2) < len0);
                        assert(prior[slot_pos(ri, f2, r2, c2, s2)] == tri_corner(
                            ri,
                            f2,
                            r2,
                            c2,
                            s2,
                        ));
                    }
                    assert forall|r2: int, c2: int, s2: int|
                        0 <= r2 < rr && 0 <= c2 < 2 * r2 + 1 && 0 <= s2 < 3 implies self.indices@[
                        #[trigger] slot_pos(ri, fi, r2, c2, s2)] == tri_corner(
                        ri,
                        fi,
                        r2,
                        c2,
                        s2,
                    ) by {
                        lemma_tri_order(ri, fi, r2, c2, s2, rr, cc);
                        assert(prior[slot_pos(ri, fi, r2, c2, s2)] == tri_corner(
                            ri,
                            fi,
                            r2,
                            c2,
                            s2,
                        ));
                    }
                    assert forall|c2: int, s2: int|
                        0 <= c2 < cc + 1 && 0 <= s2 < 3 implies self.indices@[#[trigger] slot_pos(
                        ri,
                        fi,
                        rr,
                        c2,
                        s2,
                    )] == tri_corner(ri, fi, rr, c2, s2) by {
                        if c2 < cc {
                            lemma_tri_order(ri, fi, rr, c2, s2, rr, cc);
                            assert(prior[slot_pos(ri, fi, rr, c2, s2)] == tri_corner(
                                ri,
                                fi,
                                rr,
                                c2,
                                s2,
                            ));
                        } else {
                            assert(slot_pos(ri, fi, rr, cc, s2) == len0 + s2);
                        }
                    }
                }
                column += 1;
            }
            proof {
                assert(rr * rr + (2 * rr + 1) == (rr + 1) * (rr + 1)) by (nonlinear_arith);
            }
            row += 1;
        }
        proof {
            assert((fi + 1) * dd == fi * dd + dd) by (nonlinear_arith);
            assert forall|f2: int, r2: int, c2: int, s2: int|
                0 <= f2 < fi + 1 && 0 <= r2 <= ri && 0 <= c2 < 2 * r2 + 1 && 0 <= s2
                    < 3 implies self.indices@[#[trigger] slot_pos(ri, f2, r2, c2, s2)]
                == tri_corner(ri, f2, r2, c2, s2) by {
                if f2 == fi {
                    assert(self.indices@[slot_pos(ri, fi, r2, c2, s2)] == tri_corner(
                        ri,
                        fi,
                        r2,
                        c2,
                        s2,
                    ));
                }
            }
        }
    }

    /// Builds the vertex map of face `f`, inserting its interior vertices,
    /// and emits the face's triangles.
    fn create_face(&mut self, f: usize, reverse: bool)
        requires
            fits_usize(old(self).num_divisions as int),
            f < 8,
            reverse == (f >= 4),
            face_progress(*old(self), old(self).num_divisions as int, f as int),
        ensures
            face_progress(*final(self), old(self).num_divisions as int, f as int + 1),
    {
        let vertex_map = self.build_vertex_map(f);
        self.triangulate_face(f, reverse, &vertex_map);
    }

    /// Regenerates the whole mesh at the given resolution: the vertex buffer
    /// becomes the complete well-formed symbolic plan (six base vertices,
    /// twelve subdivided edges, eight filled face interiors) and the index
    /// buffer lists all 8*(resolution+1)^2 triangles with shared vertices
    /// along every edge.  The result is a function of the resolution alone.
    #[verifier::loop_isolation(false)]
    pub fn generate_mesh(&mut self, resolution: usize)
        requires
            fits_usize(resolution as int),
        ensures
            mesh_generated(*final(self), resolution as int),
    {
        let r = resolution;
        let ghost ri: int = r as int;
        proof {
            lemma_num_verts_split(ri);
            lemma_tnum_nonneg(ri - 1);
            assert((ri + 3) * (ri + 3) <= 24 * (ri + 1) * (ri + 1)) by (nonlinear_arith)
                requires
                    ri >= 0,
            ;
        }
        self.num_divisions = r;
        self.num_verts_per_face = ((r + 3) * (r + 3) - (r + 3)) / 2;

        // Step 1: seed the buffer with the six base vertices.
        let mut vertices: Vec<Vertex> = Vec::new();
        let mut b: usize = 0;
        while b < 6
            invariant
                b <= 6,
                vertices@.len() == b,
                forall|v: int|
                    0 <= v < b ==> #[trigger] vertices@[v] == (Vertex::Base { index: v as usize }),
            decreases 6 - b,
        {
            vertices.push(Vertex::Base { index: b });
            b += 1;
        }
        proof {
            assert(plan_wf(vertices@));
        }

        // Step 2: subdivide the twelve edges, r interior vertices each.
        let mut edges: Vec<Edge> = Vec::new();
        let mut e: usize = 0;
        while e < 12
            invariant
                e <= 12,
                edges@.len() == e,
                forall|e2: int| 0 <= e2 < e ==> edge_complete(ri, #[trigger] edges@[e2], e2),
                vertices@.len() == 6 + e * r,
                plan_base_complete(vertices@),
                plan_edges_complete(ri, vertices@, e as int),
                plan_wf(vertices@),
            decreases 12 - e,
        {
            let ghost ei: int = e as int;
            let (sv, ev) = edge_pair(e);
            let mut edge_vertex_indices: Vec<usize> = Vec::new();
            edge_vertex_indices.push(sv);
            let mut d: usize = 0;
            while d < r
                invariant
                    d <= r,
                    edge_vertex_indices@.len() == 1 + d,
                    vertices@.len() == 6 + e * r + d,
                    edge_vertex_indices@[0] == edge_start(ei),
                    forall|k: int|
                        1 <= k <= d ==> #[trigger] edge_vertex_indices@[k] == edge_vid(ri, ei, k),
                    plan_base_complete(vertices@),
                    plan_edges_complete(ri, vertices@, ei),
                    forall|d2: int|
                        0 <= d2 < d ==> vertices@[#[trigger] edge_interior_vid(ri, ei, d2)]
                            == edge_point(ri, ei, d2),
                    plan_wf(vertices@),
                decreases r - d,
            {
                let idx = vertices.len();
                let ghost prev: Seq<Vertex> = vertices@;
                let point = Vertex::Slerp { start: sv, end: ev, num: d + 1, den: r + 1 };
                edge_vertex_indices.push(idx);
                vertices.push(point);
                proof {
                    assert(ei * ri >= 0) by (nonlinear_arith)
                        requires
                            ei >= 0 && ri >= 0,
                    ;
                    assert(vertex_wf(point, idx as int));
                    lemma_plan_wf_push(prev, point);
                    assert(edge_interior_vid(ri, ei, d as int) == idx as int);
                    assert(edge_vid(ri, ei, d as int + 1) == idx as int);
                    assert(vertices@[edge_interior_vid(ri, ei, d as int)] == point);
                    assert forall|e2: int, d2: int| 0 <= e2 < ei && 0 <= d2 < ri implies vertices@[
                    #[trigger] edge_interior_vid(ri, e2, d2)] == edge_point(ri, e2, d2) by {
                        assert(6 + e2 * ri + d2 < 6 + ei * ri) by (nonlinear_arith)
                            requires
                                0 <= e2 < ei && 0 <= d2 < ri,
                        ;
                        assert(vertices@[edge_interior_vid(ri, e2, d2)] == prev[edge_interior_vid(
                            ri,
                            e2,
                            d2,
                        )]);
                    }
                    assert forall|d2: int| 0 <= d2 < d as int + 1 implies vertices@[
                    #[trigger] edge_interior_vid(ri, ei, d2)] == edge_point(ri, ei, d2) by {
                        if d2 < d as int {
                            assert(vertices@[edge_interior_vid(ri, ei, d2)]
                                == prev[edge_interior_vid(ri, ei, d2)]);
                        }
                    }
                }
                d += 1;
            }
            edge_vertex_indices.push(ev);
            edges.push(Edge::new(edge_vertex_indices));
            proof {
                assert(edge_complete(ri, edges@[ei], ei)) by {
                    assert forall|k: int|
                        0 <= k < ri + 2 implies #[trigger] edges@[ei].vertex_indices@[k]
                        == edge_vid(ri, ei, k) by {}
                }
                assert((ei + 1) * ri == ei * ri + ri) by (nonlinear_arith);
                assert forall|e2: int, d2: int| 0 <= e2 < ei + 1 && 0 <= d2 < ri implies vertices@[
                #[trigger] edge_interior_vid(ri, e2, d2)] == edge_point(ri, e2, d2) by {}
            }
            e += 1;
        }

        // Step 3: fill and triangulate the eight faces.
        self.vertices = vertices;
        self.edges = edges;
        self.indices = Vec::new();
        proof {
            assert(0 * interior_per_face(ri) == 0) by (nonlinear_arith);
            assert(3 * (0 * ((ri + 1) * (ri + 1))) == 0) by (nonlinear_arith);
            assert(face_progress(*self, ri, 0));
        }
        let mut f: usize = 0;
        while f < 8
            invariant
                f <= 8,
                self.num_divisions == r,
                face_progress(*self, ri, f as int),
            decreases 8 - f,
        {
            let reverse = f >= 4;
            self.create_face(f, reverse);
            f += 1;
        }
        proof {
            assert(3 * (8 * ((ri + 1) * (ri + 1))) == 3 * num_tris(ri)) by (nonlinear_arith);
            assert(self.vertices@.len() == num_verts(ri));
            assert(indices_in_bounds(ri, self.indices@));
        }
    }
}

// ---------------------------------------------------------------------------
// The assembled mesh
// ---------------------------------------------------------------------------

/// The assembled output mesh: parallel position and normal buffers (for a
/// unit sphere centered at the origin the outward normal of a vertex equals
/// its position, so the buffers are identical), and the triangle list.
pub struct Mesh {
    pub positions: Vec<Vertex>,
    pub normals: Vec<Vertex>,
    pub indices: Vec<u32>,
}

impl SphereMesh {
    /// Packages the scratch state into the final mesh, narrowing the indices
    /// to the 32-bit format consumed by renderers.
    #[verifier::loop_isolation(false)]
    pub fn build_mesh(self) -> (m: Mesh)
        requires
            self.vertices@.len() <= u32::MAX as int,
            forall|p: int|
                0 <= p < self.indices@.len() ==> #[trigger] self.indices@[p]
                    < self.vertices@.len(),
        ensures
            m.positions@ == self.vertices@,
            m.normals@ == self.vertices@,
            m.indices@.len() == self.indices@.len(),
            forall|p: int|
                0 <= p < m.indices@.len() ==> #[trigger] m.indices@[p] as int == self.indices@[p]
                    as int,
    {
        let mut indices32: Vec<u32> = Vec::new();
        let mut p: usize = 0;
        while p < self.indices.len()
            invariant
                p <= self.indices@.len(),
                indices32@.len() == p,
                forall|q: int|
                    0 <= q < p ==> #[trigger] indices32@[q] as int == self.indices@[q] as int,
            decreases self.indices@.len() - p,
        {
            let v = self.indices[p];
            indices32.push(v as u32);
            p += 1;
        }
        let mut normals: Vec<Vertex> = Vec::new();
        let mut q: usize = 0;
        while q < self.vertices.len()
            invariant
                q <= self.vertices@.len(),
                normals@.len() == q,
                forall|i: int| 0 <= i < q ==> #[trigger] normals@[i] == self.vertices@[i],
            decreases self.vertices@.len() - q,
        {
            let v = self.vertices[q];
            normals.push(v);
            q += 1;
        }
        assert(normals@ =~= self.vertices@);
        Mesh { positions: self.vertices, normals, indices: indices32 }
    }
}

// ---------------------------------------------------------------------------
// Configuration
// ---------------------------------------------------------------------------

/// The single tunable of the generator, held by the embedding application:
/// a change of `resolution` is the sole trigger for regeneration.
pub struct SphereMeshComponent {
    pub resolution: usize,
}

impl Default for SphereMeshComponent {
    fn default() -> (r: Self)
        ensures
            r.resolution == 4,
    {
        Self { resolution: 4 }
    }
}

} // verus!
