//! Mesh-level laws: properties that relate the different parts of a
//! generated mesh, proved once for every resolution.
//!
//! Three laws are stated here.  Determinism: the contract of
//! `generate_mesh` pins every vertex and every index down, so two meshes
//! generated at the same resolution are identical, entry for entry.
//! Closedness: every directed triangle edge appears, reversed, in another
//! triangle.  Coverage: every vertex id is referenced by some triangle, so
//! shared edges reuse vertices instead of duplicating them.

use vstd::prelude::*;

verus! {

use vstd::arithmetic::div_mod::lemma_fundamental_div_mod;
use vstd::arithmetic::div_mod::lemma_mod_bound;
use crate::sphere_mesh::SphereMesh;
use crate::sphere_mesh::edge_interior_vid;
use crate::sphere_mesh::edge_vid;
use crate::sphere_mesh::lemma_slot_pos_range;
use crate::sphere_mesh::valid_pos;
use crate::sphere_mesh::vmap_at;
use crate::sphere_mesh::edge_point;
use crate::sphere_mesh::face_point;
use crate::sphere_mesh::interior_per_face;
use crate::sphere_mesh::interior_start;
use crate::sphere_mesh::interior_vid;
use crate::sphere_mesh::lemma_num_verts_split;
use crate::sphere_mesh::lemma_tnum_nonneg;
use crate::sphere_mesh::mesh_generated;
use crate::sphere_mesh::num_tris;
use crate::sphere_mesh::num_verts;
use crate::sphere_mesh::slot_pos;
use crate::sphere_mesh::tnum;
use crate::sphere_mesh::tri_corner;
use crate::sphere_mesh::tri_id;
use crate::sphere_mesh::Vertex;

/// Every vertex id in the edge-interior range comes from exactly one edge
/// subdivision step; this returns that edge and step.
proof fn lemma_locate_edge_vertex(r: int, v: int) -> (ed: (int, int))
    requires
        r >= 1,
        6 <= v < 6 + 12 * r,
    ensures
        0 <= ed.0 < 12,
        0 <= ed.1 < r,
        v == edge_interior_vid(r, ed.0, ed.1),
{
    let w = v - 6;
    let e = w / r;
    let d = w % r;
    lemma_fundamental_div_mod(w, r);
    lemma_mod_bound(w, r);
    assert(0 <= e < 12) by (nonlinear_arith)
        requires
            0 <= w < 12 * r && w == r * e + d && 0 <= d < r,
    ;
    assert(e * r == r * e) by (nonlinear_arith);
    (e, d)
}

/// Locates the row of a triangular layout: every offset below `tnum(n)`
/// falls in exactly one row i, between `tnum(i-1)` and `tnum(i)`.
proof fn lemma_locate_row(u: int, n: int) -> (i: int)
    requires
        0 <= u,
        1 <= n,
        u < tnum(n),
    ensures
        1 <= i <= n,
        tnum(i - 1) <= u < tnum(i),
    decreases n,
{
    if u < tnum(n - 1) {
        lemma_locate_row(u, n - 1)
    } else {
        n
    }
}

/// Every vertex id in the face-interior range comes from exactly one face,
/// row, and column of the interior fill; this returns that triple.
proof fn lemma_locate_face_vertex(r: int, v: int) -> (fij: (int, int, int))
    requires
        r >= 0,
        interior_start(r) <= v < num_verts(r),
    ensures
        0 <= fij.0 < 8,
        1 <= fij.1 <= r,
        0 <= fij.2 < fij.1 - 1,
        v == interior_vid(r, fij.0, fij.1, fij.2),
{
    lemma_num_verts_split(r);
    lemma_tnum_nonneg(r - 1);
    let ipf = interior_per_face(r);
    let w = v - interior_start(r);
    assert(w < 8 * ipf);
    assert(ipf > 0) by (nonlinear_arith)
        requires
            0 <= w < 8 * ipf,
    ;
    let f = w / ipf;
    let u = w % ipf;
    lemma_fundamental_div_mod(w, ipf);
    lemma_mod_bound(w, ipf);
    assert(0 <= f < 8) by (nonlinear_arith)
        requires
            0 <= w < 8 * ipf && w == ipf * f + u && 0 <= u < ipf,
    ;
    let m = lemma_locate_row(u, r - 1);
    assert(tnum(m) == tnum(m - 1) + m);
    (f, m + 1, u - tnum(m - 1))
}

/// Locates the row of a square layout: every triangle offset below `n*n`
/// falls in exactly one row, between `row*row` and `(row+1)*(row+1)`.
proof fn lemma_locate_tri_row(m: int, n: int) -> (row: int)
    requires
        0 <= m,
        1 <= n,
        m < n * n,
    ensures
        0 <= row < n,
        row * row <= m < (row + 1) * (row + 1),
    decreases n,
{
    if m < (n - 1) * (n - 1) {
        assert(n - 1 >= 1) by (nonlinear_arith)
            requires
                0 <= m < (n - 1) * (n - 1) && n >= 1,
        ;
        lemma_locate_tri_row(m, n - 1)
    } else {
        n - 1
    }
}

/// Every position of the index buffer belongs to exactly one slot of one
/// triangle of one face; this returns face, row, column and slot.
proof fn lemma_locate_slot(r: int, p: int) -> (x: (int, int, int, int))
    requires
        r >= 0,
        0 <= p < 3 * num_tris(r),
    ensures
        0 <= x.0 < 8,
        0 <= x.1 <= r,
        0 <= x.2 < 2 * x.1 + 1,
        0 <= x.3 < 3,
        p == slot_pos(r, x.0, x.1, x.2, x.3),
{
    let dd = (r + 1) * (r + 1);
    assert(dd >= 1) by (nonlinear_arith)
        requires
            dd == (r + 1) * (r + 1) && r >= 0,
    ;
    let q = p / 3;
    let s = p % 3;
    lemma_fundamental_div_mod(p, 3);
    lemma_mod_bound(p, 3);
    assert(num_tris(r) == 8 * (r + 1) * (r + 1));
    assert(3 * (8 * (r + 1) * (r + 1)) == 24 * dd) by (nonlinear_arith)
        requires
            dd == (r + 1) * (r + 1),
    ;
    assert(0 <= q < 8 * dd) by (nonlinear_arith)
        requires
            0 <= p < 24 * dd && p == 3 * q + s && 0 <= s < 3,
    ;
    let f = q / dd;
    let m = q % dd;
    lemma_fundamental_div_mod(q, dd);
    lemma_mod_bound(q, dd);
    assert(0 <= f < 8) by (nonlinear_arith)
        requires
            0 <= q < 8 * dd && q == dd * f + m && 0 <= m < dd,
    ;
    let row = lemma_locate_tri_row(m, r + 1);
    let c = m - row * row;
    assert(c < 2 * row + 1) by (nonlinear_arith)
        requires
            m < (row + 1) * (row + 1) && c == m - row * row,
    ;
    assert(slot_pos(r, f, row, c, s) == 3 * (f * dd + m) + s);
    (f, row, c, s)
}

/// Regeneration at an unchanged resolution is idempotent: the contract of
/// `generate_mesh` determines every entry of the vertex buffer and of the
/// index buffer, so two meshes generated at the same resolution are
/// identical.
pub proof fn lemma_generate_deterministic(m1: SphereMesh, m2: SphereMesh, r: int)
    requires
        r >= 0,
        mesh_generated(m1, r),
        mesh_generated(m2, r),
    ensures
        m1.vertices@ == m2.vertices@,
        m1.indices@ == m2.indices@,
{
    lemma_num_verts_split(r);
    assert forall|v: int| 0 <= v < num_verts(r) implies m1.vertices@[v] == m2.vertices@[v] by {
        if v < 6 {
            assert(m1.vertices@[v] == (Vertex::Base { index: v as usize }));
            assert(m2.vertices@[v] == (Vertex::Base { index: v as usize }));
        } else if v < interior_start(r) {
            let ed = lemma_locate_edge_vertex(r, v);
            assert(m1.vertices@[edge_interior_vid(r, ed.0, ed.1)] == edge_point(r, ed.0, ed.1));
            assert(m2.vertices@[edge_interior_vid(r, ed.0, ed.1)] == edge_point(r, ed.0, ed.1));
        } else {
            let fij = lemma_locate_face_vertex(r, v);
            assert(m1.vertices@[interior_vid(r, fij.0, fij.1, fij.2)] == face_point(
                r,
                fij.0,
                fij.1,
                fij.2,
            ));
            assert(m2.vertices@[interior_vid(r, fij.0, fij.1, fij.2)] == face_point(
                r,
                fij.0,
                fij.1,
                fij.2,
            ));
        }
    }
    assert(m1.vertices@ =~= m2.vertices@);
    assert forall|p: int| 0 <= p < 3 * num_tris(r) implies m1.indices@[p] == m2.indices@[p] by {
        let x = lemma_locate_slot(r, p);
        assert(m1.indices@[slot_pos(r, x.0, x.1, x.2, x.3)] == tri_corner(r, x.0, x.1, x.2, x.3));
        assert(m2.indices@[slot_pos(r, x.0, x.1, x.2, x.3)] == tri_corner(r, x.0, x.1, x.2, x.3));
    }
    assert(m1.indices@ =~= m2.indices@);
}

/// Every vertex map position of a face is a corner of at least one of the
/// face's triangles; this returns that triangle's row, column, and slot.
proof fn lemma_vmap_pos_referenced(r: int, f: int, t: int, c: int) -> (x: (int, int, int))
    requires
        r >= 0,
        0 <= f < 8,
        valid_pos(r, t, c),
    ensures
        0 <= x.0 <= r,
        0 <= x.1 < 2 * x.0 + 1,
        0 <= x.2 < 3,
        tri_corner(r, f, x.0, x.1, x.2) == vmap_at(r, f, t, c),
{
    if t <= r {
        assert((2 * c + 1) / 2 == c);
        (t, 2 * c, 0)
    } else if c <= r {
        assert((2 * c + 1) / 2 == c);
        if f < 4 {
            (r, 2 * c, 2)
        } else {
            (r, 2 * c, 1)
        }
    } else {
        assert((2 * r + 1) / 2 == r);
        if f < 4 {
            (r, 2 * r, 1)
        } else {
            (r, 2 * r, 2)
        }
    }
}

/// Every vertex id lies at some vertex map position of some face; this
/// returns that face and position.
proof fn lemma_vertex_on_some_face(r: int, v: int) -> (x: (int, int, int))
    requires
        r >= 0,
        0 <= v < num_verts(r),
    ensures
        0 <= x.0 < 8,
        valid_pos(r, x.1, x.2),
        vmap_at(r, x.0, x.1, x.2) == v,
{
    lemma_num_verts_split(r);
    lemma_tnum_nonneg(r - 1);
    if v < 6 {
        if v == 0 {
            (0, 0, 0)
        } else if v == 5 {
            (4, 0, 0)
        } else {
            assert(vmap_at(r, v - 1, r + 1, 0) == edge_vid(r, v + 3, 0));
            (v - 1, r + 1, 0)
        }
    } else if v < interior_start(r) {
        let (e, d) = lemma_locate_edge_vertex(r, v);
        assert(edge_vid(r, e, d + 1) == v);
        if e < 4 {
            (e, d + 1, 0)
        } else if e < 8 {
            (e - 4, r + 1, d + 1)
        } else {
            (e - 4, d + 1, 0)
        }
    } else {
        let (f, i, j) = lemma_locate_face_vertex(r, v);
        (f, i, j + 1)
    }
}

/// Slot after `s` in a triangle's three-corner cycle.
pub open spec fn next_slot(s: int) -> int {
    if s == 2 {
        0
    } else {
        s + 1
    }
}

/// Watertightness, one direction: the directed edge leaving slot `s` of
/// triangle (f, row, c) occurs with its endpoints swapped as a directed
/// edge of another triangle of the mesh.  Interior edges pair with the
/// adjacent triangle of the same face; edges on a side edge or on the
/// bottom edge of a face pair across the face boundary, which is possible
/// only because adjacent faces reference identical vertex ids there.
pub proof fn lemma_edge_shared_with_another_triangle(
    r: int,
    f: int,
    row: int,
    c: int,
    s: int,
) -> (x: (int, int, int, int))
    requires
        r >= 0,
        0 <= f < 8,
        0 <= row <= r,
        0 <= c < 2 * row + 1,
        0 <= s < 3,
    ensures
        0 <= x.0 < 8,
        0 <= x.1 <= r,
        0 <= x.2 < 2 * x.1 + 1,
        0 <= x.3 < 3,
        (x.0, x.1, x.2) != (f, row, c),
        tri_corner(r, x.0, x.1, x.2, x.3) == tri_corner(r, f, row, c, next_slot(s)),
        tri_corner(r, x.0, x.1, x.2, next_slot(x.3)) == tri_corner(r, f, row, c, s),
{
    // Undo the per-hemisphere corner swap: slot edge `s` of an emitted
    // triangle is corner edge `s` of the underlying (v0, v1, v2) cycle on
    // faces 0..3, and the reverse of corner edge `2 - s` on faces 4..7.
    let k = if f < 4 {
        s
    } else {
        2 - s
    };
    let h = (c + 1) / 2;
    if c % 2 == 0 {
        if k == 0 {
            // Diagonal edge from (row, h) down to (row+1, h+1).
            if c < 2 * row {
                let xp = (f, row, c + 1, if f < 4 { 1int } else { 1int });
                assert((c + 2) / 2 == h + 1);
                xp
            } else {
                // Rightmost triangle: the edge runs down side edge b, and
                // pairs with the leftmost triangle of the face that has the
                // same edge as its side edge a.
                let fp = if f < 4 {
                    (f + 1) % 4
                } else {
                    (f - 4 + 1) % 4 + 4
                };
                let xp = (fp, row, 0, if fp < 4 { 2int } else { 0int });
                xp
            }
        } else if k == 1 {
            // Horizontal edge from (row+1, h+1) to (row+1, h).
            if row < r {
                let xp = (f, row + 1, 2 * h + 1, if f < 4 { 2int } else { 0int });
                assert((2 * h + 2) / 2 == h + 1);
                xp
            } else {
                // Bottom row: the edge runs along the bottom edge of the
                // face and pairs with the same column of the face in the
                // other hemisphere, which shares the bottom edge and emits
                // its corners in the mirrored order.
                let fp = if f < 4 {
                    f + 4
                } else {
                    f - 4
                };
                let xp = (fp, row, c, 1int);
                xp
            }
        } else {
            // Diagonal edge from (row+1, h) up to (row, h).
            if c > 0 {
                let xp = (f, row, c - 1, if f < 4 { 0int } else { 2int });
                assert(c / 2 == h);
                xp
            } else {
                // Leftmost triangle: the edge runs up side edge a, and
                // pairs with the rightmost triangle of the face that has
                // the same edge as its side edge b.
                let fp = if f < 4 {
                    (f + 3) % 4
                } else {
                    (f - 4 + 3) % 4 + 4
                };
                let xp = (fp, row, 2 * row, if fp < 4 { 0int } else { 2int });
                assert((2 * row + 1) / 2 == row);
                xp
            }
        }
    } else {
        if k == 0 {
            // Edge from (row, h) down to (row+1, h).
            let xp = (f, row, c + 1, if f < 4 { 2int } else { 0int });
            assert((c + 2) / 2 == h);
            xp
        } else if k == 1 {
            // Edge from (row+1, h) up to (row, h-1).
            let xp = (f, row, c - 1, if f < 4 { 0int } else { 2int });
            assert(c / 2 == h - 1);
            xp
        } else {
            // Horizontal edge from (row, h-1) to (row, h), paired with the
            // triangle that has it as its bottom edge, one row up.
            let xp = (f, row - 1, c - 1, 1int);
            assert(c / 2 == h - 1);
            xp
        }
    }
}

/// Triangle numbers are distinct for distinct (face, row, column) triples.
proof fn lemma_tri_id_injective(
    r: int,
    f1: int,
    row1: int,
    c1: int,
    f2: int,
    row2: int,
    c2: int,
)
    requires
        r >= 0,
        0 <= f1 < 8,
        0 <= row1 <= r,
        0 <= c1 < 2 * row1 + 1,
        0 <= f2 < 8,
        0 <= row2 <= r,
        0 <= c2 < 2 * row2 + 1,
        tri_id(r, f1, row1, c1) == tri_id(r, f2, row2, c2),
    ensures
        f1 == f2,
        row1 == row2,
        c1 == c2,
{
    let dd = (r + 1) * (r + 1);
    let m1 = row1 * row1 + c1;
    let m2 = row2 * row2 + c2;
    assert(0 <= m1 < dd && 0 <= m2 < dd) by (nonlinear_arith)
        requires
            dd == (r + 1) * (r + 1) && m1 == row1 * row1 + c1 && m2 == row2 * row2 + c2 && 0
                <= row1 <= r && 0 <= c1 < 2 * row1 + 1 && 0 <= row2 <= r && 0 <= c2 < 2 * row2 + 1,
    ;
    assert(f1 == f2) by (nonlinear_arith)
        requires
            f1 * dd + m1 == f2 * dd + m2 && 0 <= m1 < dd && 0 <= m2 < dd,
    ;
    assert(row1 == row2) by (nonlinear_arith)
        requires
            row1 * row1 + c1 == row2 * row2 + c2 && 0 <= row1 && 0 <= c1 < 2 * row1 + 1 && 0
                <= row2 && 0 <= c2 < 2 * row2 + 1,
    ;
}

/// Watertightness at the index buffer, one direction: the directed edge
/// that leaves position `p` of the buffer (toward the next corner of its
/// triangle) appears with its endpoints swapped in a different triangle.
/// Since the corners of a triangle wind consistently, this is the closed-
/// surface property: no triangle edge lies on a boundary.
pub proof fn lemma_mesh_edge_shared(m: SphereMesh, r: int, p: int) -> (q: int)
    requires
        r >= 0,
        mesh_generated(m, r),
        0 <= p < m.indices@.len(),
    ensures
        0 <= q < m.indices@.len(),
        q / 3 != p / 3,
        m.indices@[q] == m.indices@[3 * (p / 3) + next_slot(p % 3)],
        m.indices@[3 * (q / 3) + next_slot(q % 3)] == m.indices@[p],
{
    let x = lemma_locate_slot(r, p);
    let y = lemma_edge_shared_with_another_triangle(r, x.0, x.1, x.2, x.3);
    let q = slot_pos(r, y.0, y.1, y.2, y.3);
    let dd = (r + 1) * (r + 1);
    lemma_slot_pos_range(r, y.0, y.1, y.2, y.3);
    assert(3 * ((y.0 + 1) * dd) <= 3 * (8 * dd)) by (nonlinear_arith)
        requires
            y.0 + 1 <= 8 && dd >= 0,
    ;
    assert(3 * num_tris(r) == 3 * (8 * dd)) by (nonlinear_arith)
        requires
            dd == (r + 1) * (r + 1),
    ;
    assert(p / 3 == tri_id(r, x.0, x.1, x.2) && p % 3 == x.3);
    assert(q / 3 == tri_id(r, y.0, y.1, y.2) && q % 3 == y.3);
    if tri_id(r, x.0, x.1, x.2) == tri_id(r, y.0, y.1, y.2) {
        lemma_tri_id_injective(r, x.0, x.1, x.2, y.0, y.1, y.2);
        assert(false);
    }
    assert(m.indices@[q] == tri_corner(r, y.0, y.1, y.2, y.3));
    assert(m.indices@[slot_pos(r, x.0, x.1, x.2, next_slot(x.3))] == tri_corner(
        r,
        x.0,
        x.1,
        x.2,
        next_slot(x.3),
    ));
    assert(m.indices@[slot_pos(r, y.0, y.1, y.2, next_slot(y.3))] == tri_corner(
        r,
        y.0,
        y.1,
        y.2,
        next_slot(y.3),
    ));
    assert(m.indices@[p] == tri_corner(r, x.0, x.1, x.2, x.3));
    q
}

/// No vertex is orphaned and none is duplicated: every vertex id below the
/// vertex count appears in the index buffer, so the set of distinct ids the
/// triangles reference is exactly the vertex count -- adjacent faces share
/// the ids of the vertices along their common edge instead of emitting
/// copies.
pub proof fn lemma_every_vertex_referenced(m: SphereMesh, r: int, v: int)
    requires
        r >= 0,
        mesh_generated(m, r),
        0 <= v < num_verts(r),
    ensures
        exists|p: int| 0 <= p < m.indices@.len() && m.indices@[p] == v,
{
    let x = lemma_vertex_on_some_face(r, v);
    let y = lemma_vmap_pos_referenced(r, x.0, x.1, x.2);
    let p = slot_pos(r, x.0, y.0, y.1, y.2);
    lemma_slot_pos_range(r, x.0, y.0, y.1, y.2);
    assert(3 * ((x.0 + 1) * ((r + 1) * (r + 1))) <= 3 * (8 * ((r + 1) * (r + 1))))
        by (nonlinear_arith)
        requires
            x.0 + 1 <= 8 && (r + 1) * (r + 1) >= 0,
    ;
    assert(3 * num_tris(r) == 3 * (8 * ((r + 1) * (r + 1)))) by (nonlinear_arith);
    assert(m.indices@[p] == tri_corner(r, x.0, y.0, y.1, y.2));
    assert(0 <= p < m.indices@.len() && m.indices@[p] == v);
}

} // verus!
