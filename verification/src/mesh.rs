use vstd::prelude::*;
use vstd::arithmetic::power2::{pow2, lemma2_to64_rest, lemma_pow2_strictly_increases};
use crate::geom::{coord_ok, pts_ok, paths_view};
use crate::decode::{Feature, GeomType, SpecFeature, Tile, tile_paths_ok};
use crate::tile::{TileAddress, pow2_u64};

verus! {

/// Index triple into a vertex list; the vertices are stored in
/// counter-clockwise order for a front-facing triangle.
#[derive(Clone, Copy, PartialEq, Eq, Structural, Debug)]
pub struct Triangle {
    pub a: usize,
    pub b: usize,
    pub c: usize,
}

/// Planar triangle mesh in a layer's local integer space.
pub struct Mesh {
    pub vertices: Vec<(i64, i64)>,
    pub triangles: Vec<Triangle>,
}

impl Mesh {
    /// Every triangle index points at an existing vertex.
    pub open spec fn wf(self) -> bool {
        forall|k: int|
            0 <= k < self.triangles@.len() ==> {
                let t = #[trigger] self.triangles@[k];
                t.a < self.vertices@.len() && t.b < self.vertices@.len() && t.c
                    < self.vertices@.len()
            }
    }
}

/// Twice the signed area contribution of the ring edge leaving point `k`.
pub open spec fn edge_term(pts: Seq<(i64, i64)>, k: int) -> int {
    let p = pts[k];
    let q = pts[if k + 1 == pts.len() { 0int } else { k + 1 }];
    p.0 * q.1 - q.0 * p.1
}

/// Twice the signed area accumulated over the first `k` ring edges.
pub open spec fn shoelace_upto(pts: Seq<(i64, i64)>, k: nat) -> int
    decreases k,
{
    if k == 0 {
        0
    } else {
        shoelace_upto(pts, (k - 1) as nat) + edge_term(pts, k - 1)
    }
}

/// Twice the signed area of a ring (positive = counter-clockwise here).
pub open spec fn ring_area2(pts: Seq<(i64, i64)>) -> int {
    shoelace_upto(pts, pts.len())
}

/// A ring with fewer than 3 points or zero signed area spans no surface.
pub open spec fn degenerate_ring(pts: Seq<(i64, i64)>) -> bool {
    pts.len() < 3 || ring_area2(pts) == 0
}

/// Twice the signed area of the triangle (o, p, q).
pub open spec fn cross2(o: (i64, i64), p: (i64, i64), q: (i64, i64)) -> int {
    (p.0 - o.0) * (q.1 - o.1) - (q.0 - o.0) * (p.1 - o.1)
}

/// Triangles indexing only existing points, each wound positively.
pub open spec fn tris_ok(tris: Seq<Triangle>, pts: Seq<(i64, i64)>) -> bool {
    forall|k: int|
        0 <= k < tris.len() ==> {
            let t = #[trigger] tris[k];
            &&& t.a < pts.len() && t.b < pts.len() && t.c < pts.len()
            &&& cross2(pts[t.a as int], pts[t.b as int], pts[t.c as int]) > 0
        }
}

/// Largest ring the tessellator accepts; keeps area sums inside `i128`.
pub const MAX_RING_POINTS: usize = 0x100_0000;

/// Twice the signed area of the ring, computed exactly.
fn area2_of(pts: &Vec<(i64, i64)>) -> (r: i128)
    requires
        pts_ok(pts@),
        pts@.len() <= MAX_RING_POINTS,
    ensures
        r as int == ring_area2(pts@),
{
    let n = pts.len();
    let mut acc: i128 = 0;
    let mut k: usize = 0;
    while k < n
        invariant
            pts_ok(pts@),
            n == pts@.len() <= MAX_RING_POINTS,
            k <= n,
            acc as int == shoelace_upto(pts@, k as nat),
            -((k as i128) * 0x2000_0000_0000_0000) <= acc <= (k as i128) * 0x2000_0000_0000_0000,
        decreases n - k,
    {
        let p = pts[k];
        let q = if k + 1 == n {
            pts[0]
        } else {
            pts[k + 1]
        };
        assert(coord_ok(p.0 as int) && coord_ok(p.1 as int));
        assert(coord_ok(q.0 as int) && coord_ok(q.1 as int));
        proof {
            assert((p.0 as int) * (q.1 as int) <= 0x1000_0000_0000_0000
                && (p.0 as int) * (q.1 as int) >= -0x1000_0000_0000_0000 && (q.0 as int) * (
            p.1 as int) <= 0x1000_0000_0000_0000 && (q.0 as int) * (p.1 as int)
                >= -0x1000_0000_0000_0000) by (nonlinear_arith)
                requires
                    -0x1000_0000 <= p.0 <= 0x1000_0000,
                    -0x1000_0000 <= p.1 <= 0x1000_0000,
                    -0x1000_0000 <= q.0 <= 0x1000_0000,
                    -0x1000_0000 <= q.1 <= 0x1000_0000,
            ;
            assert((k as i128) * 0x2000_0000_0000_0000 + 0x2000_0000_0000_0000 == ((k + 1) as i128)
                * 0x2000_0000_0000_0000) by (nonlinear_arith);
            assert(((k + 1) as i128) * 0x2000_0000_0000_0000 <= 0x100_0000i128
                * 0x2000_0000_0000_0000) by (nonlinear_arith)
                requires
                    k + 1 <= 0x100_0000,
            ;
        }
        let term: i128 = (p.0 as i128) * (q.1 as i128) - (q.0 as i128) * (p.1 as i128);
        acc = acc + term;
        k = k + 1;
    }
    acc
}

/// Twice the signed area of the triangle over points `a`, `b`, `c`.
fn cross_exec(pts: &Vec<(i64, i64)>, a: usize, b: usize, c: usize) -> (r: i128)
    requires
        pts_ok(pts@),
        a < pts@.len(),
        b < pts@.len(),
        c < pts@.len(),
    ensures
        r as int == cross2(pts@[a as int], pts@[b as int], pts@[c as int]),
{
    let o = pts[a];
    let p = pts[b];
    let q = pts[c];
    assert(coord_ok(o.0 as int) && coord_ok(o.1 as int));
    assert(coord_ok(p.0 as int) && coord_ok(p.1 as int));
    assert(coord_ok(q.0 as int) && coord_ok(q.1 as int));
    let d1: i128 = (p.0 as i128) - (o.0 as i128);
    let d2: i128 = (q.1 as i128) - (o.1 as i128);
    let d3: i128 = (q.0 as i128) - (o.0 as i128);
    let d4: i128 = (p.1 as i128) - (o.1 as i128);
    proof {
        assert(d1 * d2 <= 0x4000_0000_0000_0000 && d1 * d2 >= -0x4000_0000_0000_0000 && d3 * d4
            <= 0x4000_0000_0000_0000 && d3 * d4 >= -0x4000_0000_0000_0000) by (nonlinear_arith)
            requires
                -0x2000_0000 <= d1 <= 0x2000_0000,
                -0x2000_0000 <= d2 <= 0x2000_0000,
                -0x2000_0000 <= d3 <= 0x2000_0000,
                -0x2000_0000 <= d4 <= 0x2000_0000,
        ;
    }
    d1 * d2 - d3 * d4
}

/// Whether point `j` lies inside or on the positively wound triangle over
/// points `a`, `b`, `c`; used only to pick ears, so it carries no contract
/// beyond safety.
fn pt_in_tri(pts: &Vec<(i64, i64)>, j: usize, a: usize, b: usize, c: usize) -> (r: bool)
    requires
        pts_ok(pts@),
        j < pts@.len(),
        a < pts@.len(),
        b < pts@.len(),
        c < pts@.len(),
{
    let s1 = cross_exec(pts, a, b, j);
    let s2 = cross_exec(pts, b, c, j);
    let s3 = cross_exec(pts, c, a, j);
    s1 >= 0 && s2 >= 0 && s3 >= 0
}

/// The signed area of a three-point ring is the cross product of its points.
proof fn lemma_area2_triangle(pts: Seq<(i64, i64)>)
    requires
        pts.len() == 3,
    ensures
        ring_area2(pts) == cross2(pts[0], pts[1], pts[2]),
{
    let a = pts[0];
    let b = pts[1];
    let c = pts[2];
    assert(shoelace_upto(pts, 3) == shoelace_upto(pts, 2) + edge_term(pts, 2));
    assert(shoelace_upto(pts, 2) == shoelace_upto(pts, 1) + edge_term(pts, 1));
    assert(shoelace_upto(pts, 1) == shoelace_upto(pts, 0) + edge_term(pts, 0));
    assert(a.0 * b.1 - b.0 * a.1 + (b.0 * c.1 - c.0 * b.1) + (c.0 * a.1 - a.0 * c.1) == (b.0 - a.0)
        * (c.1 - a.1) - (c.0 - a.0) * (b.1 - a.1)) by (nonlinear_arith);
}

/// Reversing a triangle's point order negates its signed area.
proof fn lemma_cross2_reverse(a: (i64, i64), b: (i64, i64), c: (i64, i64))
    ensures
        cross2(c, b, a) == -cross2(a, b, c),
{
    assert((b.0 - c.0) * (a.1 - c.1) - (a.0 - c.0) * (b.1 - c.1) == -((b.0 - a.0) * (c.1 - a.1) - (
    c.0 - a.0) * (b.1 - a.1))) by (nonlinear_arith);
}

/// Ear-clipping tessellation of one merged ring.  Emits only positively
/// wound triangles over existing points, never more than `len - 2` of them,
/// and none at all for a degenerate ring.
pub fn triangulate(pts: &Vec<(i64, i64)>) -> (out: Vec<Triangle>)
    requires
        pts_ok(pts@),
        pts@.len() <= MAX_RING_POINTS,
    ensures
        tris_ok(out@, pts@),
        pts@.len() >= 3 ==> out@.len() <= pts@.len() - 2,
        pts@.len() < 3 ==> out@.len() == 0,
        degenerate_ring(pts@) ==> out@.len() == 0,
        pts@.len() == 3 && !degenerate_ring(pts@) ==> out@.len() == 1,
{
    let n = pts.len();
    let mut out: Vec<Triangle> = Vec::new();
    if n < 3 {
        return out;
    }
    let area2 = area2_of(pts);
    if area2 == 0 {
        return out;
    }
    let mut idxs: Vec<usize> = Vec::new();
    if area2 > 0 {
        let mut k: usize = 0;
        while k < n
            invariant
                k <= n,
                idxs@.len() == k,
                forall|t: int| 0 <= t < idxs@.len() ==> (#[trigger] idxs@[t]) < n,
                forall|t: int| 0 <= t < idxs@.len() ==> (#[trigger] idxs@[t]) as int == t,
            decreases n - k,
        {
            idxs.push(k);
            k = k + 1;
        }
    } else {
        let mut k: usize = 0;
        while k < n
            invariant
                k <= n,
                idxs@.len() == k,
                forall|t: int| 0 <= t < idxs@.len() ==> (#[trigger] idxs@[t]) < n,
                forall|t: int| 0 <= t < idxs@.len() ==> (#[trigger] idxs@[t]) as int == n - 1 - t,
            decreases n - k,
        {
            idxs.push(n - 1 - k);
            k = k + 1;
        }
    }
    let ghost init_idxs = idxs@;
    let ghost fwd = area2 > 0;
    while idxs.len() > 3
        invariant
            pts_ok(pts@),
            n == pts@.len(),
            n <= MAX_RING_POINTS,
            3 <= idxs@.len() <= n,
            forall|t: int| 0 <= t < idxs@.len() ==> (#[trigger] idxs@[t]) < n,
            out@.len() + idxs@.len() <= n,
            tris_ok(out@, pts@),
            n == 3 ==> idxs@ == init_idxs && out@.len() == 0,
        decreases idxs@.len(),
    {
        let m = idxs.len();
        let mut ear: usize = m;
        let mut first_convex: usize = m;
        let mut ii: usize = 0;
        while ii < m
            invariant
                pts_ok(pts@),
                n == pts@.len(),
                n <= MAX_RING_POINTS,
                m == idxs@.len(),
                3 < m <= n,
                ii <= m,
                forall|t: int| 0 <= t < idxs@.len() ==> (#[trigger] idxs@[t]) < n,
                ear <= m,
                first_convex <= m,
            decreases m - ii,
        {
            let a = idxs[(ii + m - 1) % m];
            let b = idxs[ii];
            let c = idxs[(ii + 1) % m];
            let cr = cross_exec(pts, a, b, c);
            if cr > 0 {
                if first_convex == m {
                    first_convex = ii;
                }
                let mut blocked = false;
                let mut jj: usize = 0;
                while jj < m
                    invariant
                        pts_ok(pts@),
                        n == pts@.len(),
                        n <= MAX_RING_POINTS,
                        m == idxs@.len(),
                        3 < m <= n,
                        ii < m,
                        jj <= m,
                        a < n,
                        b < n,
                        c < n,
                        forall|t: int| 0 <= t < idxs@.len() ==> (#[trigger] idxs@[t]) < n,
                    decreases m - jj,
                {
                    if jj != ii && jj != (ii + m - 1) % m && jj != (ii + 1) % m {
                        if pt_in_tri(pts, idxs[jj], a, b, c) {
                            blocked = true;
                        }
                    }
                    jj = jj + 1;
                }
                if !blocked {
                    ear = ii;
                    break ;
                }
            }
            ii = ii + 1;
        }
        let choice = if ear < m {
            ear
        } else {
            first_convex
        };
        if choice < m {
            let a = idxs[(choice + m - 1) % m];
            let b = idxs[choice];
            let c = idxs[(choice + 1) % m];
            let cr = cross_exec(pts, a, b, c);
            if cr > 0 {
                out.push(Triangle { a, b, c });
            }
            idxs.remove(choice);
        } else {
            idxs.remove(0);
        }
        assert(forall|t: int| 0 <= t < idxs@.len() ==> (#[trigger] idxs@[t]) < n);
    }
    let a = idxs[0];
    let b = idxs[1];
    let c = idxs[2];
    let cr = cross_exec(pts, a, b, c);
    proof {
        if n == 3 {
            lemma_area2_triangle(pts@);
            if fwd {
                assert(a == 0 && b == 1 && c == 2);
            } else {
                assert(a == 2 && b == 1 && c == 0);
                lemma_cross2_reverse(pts@[0], pts@[1], pts@[2]);
            }
            assert(cr > 0);
        }
    }
    if cr > 0 {
        out.push(Triangle { a, b, c });
    }
    out
}

/// Copies a point vector.
fn copy_pts(v: &Vec<(i64, i64)>) -> (out: Vec<(i64, i64)>)
    ensures
        out@ == v@,
{
    let mut out: Vec<(i64, i64)> = Vec::new();
    let mut k: usize = 0;
    while k < v.len()
        invariant
            k <= v@.len(),
            out@ == v@.subrange(0, k as int),
        decreases v@.len() - k,
    {
        out.push(v[k]);
        k = k + 1;
    }
    proof {
        assert(out@ =~= v@);
    }
    out
}

/// Squared distance between two bounded points; used only to pick bridge
/// endpoints, so it carries no contract beyond safety.
fn dist2(p: (i64, i64), q: (i64, i64)) -> (r: i128)
    requires
        coord_ok(p.0 as int),
        coord_ok(p.1 as int),
        coord_ok(q.0 as int),
        coord_ok(q.1 as int),
{
    let dx: i128 = (p.0 as i128) - (q.0 as i128);
    let dy: i128 = (p.1 as i128) - (q.1 as i128);
    proof {
        assert(dx * dx <= 0x4000_0000_0000_0000 && dx * dx >= 0 && dy * dy <= 0x4000_0000_0000_0000
            && dy * dy >= 0) by (nonlinear_arith)
            requires
                -0x2000_0000 <= dx <= 0x2000_0000,
                -0x2000_0000 <= dy <= 0x2000_0000,
        ;
    }
    dx * dx + dy * dy
}

/// Merges an outer ring with its holes into one ring by cutting a bridge
/// from each hole to the ring at a nearest pair of vertices, duplicating
/// the two bridge endpoints as ear clipping expects.
fn merge_rings(outer: Vec<(i64, i64)>, holes: Vec<Vec<(i64, i64)>>) -> (out: Vec<(i64, i64)>)
    requires
        pts_ok(outer@),
        forall|h: int| 0 <= h < holes@.len() ==> pts_ok((#[trigger] holes@[h])@),
    ensures
        pts_ok(out@),
        holes@.len() == 0 ==> out@ == outer@,
{
    let mut poly = outer;
    let mut hi: usize = 0;
    while hi < holes.len()
        invariant
            pts_ok(poly@),
            forall|h: int| 0 <= h < holes@.len() ==> pts_ok((#[trigger] holes@[h])@),
            hi <= holes@.len(),
            holes@.len() == 0 ==> poly@ == outer@,
        decreases holes@.len() - hi,
    {
        let hole = &holes[hi];
        if poly.len() > 0 && hole.len() > 0 {
            let mut bj: usize = 0;
            let mut bk: usize = 0;
            let mut best: i128 = dist2(poly[0], hole[0]);
            let mut j: usize = 0;
            while j < poly.len()
                invariant
                    pts_ok(poly@),
                    pts_ok(hole@),
                    poly@.len() > 0,
                    hole@.len() > 0,
                    j <= poly@.len(),
                    bj < poly@.len(),
                    bk < hole@.len(),
                decreases poly@.len() - j,
            {
                let mut k: usize = 0;
                while k < hole.len()
                    invariant
                        pts_ok(poly@),
                        pts_ok(hole@),
                        poly@.len() > 0,
                        hole@.len() > 0,
                        j < poly@.len(),
                        k <= hole@.len(),
                        bj < poly@.len(),
                        bk < hole@.len(),
                    decreases hole@.len() - k,
                {
                    let d = dist2(poly[j], hole[k]);
                    if d < best {
                        best = d;
                        bj = j;
                        bk = k;
                    }
                    k = k + 1;
                }
                j = j + 1;
            }
            let mut np: Vec<(i64, i64)> = Vec::new();
            let mut t: usize = 0;
            while t <= bj
                invariant
                    pts_ok(poly@),
                    pts_ok(hole@),
                    pts_ok(np@),
                    bj < poly@.len(),
                    bj < usize::MAX,
                    t <= bj + 1,
                decreases bj + 1 - t,
            {
                np.push(poly[t]);
                t = t + 1;
            }
            let mut t: usize = bk;
            while t < hole.len()
                invariant
                    pts_ok(poly@),
                    pts_ok(hole@),
                    pts_ok(np@),
                    bk < hole@.len(),
                    t <= hole@.len(),
                decreases hole@.len() - t,
            {
                np.push(hole[t]);
                t = t + 1;
            }
            let mut t: usize = 0;
            while t <= bk
                invariant
                    pts_ok(poly@),
                    pts_ok(hole@),
                    pts_ok(np@),
                    bk < hole@.len(),
                    bk < usize::MAX,
                    t <= bk + 1,
                decreases bk + 1 - t,
            {
                np.push(hole[t]);
                t = t + 1;
            }
            np.push(poly[bj]);
            let mut t: usize = bj + 1;
            while t < poly.len()
                invariant
                    pts_ok(poly@),
                    pts_ok(np@),
                    t <= poly@.len(),
                decreases poly@.len() - t,
            {
                np.push(poly[t]);
                t = t + 1;
            }
            poly = np;
        }
        hi = hi + 1;
    }
    poly
}

/// Tessellates one polygon (outer ring plus holes) and appends the result
/// to the mesh accumulator.
fn triangulate_group(mesh: &mut Mesh, outer: Vec<(i64, i64)>, holes: Vec<Vec<(i64, i64)>>)
    requires
        pts_ok(outer@),
        forall|h: int| 0 <= h < holes@.len() ==> pts_ok((#[trigger] holes@[h])@),
        pts_ok(old(mesh).vertices@),
        tris_ok(old(mesh).triangles@, old(mesh).vertices@),
    ensures
        pts_ok(final(mesh).vertices@),
        tris_ok(final(mesh).triangles@, final(mesh).vertices@),
        old(mesh).vertices@.len() == 0 && old(mesh).triangles@.len() == 0 && holes@.len() == 0
            && outer@.len() <= MAX_RING_POINTS ==> {
            &&& final(mesh).vertices@ == outer@
            &&& (outer@.len() >= 3 ==> final(mesh).triangles@.len() <= outer@.len() - 2)
            &&& (degenerate_ring(outer@) ==> final(mesh).triangles@.len() == 0)
            &&& (outer@.len() == 3 && !degenerate_ring(outer@) ==> final(mesh).triangles@.len()
                == 1)
        },
{
    let merged = merge_rings(outer, holes);
    if merged.len() > MAX_RING_POINTS {
        return ;
    }
    let tris = triangulate(&merged);
    let base = mesh.vertices.len();
    let ghost old_verts = mesh.vertices@;
    let mut t: usize = 0;
    while t < merged.len()
        invariant
            t <= merged@.len(),
            pts_ok(merged@),
            mesh.vertices@ == old_verts + merged@.subrange(0, t as int),
            pts_ok(mesh.vertices@),
            mesh.triangles@ == old(mesh).triangles@,
            tris_ok(mesh.triangles@, old_verts),
            base == old_verts.len(),
        decreases merged@.len() - t,
    {
        mesh.vertices.push(merged[t]);
        proof {
            assert(mesh.vertices@ =~= old_verts + merged@.subrange(0, t + 1));
        }
        t = t + 1;
    }
    proof {
        assert(mesh.vertices@ =~= old_verts + merged@);
        assert forall|k: int| 0 <= k < mesh.triangles@.len() implies {
            let tr = #[trigger] mesh.triangles@[k];
            &&& tr.a < mesh.vertices@.len() && tr.b < mesh.vertices@.len() && tr.c
                < mesh.vertices@.len()
            &&& cross2(
                mesh.vertices@[tr.a as int],
                mesh.vertices@[tr.b as int],
                mesh.vertices@[tr.c as int],
            ) > 0
        } by {
            let tr = mesh.triangles@[k];
            assert(tr.a < old_verts.len() && tr.b < old_verts.len() && tr.c < old_verts.len());
            assert(mesh.vertices@[tr.a as int] == old_verts[tr.a as int]);
            assert(mesh.vertices@[tr.b as int] == old_verts[tr.b as int]);
            assert(mesh.vertices@[tr.c as int] == old_verts[tr.c as int]);
        }
        assert(tris_ok(mesh.triangles@, mesh.vertices@));
    }
    let ghost old_tri_len = mesh.triangles@.len();
    let vlen = mesh.vertices.len();
    let mut q: usize = 0;
    while q < tris.len()
        invariant
            q <= tris@.len(),
            vlen == mesh.vertices@.len(),
            tris_ok(tris@, merged@),
            merged@.len() <= MAX_RING_POINTS,
            pts_ok(mesh.vertices@),
            tris_ok(mesh.triangles@, mesh.vertices@),
            mesh.vertices@ == old_verts + merged@,
            base == old_verts.len(),
            mesh.triangles@.len() == old_tri_len + q,
        decreases tris@.len() - q,
    {
        let tr = tris[q];
        assert(tr.a < merged@.len() && tr.b < merged@.len() && tr.c < merged@.len());
        let nt = Triangle { a: base + tr.a, b: base + tr.b, c: base + tr.c };
        proof {
            assert(mesh.vertices@[nt.a as int] == merged@[tr.a as int]);
            assert(mesh.vertices@[nt.b as int] == merged@[tr.b as int]);
            assert(mesh.vertices@[nt.c as int] == merged@[tr.c as int]);
        }
        mesh.triangles.push(nt);
        q = q + 1;
    }
    proof {
        if old(mesh).vertices@.len() == 0 && holes@.len() == 0 {
            assert(merged@ == outer@);
            assert(mesh.vertices@ =~= outer@);
        }
    }
}

/// Some closed ring of the feature is a real outer boundary: at least three
/// points and strictly positive signed area.
pub open spec fn has_outer_ring(f: SpecFeature) -> bool {
    exists|k: int|
        0 <= k < f.paths.len() && (#[trigger] f.paths[k]).closed && f.paths[k].points.len() >= 3
            && ring_area2(f.paths[k].points) > 0
}

/// The feature is a polygon made of exactly one closed, real outer ring
/// small enough for the tessellator.
pub open spec fn single_ring_polygon(f: SpecFeature) -> bool {
    &&& f.geom_type == GeomType::Polygon
    &&& f.paths.len() == 1
    &&& f.paths[0].closed
    &&& 3 <= f.paths[0].points.len() <= MAX_RING_POINTS
    &&& ring_area2(f.paths[0].points) > 0
}

impl Feature {
    /// Tessellates the feature's polygon rings into a planar mesh in the
    /// layer's local space.  Rings with positive area open a polygon;
    /// following negative-area rings are its holes; degenerate rings are
    /// skipped without failing the feature.  Point and LineString features
    /// contribute no solid geometry.
    pub fn to_mesh(&self) -> (m: Mesh)
        requires
            crate::geom::spec_paths_ok(paths_view(self.paths@)),
        ensures
            m.wf(),
            pts_ok(m.vertices@),
            tris_ok(m.triangles@, m.vertices@),
            self.geom_type != GeomType::Polygon ==> m.vertices@.len() == 0 && m.triangles@.len()
                == 0,
            !has_outer_ring(self@) ==> m.triangles@.len() == 0,
            single_ring_polygon(self@) ==> {
                &&& m.vertices@ == self@.paths[0].points
                &&& m.triangles@.len() <= self@.paths[0].points.len() - 2
                &&& (self@.paths[0].points.len() == 3 ==> m.triangles@.len() == 1)
            },
    {
        let mut mesh = Mesh { vertices: Vec::new(), triangles: Vec::new() };
        if !(self.geom_type == GeomType::Polygon) {
            return mesh;
        }
        let mut outer: Vec<(i64, i64)> = Vec::new();
        let mut holes: Vec<Vec<(i64, i64)>> = Vec::new();
        let mut have_outer = false;
        let mut pi: usize = 0;
        let ghost special = single_ring_polygon(self@);
        while pi < self.paths.len()
            invariant
                crate::geom::spec_paths_ok(paths_view(self.paths@)),
                pi <= self.paths@.len(),
                pts_ok(mesh.vertices@),
                tris_ok(mesh.triangles@, mesh.vertices@),
                pts_ok(outer@),
                forall|h: int| 0 <= h < holes@.len() ==> pts_ok((#[trigger] holes@[h])@),
                have_outer ==> has_outer_ring(self@),
                !has_outer_ring(self@) ==> mesh.triangles@.len() == 0,
                special == single_ring_polygon(self@),
                special ==> mesh.vertices@.len() == 0 && mesh.triangles@.len() == 0,
                special && pi == 0 ==> !have_outer,
                special && pi >= 1 ==> have_outer && outer@ == self@.paths[0].points
                    && holes@.len() == 0,
            decreases self.paths@.len() - pi,
        {
            let p = &self.paths[pi];
            proof {
                assert(paths_view(self.paths@)[pi as int] == self.paths@[pi as int]@);
                assert(pts_ok(self.paths@[pi as int]@.points));
            }
            if p.closed {
                let ring = copy_pts(&p.points);
                if ring.len() >= 3 && ring.len() <= MAX_RING_POINTS {
                    let a2 = area2_of(&ring);
                    if a2 > 0 {
                        if have_outer {
                            triangulate_group(&mut mesh, outer, holes);
                        }
                        outer = ring;
                        holes = Vec::new();
                        proof {
                            assert(self.paths@[pi as int]@.closed);
                            assert(ring_area2(self@.paths[pi as int].points) > 0);
                        }
                        have_outer = true;
                    } else if a2 < 0 {
                        if have_outer {
                            holes.push(ring);
                        }
                    }
                }
            }
            pi = pi + 1;
        }
        if have_outer {
            proof {
                if special {
                    assert(!degenerate_ring(outer@));
                }
            }
            triangulate_group(&mut mesh, outer, holes);
        }
        assert(mesh.wf());
        mesh
    }
}

/// Every triangle of the sequence indexes below `nverts`.
pub open spec fn tm_tris_ok(tris: Seq<Triangle>, nverts: int) -> bool {
    forall|k: int|
        0 <= k < tris.len() ==> {
            let t = #[trigger] tris[k];
            t.a < nverts && t.b < nverts && t.c < nverts
        }
}

pub open spec fn tm_verts_ok(vs: Seq<GlobalVertex>) -> bool {
    forall|k: int| 0 <= k < vs.len() ==> (#[trigger] vs[k]).denom > 0
}

/// A vertex of a tile mesh in global Mercator space: the world unit-square
/// coordinate is the exact fraction (nx/denom, ny/denom).
#[derive(Clone, Copy, PartialEq, Eq, Structural, Debug)]
pub struct GlobalVertex {
    pub nx: i64,
    pub ny: i64,
    pub denom: u64,
}

/// Sphere-ready mesh of one whole tile: global Mercator vertices plus
/// triangle index triples.
pub struct TileMesh {
    pub vertices: Vec<GlobalVertex>,
    pub triangles: Vec<Triangle>,
}

impl TileMesh {
    /// Every triangle index points at an existing vertex, and every vertex
    /// carries a positive denominator.
    pub open spec fn wf(self) -> bool {
        &&& tm_tris_ok(self.triangles@, self.vertices@.len() as int)
        &&& tm_verts_ok(self.vertices@)
    }

    /// The triangle indices flattened to three entries per triangle, in
    /// order, for consumption by a renderer.
    pub fn triangles_flat(&self) -> (out: Vec<usize>)
        requires
            self.triangles@.len() * 3 <= usize::MAX,
        ensures
            out@.len() == 3 * self.triangles@.len(),
            forall|k: int|
                0 <= k < self.triangles@.len() ==> out@[3 * k] == (#[trigger] self.triangles@[k]).a
                    && out@[3 * k + 1] == self.triangles@[k].b && out@[3 * k + 2]
                    == self.triangles@[k].c,
    {
        let mut out: Vec<usize> = Vec::new();
        let mut k: usize = 0;
        while k < self.triangles.len()
            invariant
                k <= self.triangles@.len(),
                self.triangles@.len() * 3 <= usize::MAX,
                out@.len() == 3 * k,
                forall|t: int|
                    0 <= t < k ==> out@[3 * t] == (#[trigger] self.triangles@[t]).a && out@[3 * t
                        + 1] == self.triangles@[t].b && out@[3 * t + 2] == self.triangles@[t].c,
            decreases self.triangles@.len() - k,
        {
            let tr = self.triangles[k];
            out.push(tr.a);
            out.push(tr.b);
            out.push(tr.c);
            k = k + 1;
        }
        out
    }
}

/// Deepest zoom the mesh builder supports; keeps the exact vertex
/// denominators inside a `u64`.
pub const MAX_BUILD_ZOOM: i64 = 40;

/// Largest layer extent the mesh builder accepts; a layer whose extent
/// falls outside [1, MAX_LAYER_EXTENT] contributes nothing.
pub const MAX_LAYER_EXTENT: u64 = 0x10_0000;

/// Builds the renderable mesh of a decoded tile: tessellates every feature
/// and places each local vertex at its exact global Mercator fraction
/// (tile.x * extent + u) / (extent * 2^zoom).
/// The tile holds exactly one layer with an extent in range and exactly
/// one feature, which is a single-ring polygon.
pub open spec fn single_ring_tile(t: crate::decode::SpecTile) -> bool {
    &&& t.layers.len() == 1
    &&& 1 <= t.layers[0].extent <= MAX_LAYER_EXTENT
    &&& t.layers[0].features.len() == 1
    &&& single_ring_polygon(t.layers[0].features[0])
}

pub fn build_tile_mesh(tile: &Tile, addr: &TileAddress) -> (m: TileMesh)
    requires
        addr.wf(),
        addr.zoom <= MAX_BUILD_ZOOM,
        tile_paths_ok(tile@),
    ensures
        m.wf(),
        single_ring_tile(tile@) ==> {
            let ring = tile@.layers[0].features[0].paths[0].points;
            let ext = tile@.layers[0].extent;
            &&& m.vertices@.len() == ring.len()
            &&& m.triangles@.len() <= ring.len() - 2
            &&& forall|k: int|
                0 <= k < ring.len() ==> ((#[trigger] m.vertices@[k]).nx as int == addr.x * (
                ext as int) + ring[k].0 && m.vertices@[k].ny as int == addr.y * (ext as int)
                    + ring[k].1 && m.vertices@[k].denom == ext * pow2(addr.zoom as nat))
        },
{
    let ghost one = single_ring_tile(tile@);
    let mut out = TileMesh { vertices: Vec::new(), triangles: Vec::new() };
    let zpow = pow2_u64(addr.zoom as u64);
    proof {
        lemma2_to64_rest();
        if addr.zoom < 40 {
            lemma_pow2_strictly_increases(addr.zoom as nat, 40);
        }
        assert(zpow <= 0x100_0000_0000);
    }
    let mut li: usize = 0;
    while li < tile.layers.len()
        invariant
            addr.wf(),
            addr.zoom <= MAX_BUILD_ZOOM,
            tile_paths_ok(tile@),
            li <= tile.layers@.len(),
            zpow == pow2(addr.zoom as nat),
            1 <= zpow <= 0x100_0000_0000,
            tm_tris_ok(out.triangles@, out.vertices@.len() as int),
            tm_verts_ok(out.vertices@),
            one == single_ring_tile(tile@),
            one && li == 0 ==> out.vertices@.len() == 0 && out.triangles@.len() == 0,
            one && li >= 1 ==> {
                let ring = tile@.layers[0].features[0].paths[0].points;
                let ext = tile@.layers[0].extent;
                &&& out.vertices@.len() == ring.len()
                &&& out.triangles@.len() <= ring.len() - 2
                &&& forall|k: int|
                    0 <= k < ring.len() ==> ((#[trigger] out.vertices@[k]).nx as int == addr.x * (
                    ext as int) + ring[k].0 && out.vertices@[k].ny as int == addr.y * (ext as int)
                        + ring[k].1 && out.vertices@[k].denom == ext * pow2(addr.zoom as nat))
            },
        decreases tile.layers@.len() - li,
    {
        let layer = &tile.layers[li];
        if layer.extent >= 1 && layer.extent <= MAX_LAYER_EXTENT {
            proof {
                assert(layer.extent * zpow <= 0x10_0000u64 * 0x100_0000_0000 && layer.extent * zpow
                    >= 1) by (nonlinear_arith)
                    requires
                        1 <= layer.extent <= 0x10_0000u64,
                        1 <= zpow <= 0x100_0000_0000u64,
                ;
            }
            let denom = layer.extent * zpow;
            let mut fi: usize = 0;
            while fi < layer.features.len()
                invariant
                    addr.wf(),
                    addr.zoom <= MAX_BUILD_ZOOM,
                    tile_paths_ok(tile@),
                    li < tile.layers@.len(),
                    layer == &tile.layers[li as int],
                    fi <= layer.features@.len(),
                    1 <= layer.extent <= MAX_LAYER_EXTENT,
                    zpow == pow2(addr.zoom as nat),
                    1 <= zpow <= 0x100_0000_0000,
                    denom == layer.extent * zpow,
                    denom >= 1,
                    tm_tris_ok(out.triangles@, out.vertices@.len() as int),
                    tm_verts_ok(out.vertices@),
                    one == single_ring_tile(tile@),
                    one ==> li == 0,
                    one && fi == 0 ==> out.vertices@.len() == 0 && out.triangles@.len() == 0,
                    one && fi >= 1 ==> {
                        let ring = tile@.layers[0].features[0].paths[0].points;
                        let ext = tile@.layers[0].extent;
                        &&& out.vertices@.len() == ring.len()
                        &&& out.triangles@.len() <= ring.len() - 2
                        &&& forall|k: int|
                            0 <= k < ring.len() ==> ((#[trigger] out.vertices@[k]).nx as int
                                == addr.x * (ext as int) + ring[k].0 && out.vertices@[k].ny as int
                                == addr.y * (ext as int) + ring[k].1 && out.vertices@[k].denom
                                == ext * pow2(addr.zoom as nat))
                    },
                decreases layer.features@.len() - fi,
            {
                let feature = &layer.features[fi];
                proof {
                    assert(crate::decode::layers_view(tile.layers@)[li as int] == tile.layers@[li as int]@);
                    assert(crate::decode::features_ok(tile.layers@[li as int]@.features));
                    assert(crate::decode::features_view(layer.features@)[fi as int]
                        == layer.features@[fi as int]@);
                    assert(crate::geom::spec_paths_ok(layer.features@[fi as int]@.paths));
                    if one {
                        assert(tile@.layers[0] == tile.layers@[0]@);
                        assert(feature@ == tile@.layers[0].features[0]);
                        assert(single_ring_polygon(feature@));
                        assert(tile@.layers[0].extent == layer.extent);
                    }
                }
                let fm = feature.to_mesh();
                let base = out.vertices.len();
                let mut vi: usize = 0;
                while vi < fm.vertices.len()
                    invariant
                        addr.wf(),
                        addr.zoom <= MAX_BUILD_ZOOM,
                        pts_ok(fm.vertices@),
                        vi <= fm.vertices@.len(),
                        1 <= layer.extent <= MAX_LAYER_EXTENT,
                        zpow == pow2(addr.zoom as nat),
                        1 <= zpow <= 0x100_0000_0000,
                        denom >= 1,
                        denom == layer.extent * zpow,
                        out.vertices@.len() == base + vi,
                        tm_tris_ok(out.triangles@, base as int),
                        tm_verts_ok(out.vertices@),
                        one == single_ring_tile(tile@),
                        one ==> base == 0 && out.triangles@.len() == 0 && fm.vertices@
                            == tile@.layers[0].features[0].paths[0].points && layer.extent
                            == tile@.layers[0].extent,
                        one ==> forall|k: int|
                            0 <= k < vi ==> ((#[trigger] out.vertices@[k]).nx as int == addr.x * (
                            layer.extent as int) + fm.vertices@[k].0 && out.vertices@[k].ny as int
                                == addr.y * (layer.extent as int) + fm.vertices@[k].1
                                && out.vertices@[k].denom == layer.extent * pow2(
                                addr.zoom as nat,
                            )),
                    decreases fm.vertices@.len() - vi,
                {
                    let v = fm.vertices[vi];
                    assert(coord_ok(v.0 as int) && coord_ok(v.1 as int));
                    proof {
                        assert((addr.x as nat) < pow2(addr.zoom as nat));
                        assert((addr.y as nat) < pow2(addr.zoom as nat));
                        assert(addr.x * (layer.extent as i64) <= 0x1000_0000_0000_0000 && addr.x * (
                        layer.extent as i64) >= 0) by (nonlinear_arith)
                            requires
                                0 <= addr.x < 0x100_0000_0000i64,
                                1 <= (layer.extent as i64) <= 0x10_0000i64,
                        ;
                        assert(addr.y * (layer.extent as i64) <= 0x1000_0000_0000_0000 && addr.y * (
                        layer.extent as i64) >= 0) by (nonlinear_arith)
                            requires
                                0 <= addr.y < 0x100_0000_0000i64,
                                1 <= (layer.extent as i64) <= 0x10_0000i64,
                        ;
                    }
                    let nx = addr.x * (layer.extent as i64) + v.0;
                    let ny = addr.y * (layer.extent as i64) + v.1;
                    out.vertices.push(GlobalVertex { nx, ny, denom });
                    vi = vi + 1;
                }
                let vlen = out.vertices.len();
                let ghost pre_verts = out.vertices@;
                let ghost pre_tris = out.triangles@.len();
                let mut ti: usize = 0;
                while ti < fm.triangles.len()
                    invariant
                        tris_ok(fm.triangles@, fm.vertices@),
                        ti <= fm.triangles@.len(),
                        vlen == out.vertices@.len(),
                        base + fm.vertices@.len() == vlen,
                        tm_tris_ok(out.triangles@, vlen as int),
                        tm_verts_ok(out.vertices@),
                        out.vertices@ == pre_verts,
                        out.triangles@.len() == pre_tris + ti,
                    decreases fm.triangles@.len() - ti,
                {
                    let tr = fm.triangles[ti];
                    assert(tr.a < fm.vertices@.len() && tr.b < fm.vertices@.len() && tr.c
                        < fm.vertices@.len());
                    out.triangles.push(Triangle { a: base + tr.a, b: base + tr.b, c: base + tr.c });
                    ti = ti + 1;
                }
                proof {
                    assert(tm_tris_ok(out.triangles@, out.vertices@.len() as int));
                    if one {
                        let ring = tile@.layers[0].features[0].paths[0].points;
                        assert(fm.triangles@.len() <= ring.len() - 2);
                        assert(out.triangles@.len() <= ring.len() - 2);
                        assert(out.vertices@.len() == ring.len());
                    }
                }
                fi = fi + 1;
            }
        }
        li = li + 1;
    }
    out
}

/// Law: in a well-formed tile mesh every triangle index lies below the
/// vertex count, so a renderer can index the vertex list blindly.
pub proof fn lemma_mesh_indices_in_bounds(m: TileMesh, k: int)
    requires
        m.wf(),
        0 <= k < m.triangles@.len(),
    ensures
        m.triangles@[k].a < m.vertices@.len(),
        m.triangles@[k].b < m.vertices@.len(),
        m.triangles@[k].c < m.vertices@.len(),
{
}

} // verus!
