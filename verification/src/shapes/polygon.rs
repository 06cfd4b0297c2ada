//! Convex polygon shape, a list of vertices in clockwise order,
//! re-centered on its centroid at construction.

use vstd::prelude::*;
use crate::fixed::{abs_i, clip, fadd, idiv_s, fp_abs, fp_add, fp_idiv, FP_ONE};
use crate::vector2::{crossed_s, sub_s, vec2, Vector2};

verus! {

/// Saturating sum of the x coordinates.
pub open spec fn sum_x_s(vs: Seq<Vector2>) -> int
    decreases vs.len(),
{
    if vs.len() == 0 {
        0
    } else {
        fadd(sum_x_s(vs.drop_last()), vs.last().x as int)
    }
}

/// Saturating sum of the y coordinates.
pub open spec fn sum_y_s(vs: Seq<Vector2>) -> int
    decreases vs.len(),
{
    if vs.len() == 0 {
        0
    } else {
        fadd(sum_y_s(vs.drop_last()), vs.last().y as int)
    }
}

/// The average of the vertices; rotation behaves best around it.
pub open spec fn centroid_s(vs: Seq<Vector2>) -> Vector2 {
    vec2(idiv_s(sum_x_s(vs), vs.len() as int), idiv_s(sum_y_s(vs), vs.len() as int))
}

/// The running shoelace sum over the first `k` edges, at doubled scale.
pub open spec fn shoelace_s(vs: Seq<Vector2>, k: nat) -> int
    decreases k,
{
    if k == 0 || vs.len() == 0 {
        0
    } else {
        fadd(
            shoelace_s(vs, (k - 1) as nat),
            crossed_s(vs[k - 1], vs[(k as int) % (vs.len() as int)]),
        )
    }
}

/// Shoelace area: half the absolute shoelace sum, rescaled to single
/// scale.
pub open spec fn area_s(vs: Seq<Vector2>) -> int {
    idiv_s(clip(abs_i(shoelace_s(vs, vs.len()))), 2 * (FP_ONE as int))
}

/// Cross product of the two edges leaving vertex `i`, at doubled scale.
pub open spec fn tri_cross_s(vs: Seq<Vector2>, i: int) -> int {
    let n = vs.len() as int;
    crossed_s(sub_s(vs[(i + 1) % n], vs[i]), sub_s(vs[(i + 2) % n], vs[(i + 1) % n]))
}

/// A vertex list is convex when no two of its turns bend opposite ways.
pub open spec fn convex_s(vs: Seq<Vector2>) -> bool {
    (forall|i: int| 0 <= i < vs.len() ==> tri_cross_s(vs, i) >= 0) || (forall|i: int|
        0 <= i < vs.len() ==> tri_cross_s(vs, i) <= 0)
}

/// The vertices moved so that their centroid lies on the origin.
pub open spec fn shifted_s(vs: Seq<Vector2>) -> Seq<Vector2> {
    vs.map(|i: int, v: Vector2| sub_s(v, centroid_s(vs)))
}

/// Whether the leftward horizontal ray from `p` crosses edge `i` of the
/// boundary walk.
pub open spec fn edge_crossing_s(vs: Seq<Vector2>, p: Vector2, i: int) -> bool {
    let n = vs.len() as int;
    let a = vs[i];
    let b = vs[(i + 1) % n];
    let t = crate::fixed::fdiv(crate::fixed::fsub(p.y as int, a.y as int), crate::fixed::fsub(
        b.y as int,
        a.y as int,
    ));
    let xc = fadd(a.x as int, crate::fixed::fmul(t, crate::fixed::fsub(b.x as int, a.x as int)));
    ((p.y < a.y) != (p.y < b.y)) && (p.x as int) < xc
}

/// How many of the first `k` edges the ray from `p` crosses.
pub open spec fn crossings_s(vs: Seq<Vector2>, p: Vector2, k: nat) -> nat
    decreases k,
{
    if k == 0 || vs.len() == 0 {
        0
    } else {
        crossings_s(vs, p, (k - 1) as nat) + if edge_crossing_s(vs, p, k - 1) {
            1nat
        } else {
            0nat
        }
    }
}

/// Counts the boundary edges whose segment the horizontal ray from `p`
/// crosses, for ray-casting parity tests.
pub fn ray_crossings(vs: &Vec<Vector2>, p: Vector2) -> (r: usize)
    requires
        vs@.len() <= 8,
    ensures
        r as nat == crossings_s(vs@, p, vs@.len()),
{
    let n = vs.len();
    let mut count: usize = 0;
    let mut idx: usize = 0;
    if n == 0 {
        return 0;
    }
    while idx < n
        invariant
            0 <= idx <= n,
            n == vs.len(),
            0 < n <= 8,
            count as nat == crossings_s(vs@, p, idx as nat),
            count <= idx,
        decreases n - idx,
    {
        let a = vs[idx];
        let b = vs[(idx + 1) % n];
        let y_in_between = (p.y < a.y) != (p.y < b.y);
        let t = crate::fixed::fp_div(crate::fixed::fp_sub(p.y, a.y), crate::fixed::fp_sub(
            b.y,
            a.y,
        ));
        let xc = fp_add(a.x, crate::fixed::fp_mul(t, crate::fixed::fp_sub(b.x, a.x)));
        if y_in_between && p.x < xc {
            count += 1;
        }
        idx += 1;
    }
    count
}

#[derive(Clone, Debug)]
pub struct Polygon {
    pub area: i64,
    pub vertices: Vec<Vector2>,
}

/// Construction keeps the vertex count in the supported band.
pub open spec fn poly_wf(p: Polygon) -> bool {
    1 <= p.vertices.len() <= 8
}

impl Polygon {
    /// Builds the polygon, or refuses a concave vertex list.
    pub fn new(verts: Vec<Vector2>) -> (r: Option<Polygon>)
        requires
            1 <= verts@.len() <= 8,
        ensures
            r is Some <==> convex_s(shifted_s(verts@)),
            r is Some ==> poly_wf(r->Some_0),
            r is Some ==> r->Some_0.area as int == area_s(verts@),
            r is Some ==> r->Some_0.vertices@ == shifted_s(verts@),
    {
        let area = Polygon::area(&verts);
        let centroid = centroid(&verts);
        let mut moved: Vec<Vector2> = Vec::new();
        let mut idx: usize = 0;
        while idx < verts.len()
            invariant
                0 <= idx <= verts.len(),
                moved@ =~= verts@.take(idx as int).map(
                    |i: int, v: Vector2| sub_s(v, centroid_s(verts@)),
                ),
                centroid == centroid_s(verts@),
            decreases verts.len() - idx,
        {
            moved.push(verts[idx].minus(centroid));
            proof {
                assert(verts@.take(idx + 1 as int).drop_last() =~= verts@.take(idx as int));
            }
            idx += 1;
        }
        proof {
            assert(verts@.take(verts@.len() as int) =~= verts@);
            assert(moved@ =~= shifted_s(verts@));
        }
        let poly = Polygon { area, vertices: moved };
        if !poly.is_convex() {
            return None;
        }
        Some(poly)
    }
}

/// The average point of a vertex list.
pub fn centroid(vertices: &Vec<Vector2>) -> (r: Vector2)
    requires
        vertices@.len() <= 8,
    ensures
        r == centroid_s(vertices@),
{
    let mut x: i64 = 0;
    let mut y: i64 = 0;
    let mut idx: usize = 0;
    while idx < vertices.len()
        invariant
            0 <= idx <= vertices.len(),
            x as int == sum_x_s(vertices@.take(idx as int)),
            y as int == sum_y_s(vertices@.take(idx as int)),
        decreases vertices.len() - idx,
    {
        x = fp_add(x, vertices[idx].x);
        y = fp_add(y, vertices[idx].y);
        proof {
            assert(vertices@.take(idx + 1 as int).drop_last() =~= vertices@.take(idx as int));
            assert(vertices@.take(idx + 1 as int).last() == vertices@[idx as int]);
        }
        idx += 1;
    }
    proof {
        assert(vertices@.take(vertices@.len() as int) =~= vertices@);
    }
    let n = vertices.len();
    Vector2 { x: fp_idiv(x, n as i64), y: fp_idiv(y, n as i64) }
}

impl Polygon {
    /// Shoelace area of a vertex list.
    pub fn area(vertices: &Vec<Vector2>) -> (r: i64)
        ensures
            r as int == area_s(vertices@),
    {
        let n = vertices.len();
        let mut acc: i64 = 0;
        let mut idx: usize = 0;
        if n == 0 {
            return 0;
        }
        while idx < n
            invariant
                0 <= idx <= n,
                n == vertices.len(),
                n > 0,
                acc as int == shoelace_s(vertices@, idx as nat),
            decreases n - idx,
        {
            let next = (idx + 1) % n;
            acc = fp_add(acc, vertices[idx].crossed(vertices[next]));
            idx += 1;
        }
        fp_idiv(fp_abs(acc), 2 * FP_ONE)
    }

    /// Whether no two turns of the boundary bend opposite ways.
    pub fn is_convex(&self) -> (r: bool)
        requires
            self.vertices@.len() <= 8,
        ensures
            r == convex_s(self.vertices@),
    {
        let vs = &self.vertices;
        let n = vs.len();
        if n == 0 {
            return true;
        }
        let mut state: i64 = 0;
        let mut idx: usize = 0;
        while idx < n
            invariant
                0 <= idx <= n,
                n == vs.len(),
                0 < n <= 8,
                vs == &self.vertices,
                state == 0 || state == 1 || state == -1,
                state == 0 ==> forall|j: int| 0 <= j < idx ==> tri_cross_s(vs@, j) == 0,
                state == 1 ==> (forall|j: int| 0 <= j < idx ==> tri_cross_s(vs@, j) >= 0)
                    && (exists|j: int| 0 <= j < idx && tri_cross_s(vs@, j) > 0),
                state == -1 ==> (forall|j: int| 0 <= j < idx ==> tri_cross_s(vs@, j) <= 0)
                    && (exists|j: int| 0 <= j < idx && tri_cross_s(vs@, j) < 0),
            decreases n - idx,
        {
            let a = vs[idx];
            let b = vs[(idx + 1) % n];
            let c = vs[(idx + 2) % n];
            let axis_a = b.minus(a);
            let axis_b = c.minus(b);
            let crossproduct = axis_a.crossed(axis_b);
            proof {
                assert(crossproduct as int == tri_cross_s(vs@, idx as int));
            }
            if state == 0 {
                if crossproduct < 0 {
                    state = -1;
                } else if crossproduct > 0 {
                    state = 1;
                }
            } else if state == 1 {
                if crossproduct < 0 {
                    return false;
                }
            } else {
                if crossproduct > 0 {
                    return false;
                }
            }
            idx += 1;
        }
        true
    }

    /// The vertex list as a freshly allocated vector.
    pub fn verts_to_vec(&self) -> (r: Vec<Vector2>)
        ensures
            r@ == self.vertices@,
    {
        let mut out: Vec<Vector2> = Vec::new();
        let mut idx: usize = 0;
        while idx < self.vertices.len()
            invariant
                0 <= idx <= self.vertices.len(),
                out@ =~= self.vertices@.take(idx as int),
            decreases self.vertices.len() - idx,
        {
            out.push(self.vertices[idx]);
            idx += 1;
        }
        proof {
            assert(self.vertices@.take(self.vertices@.len() as int) =~= self.vertices@);
        }
        out
    }
}

} // verus!
