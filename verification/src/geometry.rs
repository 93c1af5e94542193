//! The geometry provider: a fixed, immutable set of six vertices forming two
//! counter-clockwise triangles whose union is the canonical square spanning
//! -1 to 1 in both axes of normalized device coordinates.
//!
//! Every corner of the quad sits exactly at -1 or 1, so the coordinates are
//! held as small signed integers; the graphics layer widens them to the GPU's
//! floating-point attribute format when uploading the vertex buffer.

use vstd::prelude::*;

verus! {

/// A two-component vertex position in normalized device coordinates.
#[derive(Clone, Copy, PartialEq, Eq, Structural, Debug)]
pub struct Vertex {
    pub x: i8,
    pub y: i8,
}

/// The full-screen quad, as two triangles listed corner by corner.
pub open spec fn quad_spec() -> Seq<Vertex> {
    seq![
        Vertex { x: -1i8, y: -1i8 },
        Vertex { x: 1i8, y: -1i8 },
        Vertex { x: 1i8, y: 1i8 },
        Vertex { x: -1i8, y: -1i8 },
        Vertex { x: 1i8, y: 1i8 },
        Vertex { x: -1i8, y: 1i8 },
    ]
}

/// Twice the signed area of triangle `a b c`: positive exactly when the
/// corners wind counter-clockwise.
pub open spec fn doubled_signed_area(a: Vertex, b: Vertex, c: Vertex) -> int {
    (b.x - a.x) * (c.y - a.y) - (b.y - a.y) * (c.x - a.x)
}

pub open spec fn counter_clockwise(a: Vertex, b: Vertex, c: Vertex) -> bool {
    doubled_signed_area(a, b, c) > 0
}

/// The six quad vertices, ready for upload as a vertex buffer.
pub fn quad_vertices() -> (v: Vec<Vertex>)
    ensures
        v@ == quad_spec(),
{
    let mut v: Vec<Vertex> = Vec::new();
    v.push(Vertex { x: -1, y: -1 });
    v.push(Vertex { x: 1, y: -1 });
    v.push(Vertex { x: 1, y: 1 });
    v.push(Vertex { x: -1, y: -1 });
    v.push(Vertex { x: 1, y: 1 });
    v.push(Vertex { x: -1, y: 1 });
    proof {
        assert(v@ =~= quad_spec());
    }
    v
}

/// Geometry law: exactly six vertices, both triangles wind counter-clockwise,
/// and every coordinate lies on the boundary of the canonical square.
pub proof fn lemma_quad_well_formed()
    ensures
        quad_spec().len() == 6,
        counter_clockwise(quad_spec()[0], quad_spec()[1], quad_spec()[2]),
        counter_clockwise(quad_spec()[3], quad_spec()[4], quad_spec()[5]),
        forall|i: int|
            0 <= i < 6 ==> (#[trigger] quad_spec()[i].x == -1 || quad_spec()[i].x == 1),
        forall|i: int|
            0 <= i < 6 ==> (#[trigger] quad_spec()[i].y == -1 || quad_spec()[i].y == 1),
{
    assert(quad_spec()[0] == Vertex { x: -1i8, y: -1i8 });
    assert(quad_spec()[1] == Vertex { x: 1i8, y: -1i8 });
    assert(quad_spec()[2] == Vertex { x: 1i8, y: 1i8 });
    assert(quad_spec()[3] == Vertex { x: -1i8, y: -1i8 });
    assert(quad_spec()[4] == Vertex { x: 1i8, y: 1i8 });
    assert(quad_spec()[5] == Vertex { x: -1i8, y: 1i8 });
    let a = quad_spec()[0];
    let b = quad_spec()[1];
    let c = quad_spec()[2];
    assert((b.x - a.x) * (c.y - a.y) == 4 && (b.y - a.y) * (c.x - a.x) == 0)
        by (nonlinear_arith)
        requires
            a == (Vertex { x: -1i8, y: -1i8 }),
            b == (Vertex { x: 1i8, y: -1i8 }),
            c == (Vertex { x: 1i8, y: 1i8 }),
    ;
    assert(doubled_signed_area(a, b, c) == 4);
    let d = quad_spec()[3];
    let e = quad_spec()[4];
    let f = quad_spec()[5];
    assert((e.x - d.x) * (f.y - d.y) == 4 && (e.y - d.y) * (f.x - d.x) == 0)
        by (nonlinear_arith)
        requires
            d == (Vertex { x: -1i8, y: -1i8 }),
            e == (Vertex { x: 1i8, y: 1i8 }),
            f == (Vertex { x: -1i8, y: 1i8 }),
    ;
    assert(doubled_signed_area(d, e, f) == 4);
}

} // verus!
