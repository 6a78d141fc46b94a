//! The shapes of the note areas on the touch screen.
use vstd::prelude::*;
use crate::evdev::Position;
use crate::utils::{fits_i16, fits_i32};

verus! {

/// A note area's outline, in touch coordinates.
#[derive(Clone, Copy, Debug, PartialEq, Eq, Structural)]
pub enum Shape {
    Rectangle { x: i32, y: i32, width: i32, height: i32 },
    /// The parallelogram spanned by `u` and `v` from the corner `base`.
    Parallelogram { base: Position, u: Position, v: Position },
}

/// Whether `a / det` lies in the closed interval from 0 to 1 (never, when
/// `det` is zero).
pub open spec fn in_unit_range(a: int, det: int) -> bool {
    if det > 0 {
        0 <= a <= det
    } else if det < 0 {
        det <= a <= 0
    } else {
        false
    }
}

/// Whether a shape covers a position. A rectangle covers its left and top
/// edges; a parallelogram covers all its edges and corners, and a
/// degenerate parallelogram (with parallel sides) covers nothing.
pub open spec fn shape_contains(shape: Shape, p: Position) -> bool {
    match shape {
        Shape::Rectangle { x, y, width, height } => {
            &&& x <= p.x < x + width
            &&& y <= p.y < y + height
        },
        Shape::Parallelogram { base, u, v } => {
            let tx = p.x - base.x;
            let ty = p.y - base.y;
            let det = u.x * v.y - v.x * u.y;
            &&& in_unit_range(tx * v.y - ty * v.x, det)
            &&& in_unit_range(ty * u.x - tx * u.y, det)
        },
    }
}

/// The corner coordinates of a shape can be computed without overflow.
pub open spec fn corners_fit(shape: Shape) -> bool {
    match shape {
        Shape::Rectangle { x, y, width, height } => {
            &&& fits_i16((x as i16) + (width as i16))
            &&& fits_i16((y as i16) + (height as i16))
        },
        Shape::Parallelogram { base, u, v } => {
            &&& fits_i32(u.x + base.x)
            &&& fits_i32(u.y + base.y)
            &&& fits_i32(u.x + v.x)
            &&& fits_i32(u.y + v.y)
            &&& fits_i32(u.x + v.x + base.x)
            &&& fits_i32(u.y + v.y + base.y)
            &&& fits_i32(v.x + base.x)
            &&& fits_i32(v.y + base.y)
        },
    }
}

/// The four corners of a shape, as 16-bit x and y coordinates (each
/// coordinate truncated to 16 bits).
pub open spec fn corners_spec(shape: Shape) -> (Seq<i16>, Seq<i16>) {
    match shape {
        Shape::Rectangle { x, y, width, height } => {
            let x1 = x as i16;
            let y1 = y as i16;
            let x2 = (x1 + (width as i16)) as i16;
            let y2 = (y1 + (height as i16)) as i16;
            (seq![x1, x2, x2, x1], seq![y1, y1, y2, y2])
        },
        Shape::Parallelogram { base, u, v } => (
            seq![
                base.x as i16,
                (u.x + base.x) as i16,
                (u.x + v.x + base.x) as i16,
                (v.x + base.x) as i16,
            ],
            seq![
                base.y as i16,
                (u.y + base.y) as i16,
                (u.y + v.y + base.y) as i16,
                (v.y + base.y) as i16,
            ],
        ),
    }
}

fn unit_range(a: i128, det: i128) -> (r: bool)
    ensures
        r == in_unit_range(a as int, det as int),
{
    if det > 0 {
        0 <= a && a <= det
    } else if det < 0 {
        det <= a && a <= 0
    } else {
        false
    }
}

impl Shape {
    /// Whether the shape covers `position`; decided exactly, in integers.
    pub fn contains(&self, position: Position) -> (r: bool)
        ensures
            r == shape_contains(*self, position),
    {
        match *self {
            Shape::Rectangle { x, y, width, height } => {
                let x_in = position.x as i64 >= x as i64 && (position.x as i64) < x as i64
                    + width as i64;
                let y_in = position.y as i64 >= y as i64 && (position.y as i64) < y as i64
                    + height as i64;
                x_in && y_in
            },
            Shape::Parallelogram { base, u, v } => {
                let tx: i128 = position.x as i128 - base.x as i128;
                let ty: i128 = position.y as i128 - base.y as i128;
                let ux = u.x as i128;
                let uy = u.y as i128;
                let vx = v.x as i128;
                let vy = v.y as i128;
                proof {
                    lemma_product_bound(tx as int, vy as int);
                    lemma_product_bound(ty as int, vx as int);
                    lemma_product_bound(ty as int, ux as int);
                    lemma_product_bound(tx as int, uy as int);
                    lemma_product_bound(ux as int, vy as int);
                    lemma_product_bound(vx as int, uy as int);
                }
                let det: i128 = ux * vy - vx * uy;
                let u_component: i128 = tx * vy - ty * vx;
                let v_component: i128 = ty * ux - tx * uy;
                unit_range(u_component, det) && unit_range(v_component, det)
            },
        }
    }

    /// Whether `corners` can compute this shape's corners without overflow.
    pub fn corners_in_range(&self) -> (r: bool)
        ensures
            r == corners_fit(*self),
    {
        match *self {
            Shape::Rectangle { x, y, width, height } => {
                let x1 = x as i16 as i32;
                let y1 = y as i16 as i32;
                let x2 = x1 + (width as i16) as i32;
                let y2 = y1 + (height as i16) as i32;
                -32768 <= x2 && x2 <= 32767 && -32768 <= y2 && y2 <= 32767
            },
            Shape::Parallelogram { base, u, v } => {
                let bx = base.x as i64;
                let by = base.y as i64;
                let ux = u.x as i64;
                let uy = u.y as i64;
                let vx = v.x as i64;
                let vy = v.y as i64;
                in_i32(ux + bx) && in_i32(uy + by) && in_i32(ux + vx) && in_i32(uy + vy) && in_i32(
                    ux + vx + bx,
                ) && in_i32(uy + vy + by) && in_i32(vx + bx) && in_i32(vy + by)
            },
        }
    }

    /// The corners of the shape (the outline that the screen draws, before
    /// it is scaled to screen coordinates).
    pub fn corners(&self) -> (r: ([i16; 4], [i16; 4]))
        requires
            corners_fit(*self),
        ensures
            r.0@ == corners_spec(*self).0,
            r.1@ == corners_spec(*self).1,
    {
        match *self {
            Shape::Rectangle { x, y, width, height } => {
                let x1 = x as i16;
                let y1 = y as i16;
                let x2 = x1 + width as i16;
                let y2 = y1 + height as i16;
                let r = ([x1, x2, x2, x1], [y1, y1, y2, y2]);
                assert(r.0@ =~= corners_spec(*self).0);
                assert(r.1@ =~= corners_spec(*self).1);
                r
            },
            Shape::Parallelogram { base, u, v } => {
                let r = (
                    [
                        base.x as i16,
                        (u.x + base.x) as i16,
                        (u.x + v.x + base.x) as i16,
                        (v.x + base.x) as i16,
                    ],
                    [
                        base.y as i16,
                        (u.y + base.y) as i16,
                        (u.y + v.y + base.y) as i16,
                        (v.y + base.y) as i16,
                    ],
                );
                assert(r.0@ =~= corners_spec(*self).0);
                assert(r.1@ =~= corners_spec(*self).1);
                r
            },
        }
    }
}

fn in_i32(x: i64) -> (r: bool)
    ensures
        r == fits_i32(x as int),
{
    -2147483648 <= x && x <= 2147483647
}

proof fn lemma_product_bound(a: int, b: int)
    requires
        -0x1_0000_0000 <= a <= 0x1_0000_0000,
        -0x1_0000_0000 <= b <= 0x1_0000_0000,
    ensures
        -0x1_0000_0000_0000_0000 <= a * b <= 0x1_0000_0000_0000_0000,
{
    assert(-0x1_0000_0000_0000_0000 <= a * b <= 0x1_0000_0000_0000_0000) by (nonlinear_arith)
        requires
            -0x1_0000_0000 <= a <= 0x1_0000_0000,
            -0x1_0000_0000 <= b <= 0x1_0000_0000,
    ;
}

/// A parallelogram with non-parallel sides covers its four corners.
pub proof fn lemma_parallelogram_covers_corners(base: Position, u: Position, v: Position)
    requires
        u.x * v.y - v.x * u.y != 0,
        fits_i32(base.x + u.x),
        fits_i32(base.y + u.y),
        fits_i32(base.x + v.x),
        fits_i32(base.y + v.y),
        fits_i32(base.x + u.x + v.x),
        fits_i32(base.y + u.y + v.y),
    ensures
        ({
            let shape = Shape::Parallelogram { base, u, v };
            &&& shape_contains(shape, base)
            &&& shape_contains(shape, Position { x: (base.x + u.x) as i32, y: (base.y + u.y) as i32 })
            &&& shape_contains(shape, Position { x: (base.x + v.x) as i32, y: (base.y + v.y) as i32 })
            &&& shape_contains(
                shape,
                Position { x: (base.x + u.x + v.x) as i32, y: (base.y + u.y + v.y) as i32 },
            )
        }),
{
    let (ux, uy, vx, vy) = (u.x as int, u.y as int, v.x as int, v.y as int);
    let det = ux * vy - vx * uy;
    assert(ux * vy - uy * vx == det) by (nonlinear_arith)
        requires
            det == ux * vy - vx * uy,
    ;
    assert(uy * ux - ux * uy == 0) by (nonlinear_arith);
    assert(vx * vy - vy * vx == 0) by (nonlinear_arith);
    assert(vy * ux - vx * uy == det) by (nonlinear_arith)
        requires
            det == ux * vy - vx * uy,
    ;
    assert((ux + vx) * vy - (uy + vy) * vx == det) by (nonlinear_arith)
        requires
            det == ux * vy - vx * uy,
    ;
    assert((uy + vy) * ux - (ux + vx) * uy == det) by (nonlinear_arith)
        requires
            det == ux * vy - vx * uy,
    ;
    assert(0 * vy - 0 * vx == 0 && 0 * ux - 0 * uy == 0) by (nonlinear_arith);
}

} // verus!

verus! {

proof fn lemma_scaled_unit_range(c: int, a: int, k: int, det: int)
    requires
        k > 0,
        det != 0,
        k * c == a * det,
    ensures
        in_unit_range(c, det) <==> 0 <= a <= k,
{
    assert(k * (det - c) == (k - a) * det) by (nonlinear_arith)
        requires
            k * c == a * det,
    ;
    if det > 0 {
        assert(c >= 0 <==> a >= 0) by (nonlinear_arith)
            requires
                k > 0,
                det > 0,
                k * c == a * det,
        ;
        assert(det - c >= 0 <==> k - a >= 0) by (nonlinear_arith)
            requires
                k > 0,
                det > 0,
                k * (det - c) == (k - a) * det,
        ;
    } else {
        assert(c <= 0 <==> a >= 0) by (nonlinear_arith)
            requires
                k > 0,
                det < 0,
                k * c == a * det,
        ;
        assert(det - c <= 0 <==> k - a >= 0) by (nonlinear_arith)
            requires
                k > 0,
                det < 0,
                k * (det - c) == (k - a) * det,
        ;
    }
}

/// A parallelogram with non-parallel sides covers exactly the positions
/// whose coordinates along its sides both lie between 0 and 1, whichever
/// way its sides turn: when `k * (p - base) == a * u + b * v` with `k > 0`,
/// `p` is covered if and only if `0 <= a <= k` and `0 <= b <= k`.
pub proof fn lemma_parallelogram_covers_unit_coordinates(
    base: Position,
    u: Position,
    v: Position,
    p: Position,
    a: int,
    b: int,
    k: int,
)
    requires
        u.x * v.y - v.x * u.y != 0,
        k > 0,
        k * (p.x - base.x) == a * u.x + b * v.x,
        k * (p.y - base.y) == a * u.y + b * v.y,
    ensures
        shape_contains(Shape::Parallelogram { base, u, v }, p) <==> (0 <= a <= k && 0 <= b <= k),
{
    let tx = p.x - base.x;
    let ty = p.y - base.y;
    let (ux, uy, vx, vy) = (u.x as int, u.y as int, v.x as int, v.y as int);
    let det = ux * vy - vx * uy;
    let kx = k * tx;
    let ky = k * ty;
    assert(k * (tx * vy - ty * vx) == kx * vy - ky * vx) by (nonlinear_arith)
        requires
            kx == k * tx,
            ky == k * ty,
    ;
    assert(k * (ty * ux - tx * uy) == ky * ux - kx * uy) by (nonlinear_arith)
        requires
            kx == k * tx,
            ky == k * ty,
    ;
    assert((a * ux + b * vx) * vy - (a * uy + b * vy) * vx == a * (ux * vy - vx * uy))
        by (nonlinear_arith);
    assert((a * uy + b * vy) * ux - (a * ux + b * vx) * uy == b * (ux * vy - vx * uy))
        by (nonlinear_arith);
    lemma_scaled_unit_range(tx * vy - ty * vx, a, k, det);
    lemma_scaled_unit_range(ty * ux - tx * uy, b, k, det);
}

} // verus!
