//! Row-major addressing: how a position `(x, y)` of a rectangle `width`
//! wide becomes an offset into a flat buffer, and back.

use vstd::prelude::*;

verus! {

/// The row-major offset of `(x, y)` in a rectangle `width` wide.
pub open spec fn offset(width: nat, x: int, y: int) -> int {
    y * width + x
}

/// Proves that a position inside a rectangle has its offset inside the
/// buffer, at or after the start of its row.
pub proof fn lemma_offset_in_bounds(width: nat, height: nat, x: int, y: int)
    requires
        0 <= x < width,
        0 <= y < height,
    ensures
        0 <= y * width <= offset(width, x, y) < width * height,
{
    assert(y * width + x < width * height) by (nonlinear_arith)
        requires
            0 <= x < width,
            0 <= y < height,
    ;
    assert(0 <= y * width) by (nonlinear_arith)
        requires
            0 <= y,
            0 <= width,
    ;
}

/// Proves that two positions of a rectangle share an offset only if they
/// are the same position.
pub proof fn lemma_offset_injective(width: nat, x1: int, y1: int, x2: int, y2: int)
    requires
        0 <= x1 < width,
        0 <= x2 < width,
        offset(width, x1, y1) == offset(width, x2, y2),
    ensures
        x1 == x2,
        y1 == y2,
{
    assert(y1 == y2) by (nonlinear_arith)
        requires
            0 <= x1 < width,
            0 <= x2 < width,
            y1 * width + x1 == y2 * width + x2,
    ;
}

/// Proves that the column and the row of a position are the remainder and
/// the quotient of its offset by the width.
pub proof fn lemma_offset_coordinates(width: nat, x: int, y: int)
    requires
        0 <= x < width,
    ensures
        offset(width, x, y) % (width as int) == x,
        offset(width, x, y) / (width as int) == y,
{
    vstd::arithmetic::div_mod::lemma_fundamental_div_mod_converse(
        offset(width, x, y),
        width as int,
        y,
        x,
    );
}

/// Proves that every offset inside the buffer is the offset of exactly the
/// position that its remainder and quotient name, which lies in the rectangle.
pub proof fn lemma_coordinates_of_offset(width: nat, height: nat, i: int)
    requires
        0 <= i < width * height,
    ensures
        0 <= i % (width as int) < width,
        0 <= i / (width as int) < height,
        offset(width, i % (width as int), i / (width as int)) == i,
{
    let w = width as int;
    assert(w > 0) by (nonlinear_arith)
        requires
            0 <= i < w * height,
            0 <= w,
    ;
    vstd::arithmetic::div_mod::lemma_fundamental_div_mod(i, w);
    vstd::arithmetic::div_mod::lemma_mod_pos_bound(i, w);
    vstd::arithmetic::div_mod::lemma_div_pos_is_pos(i, w);
    let q = i / w;
    let r = i % w;
    assert(w * q == q * w) by (nonlinear_arith);
    assert(q < height) by (nonlinear_arith)
        requires
            q * w + r < w * height,
            0 <= r,
            0 < w,
    ;
}

} // verus!
