//! Filling rectangles of pixels, the one drawing operation there is.

use crate::framebuffer::{Framebuffer, SurfaceState};
use crate::raster::{lemma_coordinates_of_offset, lemma_offset_coordinates, lemma_offset_in_bounds};
use vstd::prelude::*;

verus! {

/// Proves what colour a pixel has after a rectangle was filled: the fill
/// colour inside the rectangle, its old colour outside.
pub proof fn lemma_filled_pixel<L>(
    surface: SurfaceState<L>,
    left: int,
    top: int,
    width: int,
    height: int,
    color: u32,
    x: int,
    y: int,
)
    requires
        surface.wf(),
        0 <= x < surface.width,
        0 <= y < surface.height,
    ensures
        surface.filled(left, top, width, height, color).wf(),
        surface.filled(left, top, width, height, color).pixel(x, y) == if left <= x < left + width
            && top <= y < top + height {
            color
        } else {
            surface.pixel(x, y)
        },
{
    lemma_offset_in_bounds(surface.width, surface.height, x, y);
    lemma_offset_coordinates(surface.width, x, y);
}

/// Proves that filling a rectangle without pixels changes nothing.
proof fn lemma_filled_nothing<L>(
    surface: SurfaceState<L>,
    left: int,
    top: int,
    width: int,
    height: int,
    color: u32,
)
    requires
        width <= 0 || height <= 0,
    ensures
        surface.filled(left, top, width, height, color) == surface,
{
    assert(surface.filled(left, top, width, height, color).pixels =~= surface.pixels);
}

/// Proves that setting the pixel below a filled piece of a column fills
/// a piece one pixel longer.
proof fn lemma_filled_one_more<L>(surface: SurfaceState<L>, x: int, top: int, done: int, color: u32)
    requires
        surface.wf(),
        0 <= x < surface.width,
        0 <= top,
        0 <= done,
        top + done < surface.height,
    ensures
        surface.filled(x, top, 1, done, color).with_pixel(x, top + done, color) == surface.filled(
            x,
            top,
            1,
            done + 1,
            color,
        ),
{
    let written = surface.filled(x, top, 1, done, color).with_pixel(x, top + done, color);
    let wanted = surface.filled(x, top, 1, done + 1, color);
    lemma_offset_in_bounds(surface.width, surface.height, x, top + done);
    lemma_offset_coordinates(surface.width, x, top + done);
    assert forall|i: int| 0 <= i < surface.pixels.len() implies written.pixels[i]
        == wanted.pixels[i] by {
        lemma_coordinates_of_offset(surface.width, surface.height, i);
    }
    assert(written.pixels =~= wanted.pixels);
}

/// Proves that filling the column beside a filled rectangle fills a
/// rectangle one column wider.
proof fn lemma_filled_one_wider<L>(
    surface: SurfaceState<L>,
    left: int,
    top: int,
    done: int,
    height: int,
    color: u32,
)
    requires
        0 <= done,
    ensures
        surface.filled(left, top, done, height, color).filled(left + done, top, 1, height, color)
            == surface.filled(left, top, done + 1, height, color),
{
    assert(surface.filled(left, top, done, height, color).filled(
        left + done,
        top,
        1,
        height,
        color,
    ).pixels =~= surface.filled(left, top, done + 1, height, color).pixels);
}

/// Fills the rectangle of `width * height` pixels whose top left corner is
/// `(left, top)` with `color`. The rectangle has to lie on the surface.
pub fn fill_rect<F: Framebuffer>(
    fb: &mut F,
    left: u32,
    top: u32,
    width: u32,
    height: u32,
    color: u32,
)
    requires
        old(fb)@.wf(),
        left + width <= old(fb)@.width,
        top + height <= old(fb)@.height,
    ensures
        final(fb)@ == old(fb)@.filled(left as int, top as int, width as int, height as int, color),
        final(fb)@.wf(),
{
    let ghost before = fb@;
    proof {
        lemma_filled_nothing(before, left as int, top as int, 0, height as int, color);
    }
    let mut i: u32 = 0;
    while i < width
        invariant
            i <= width,
            before.wf(),
            left + width <= before.width,
            top + height <= before.height,
            fb@ == before.filled(left as int, top as int, i as int, height as int, color),
        decreases width - i,
    {
        let ghost column = fb@;
        proof {
            lemma_filled_nothing(column, left + i, top as int, 1, 0, color);
        }
        let mut j: u32 = 0;
        while j < height
            invariant
                i < width,
                j <= height,
                before.wf(),
                column.wf(),
                column.width == before.width,
                column.height == before.height,
                left + width <= before.width,
                top + height <= before.height,
                fb@ == column.filled(left + i, top as int, 1, j as int, color),
            decreases height - j,
        {
            proof {
                lemma_filled_one_more(column, left + i, top as int, j as int, color);
            }
            fb.write_pixel(left + i, top + j, color);
            j += 1;
        }
        proof {
            lemma_filled_one_wider(before, left as int, top as int, i as int, height as int, color);
        }
        i += 1;
    }
}

} // verus!
