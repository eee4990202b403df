//! A fractal of squares: one square, and a smaller fractal on each of its
//! four corners.

use crate::framebuffer::{Framebuffer, SurfaceState};
use crate::paint::fill_rect;
use vstd::prelude::*;

verus! {

/// The colour the squares are drawn in.
pub const FRACTAL_COLOR: u32 = 0xFFFFFF;

/// Whether a fractal of `steps` levels, whose first square has its top left
/// corner at `(left, top)` and is `width` units of `square` pixels wide, lies
/// on a surface with all its squares, every corner within 16 bits.
pub open spec fn fractal_fits(
    surface_width: nat,
    surface_height: nat,
    square: int,
    steps: nat,
    left: int,
    top: int,
    width: int,
) -> bool
    decreases steps,
{
    steps == 0 || {
        let inner = width / 2;
        let reach = inner / 2;
        &&& left + width * square <= surface_width
        &&& top + width * square <= surface_height
        &&& 0 <= left - reach
        &&& 0 <= top - reach
        &&& left + reach <= u16::MAX
        &&& top + reach <= u16::MAX
        &&& fractal_fits(
            surface_width,
            surface_height,
            square,
            (steps - 1) as nat,
            left - reach,
            top - reach,
            inner,
        )
        &&& fractal_fits(
            surface_width,
            surface_height,
            square,
            (steps - 1) as nat,
            left + reach,
            top - reach,
            inner,
        )
        &&& fractal_fits(
            surface_width,
            surface_height,
            square,
            (steps - 1) as nat,
            left + reach,
            top + reach,
            inner,
        )
        &&& fractal_fits(
            surface_width,
            surface_height,
            square,
            (steps - 1) as nat,
            left - reach,
            top + reach,
            inner,
        )
    }
}

/// The surface after a fractal of `steps` levels was drawn on it: nothing for
/// no level; else the square, then a fractal of one level less and half the
/// width around each corner of the square's top left quarter, going round
/// from the top left.
pub open spec fn fractal_drawn<L>(
    surface: SurfaceState<L>,
    square: int,
    steps: nat,
    left: int,
    top: int,
    width: int,
) -> SurfaceState<L>
    decreases steps,
{
    if steps == 0 {
        surface
    } else {
        let inner = width / 2;
        let reach = inner / 2;
        let first = surface.filled(left, top, width * square, width * square, FRACTAL_COLOR);
        let second = fractal_drawn(
            first,
            square,
            (steps - 1) as nat,
            left - reach,
            top - reach,
            inner,
        );
        let third = fractal_drawn(
            second,
            square,
            (steps - 1) as nat,
            left + reach,
            top - reach,
            inner,
        );
        let fourth = fractal_drawn(
            third,
            square,
            (steps - 1) as nat,
            left + reach,
            top + reach,
            inner,
        );
        fractal_drawn(fourth, square, (steps - 1) as nat, left - reach, top + reach, inner)
    }
}

/// Proves that drawing a fractal leaves every pixel either as it was or in
/// the fractal's colour, and leaves everything but the pixels alone.
pub proof fn lemma_fractal_pixels<L>(
    surface: SurfaceState<L>,
    square: int,
    steps: nat,
    left: int,
    top: int,
    width: int,
)
    ensures
        fractal_drawn(surface, square, steps, left, top, width) == (SurfaceState {
            pixels: fractal_drawn(surface, square, steps, left, top, width).pixels,
            ..surface
        }),
        fractal_drawn(surface, square, steps, left, top, width).pixels.len()
            == surface.pixels.len(),
        forall|i: int|
            0 <= i < surface.pixels.len() ==> {
                let after = #[trigger] fractal_drawn(surface, square, steps, left, top, width).pixels[i];
                after == surface.pixels[i] || after == FRACTAL_COLOR
            },
    decreases steps,
{
    if steps > 0 {
        let inner = width / 2;
        let reach = inner / 2;
        let below = (steps - 1) as nat;
        let first = surface.filled(left, top, width * square, width * square, FRACTAL_COLOR);
        let second = fractal_drawn(first, square, below, left - reach, top - reach, inner);
        let third = fractal_drawn(second, square, below, left + reach, top - reach, inner);
        let fourth = fractal_drawn(third, square, below, left + reach, top + reach, inner);
        let fifth = fractal_drawn(fourth, square, below, left - reach, top + reach, inner);
        lemma_fractal_pixels(first, square, below, left - reach, top - reach, inner);
        lemma_fractal_pixels(second, square, below, left + reach, top - reach, inner);
        lemma_fractal_pixels(third, square, below, left + reach, top + reach, inner);
        lemma_fractal_pixels(fourth, square, below, left - reach, top + reach, inner);
        assert forall|i: int| 0 <= i < surface.pixels.len() implies {
            let after = #[trigger] fifth.pixels[i];
            after == surface.pixels[i] || after == FRACTAL_COLOR
        } by {
            assert(first.pixels[i] == surface.pixels[i] || first.pixels[i] == FRACTAL_COLOR);
            assert(second.pixels[i] == first.pixels[i] || second.pixels[i] == FRACTAL_COLOR);
            assert(third.pixels[i] == second.pixels[i] || third.pixels[i] == FRACTAL_COLOR);
            assert(fourth.pixels[i] == third.pixels[i] || fourth.pixels[i] == FRACTAL_COLOR);
        }
    }
}

/// Draws fractals of squares; a square's width is counted in units of
/// `square_size` pixels.
pub struct Fractal {
    square_size: u8,
}

impl Fractal {
    /// The number of pixels in one unit of width.
    pub closed spec fn unit(&self) -> nat {
        self.square_size as nat
    }

    /// Makes a fractal whose unit of width is `square_size` pixels.
    pub fn new(square_size: u8) -> (fractal: Self)
        ensures
            fractal.unit() == square_size,
    {
        Fractal { square_size }
    }

    /// The number of pixels in one unit of width.
    pub fn square_size(&self) -> (size: u8)
        ensures
            size == self.unit(),
    {
        self.square_size
    }

    /// Whether a fractal of `steps` levels, whose first square has its top
    /// left corner at `(left, top)` and is `width` units wide, lies on a
    /// surface of the given size with all its squares.
    pub fn fits(
        &self,
        surface_width: u32,
        surface_height: u32,
        steps: u8,
        left: u16,
        top: u16,
        width: u16,
    ) -> (fits: bool)
        ensures
            fits == fractal_fits(
                surface_width as nat,
                surface_height as nat,
                self.unit() as int,
                steps as nat,
                left as int,
                top as int,
                width as int,
            ),
        decreases steps,
    {
        if steps == 0 {
            return true;
        }
        assert(width * self.square_size <= 0xFFFF * 0xFF) by (nonlinear_arith)
            requires
                0 <= width <= 0xFFFF,
                0 <= self.square_size <= 0xFF,
        ;
        let side: u32 = width as u32 * self.square_size as u32;
        let inner: u16 = width / 2;
        let reach: u16 = inner / 2;
        if left as u64 + side as u64 > surface_width as u64 || top as u64 + side as u64
            > surface_height as u64 {
            return false;
        }
        if left < reach || top < reach || left > u16::MAX - reach || top > u16::MAX - reach {
            return false;
        }
        self.fits(surface_width, surface_height, steps - 1, left - reach, top - reach, inner)
            && self.fits(
            surface_width,
            surface_height,
            steps - 1,
            left + reach,
            top - reach,
            inner,
        ) && self.fits(
            surface_width,
            surface_height,
            steps - 1,
            left + reach,
            top + reach,
            inner,
        ) && self.fits(
            surface_width,
            surface_height,
            steps - 1,
            left - reach,
            top + reach,
            inner,
        )
    }

    /// Fills the square whose top left corner is `(x, y)` and whose side is
    /// `size` units with `color`. The square has to lie on the surface.
    pub fn render_rect<F: Framebuffer>(&self, fb: &mut F, x: u32, y: u32, size: u16, color: u32)
        requires
            old(fb)@.wf(),
            x + size * self.unit() <= old(fb)@.width,
            y + size * self.unit() <= old(fb)@.height,
        ensures
            final(fb)@ == old(fb)@.filled(
                x as int,
                y as int,
                size * self.unit(),
                size * self.unit(),
                color,
            ),
            final(fb)@.wf(),
    {
        assert(size * self.square_size <= 0xFFFF * 0xFF) by (nonlinear_arith)
            requires
                0 <= size <= 0xFFFF,
                0 <= self.square_size <= 0xFF,
        ;
        let scaled_size: u32 = size as u32 * self.square_size as u32;
        fill_rect(fb, x, y, scaled_size, scaled_size, color);
    }

    /// Draws a fractal of `steps` levels whose first square has its top left
    /// corner at `(left, top)` and is `width` units wide. All its squares
    /// have to lie on the surface.
    pub fn render<F: Framebuffer>(&self, fb: &mut F, steps: u8, left: u16, top: u16, width: u16)
        requires
            old(fb)@.wf(),
            fractal_fits(
                old(fb)@.width,
                old(fb)@.height,
                self.unit() as int,
                steps as nat,
                left as int,
                top as int,
                width as int,
            ),
        ensures
            final(fb)@ == fractal_drawn(
                old(fb)@,
                self.unit() as int,
                steps as nat,
                left as int,
                top as int,
                width as int,
            ),
            final(fb)@.wf(),
            final(fb)@.width == old(fb)@.width,
            final(fb)@.height == old(fb)@.height,
        decreases steps,
    {
        if steps == 0 {
            return ;
        }
        self.render_rect(fb, left as u32, top as u32, width, FRACTAL_COLOR);
        let w: u16 = width / 2;
        self.render(fb, steps - 1, left - (w / 2), top - (w / 2), w);
        self.render(fb, steps - 1, left + (w / 2), top - (w / 2), w);
        self.render(fb, steps - 1, left + (w / 2), top + (w / 2), w);
        self.render(fb, steps - 1, left - (w / 2), top + (w / 2), w);
    }
}

} // verus!
