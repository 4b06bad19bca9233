//! The picture: a display of 128 by 40 dots, each on or off.

use vstd::prelude::*;

use embedded_graphics::{
    geometry::Point,
    pixelcolor::BinaryColor,
    primitives::{Primitive, PrimitiveStyle, Rectangle},
};

verus! {

pub const DISPLAY_WIDTH: usize = 128;

pub const DISPLAY_HEIGHT: usize = 40;

/// The number of dots.
pub const DISPLAY_DOTS: usize = DISPLAY_WIDTH * DISPLAY_HEIGHT;

/// The dot lies on the display.
pub open spec fn on_display(x: int, y: int) -> bool {
    0 <= x < DISPLAY_WIDTH && 0 <= y < DISPLAY_HEIGHT
}

/// The dot lies in the rectangle with these first and last columns and rows.
pub open spec fn in_rectangle(
    left: int,
    top: int,
    right: int,
    bottom: int,
    x: int,
    y: int,
) -> bool {
    left <= x <= right && top <= y <= bottom
}

/// Calls `embedded_graphics::primitives::Rectangle::with_corners`, styles the
/// rectangle with `PrimitiveStyle::with_fill` and lists its dots through
/// `Styled::pixels`: row by row, each from the left, every dot of the
/// rectangle, corners included, once and switched on.
#[verifier::external_body]
fn filled_rectangle(left: i32, top: i32, right: i32, bottom: i32) -> (r: Vec<(i32, i32, bool)>)
    requires
        0 <= left <= right < DISPLAY_WIDTH,
        0 <= top <= bottom < DISPLAY_HEIGHT,
    ensures
        r@.len() == (right - left + 1) * (bottom - top + 1),
        forall|k: int|
            0 <= k < r@.len() ==> #[trigger] r@[k] == (
                (left + k % (right - left + 1)) as i32,
                (top + k / (right - left + 1)) as i32,
                true,
            ),
{
    Rectangle::with_corners(Point::new(left, top), Point::new(right, bottom))
        .into_styled(PrimitiveStyle::with_fill(BinaryColor::On))
        .pixels()
        .map(|pixel| (pixel.0.x, pixel.0.y, pixel.1.is_on()))
        .collect()
}

/// A picture, its dots row by row from the top left.
pub struct FrameBuffer {
    pub dots: Vec<bool>,
}

impl FrameBuffer {
    /// There is a dot for each place of the display.
    pub open spec fn wf(&self) -> bool {
        self.dots@.len() == DISPLAY_DOTS
    }

    /// The dot at column `x` of row `y` is on.
    pub open spec fn lit(&self, x: int, y: int) -> bool {
        self.dots@[y * DISPLAY_WIDTH + x]
    }

    /// A dark picture.
    pub fn new() -> (r: FrameBuffer)
        ensures
            r.wf(),
            forall|x: int, y: int| on_display(x, y) ==> !#[trigger] r.lit(x, y),
    {
        let mut dots: Vec<bool> = Vec::with_capacity(DISPLAY_DOTS);
        while dots.len() < DISPLAY_DOTS
            invariant
                dots@.len() <= DISPLAY_DOTS,
                forall|i: int| 0 <= i < dots@.len() ==> !dots@[i],
            decreases DISPLAY_DOTS - dots@.len(),
        {
            dots.push(false);
        }
        FrameBuffer { dots }
    }

    /// Whether the dot at column `x` of row `y` is on.
    pub fn is_lit(&self, x: usize, y: usize) -> (r: bool)
        requires
            self.wf(),
            on_display(x as int, y as int),
        ensures
            r == self.lit(x as int, y as int),
    {
        self.dots[y * DISPLAY_WIDTH + x]
    }

    /// Switches one dot; one outside the display is ignored.
    pub fn set_dot(&mut self, x: i32, y: i32, on: bool)
        requires
            old(self).wf(),
        ensures
            final(self).wf(),
            forall|a: int, b: int|
                on_display(a, b) ==> #[trigger] final(self).lit(a, b) == if a == x && b == y {
                    on
                } else {
                    old(self).lit(a, b)
                },
    {
        if 0 <= x && x < DISPLAY_WIDTH as i32 && 0 <= y && y < DISPLAY_HEIGHT as i32 {
            let at: usize = y as usize * DISPLAY_WIDTH + x as usize;
            self.dots[at] = on;
        }
    }

    /// Switches on every dot of a rectangle on the display, corners included,
    /// and leaves the others.
    pub fn fill_rectangle(&mut self, left: i32, top: i32, right: i32, bottom: i32)
        requires
            old(self).wf(),
            0 <= left <= right < DISPLAY_WIDTH,
            0 <= top <= bottom < DISPLAY_HEIGHT,
        ensures
            final(self).wf(),
            forall|x: int, y: int|
                on_display(x, y) ==> #[trigger] final(self).lit(x, y) == (old(self).lit(x, y)
                    || in_rectangle(
                    left as int,
                    top as int,
                    right as int,
                    bottom as int,
                    x,
                    y,
                )),
    {
        let dots: Vec<(i32, i32, bool)> = filled_rectangle(left, top, right, bottom);
        let ghost width = right - left + 1;
        let ghost height = bottom - top + 1;
        let mut k: usize = 0;
        while k < dots.len()
            invariant
                self.wf(),
                0 <= left <= right < DISPLAY_WIDTH,
                0 <= top <= bottom < DISPLAY_HEIGHT,
                width == right - left + 1,
                height == bottom - top + 1,
                dots@.len() == width * height,
                forall|j: int|
                    0 <= j < dots@.len() ==> #[trigger] dots@[j] == (
                        (left + j % width) as i32,
                        (top + j / width) as i32,
                        true,
                    ),
                k <= dots@.len(),
                forall|x: int, y: int|
                    on_display(x, y) ==> #[trigger] self.lit(x, y) == (old(self).lit(x, y) || (
                    in_rectangle(left as int, top as int, right as int, bottom as int, x, y) && (y
                        - top) * width + (x - left) < k)),
            decreases dots@.len() - k,
        {
            let ghost before = *self;
            let (x, y, on): (i32, i32, bool) = dots[k];
            self.set_dot(x, y, on);
            proof {
                lemma_place(k as int, width, height);
                assert forall|a: int, b: int| on_display(a, b) implies #[trigger] self.lit(a, b)
                    == (old(self).lit(a, b) || (in_rectangle(
                    left as int,
                    top as int,
                    right as int,
                    bottom as int,
                    a,
                    b,
                ) && (b - top) * width + (a - left) < k + 1)) by {
                    assert(self.lit(a, b) == if a == x && b == y {
                        true
                    } else {
                        before.lit(a, b)
                    });
                    if in_rectangle(
                        left as int,
                        top as int,
                        right as int,
                        bottom as int,
                        a,
                        b,
                    ) && (b - top) * width + (a - left) == k {
                        lemma_place_of(b - top, a - left, width);
                    }
                }
            }
            k = k + 1;
        }
        proof {
            assert forall|x: int, y: int|
                in_rectangle(left as int, top as int, right as int, bottom as int, x, y) implies (y
                - top) * width + (x - left) < width * height by {
                lemma_before_end(y - top, x - left, width, height);
            }
        }
    }
}

proof fn lemma_place(k: int, width: int, height: int)
    requires
        0 < width,
        0 <= k < width * height,
    ensures
        0 <= k % width < width,
        0 <= k / width < height,
        (k / width) * width + k % width == k,
{
    vstd::arithmetic::div_mod::lemma_fundamental_div_mod(k, width);
    vstd::arithmetic::mul::lemma_mul_is_commutative(k / width, width);
    assert(0 <= k / width < height) by (nonlinear_arith)
        requires
            0 < width,
            0 <= k < width * height,
    ;
}

proof fn lemma_place_of(row: int, column: int, width: int)
    requires
        0 <= column < width,
    ensures
        (row * width + column) % width == column,
        (row * width + column) / width == row,
{
    vstd::arithmetic::div_mod::lemma_fundamental_div_mod_converse(
        row * width + column,
        width,
        row,
        column,
    );
}

proof fn lemma_before_end(row: int, column: int, width: int, height: int)
    requires
        0 <= row < height,
        0 <= column < width,
    ensures
        row * width + column < width * height,
{
    assert(row * width + column < width * height) by (nonlinear_arith)
        requires
            0 <= row < height,
            0 <= column < width,
    ;
}

/// The display has 128 columns and 40 rows, and a picture has a dot for each,
/// row by row.
pub proof fn lemma_dots_lie_row_by_row(frame: FrameBuffer, x: int, y: int)
    ensures
        on_display(x, y) <==> 0 <= x && x < 128 && 0 <= y && y < 40,
        frame.wf() <==> frame.dots@.len() == 5120,
        frame.lit(x, y) == frame.dots@[y * 128 + x],
{
}

/// A rectangle holds the dots from its first to its last column and from its
/// first to its last row.
pub proof fn lemma_rectangle_holds_its_corners(
    left: int,
    top: int,
    right: int,
    bottom: int,
    x: int,
    y: int,
)
    ensures
        in_rectangle(left, top, right, bottom, x, y) <==> left <= x && x <= right && top <= y && y
            <= bottom,
{
}

} // verus!
