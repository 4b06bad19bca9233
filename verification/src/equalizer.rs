//! The equaliser display: where each bar stands and how high it is.

use vstd::prelude::*;

use crate::frame::{in_rectangle, on_display, FrameBuffer, DISPLAY_HEIGHT, DISPLAY_WIDTH};
use crate::settings::{
    EqualizerConfig, MAX_BAR_COUNT, MAX_POLLING_INTERVAL, MIN_BAR_COUNT, MIN_POLLING_INTERVAL,
};
use crate::spectrum::SharedSpectrum;

verus! {

/// The most bars that are drawn with a gap between neighbours.
pub const MAX_SPACED_BARS: usize = 64;

/// The dark columns between two bars.
pub open spec fn gap(bar_count: int) -> int {
    if bar_count <= MAX_SPACED_BARS {
        1
    } else {
        0
    }
}

/// The width of a bar: an equal share of what the gaps leave.
pub open spec fn bar_width(bar_count: int) -> int {
    (DISPLAY_WIDTH - gap(bar_count) * (bar_count - 1)) / bar_count
}

/// The columns from the first of the leftmost bar to the last of the
/// rightmost.
pub open spec fn used_width(bar_count: int) -> int {
    bar_width(bar_count) * bar_count + gap(bar_count) * (bar_count - 1)
}

/// The dark columns to the left of the first bar.
pub open spec fn left_padding(bar_count: int) -> int {
    (DISPLAY_WIDTH - used_width(bar_count)) / 2
}

/// The first column of bar `index`.
pub open spec fn bar_left(bar_count: int, index: int) -> int {
    left_padding(bar_count) + index * (bar_width(bar_count) + gap(bar_count))
}

/// The height of a bar at `level`: the whole number nearest to
/// `level * 40 / 255`.
pub open spec fn bar_height(level: u8) -> int {
    (level * DISPLAY_HEIGHT * 2 + 255) / 510
}

/// The dot belongs to bar `index` at `level`, which stands on the bottom row.
pub open spec fn in_bar(bar_count: int, index: int, level: u8, x: int, y: int) -> bool {
    &&& bar_left(bar_count, index) <= x < bar_left(bar_count, index) + bar_width(bar_count)
    &&& DISPLAY_HEIGHT - bar_height(level) <= y < DISPLAY_HEIGHT
}

/// The dot belongs to one of the first `limit` bars.
pub open spec fn in_first_bars(bars: Seq<u8>, limit: int, x: int, y: int) -> bool {
    exists|index: int|
        0 <= index < limit && in_bar(bars.len() as int, index, #[trigger] bars[index], x, y)
}

/// The dot belongs to some bar.
pub open spec fn in_some_bar(bars: Seq<u8>, x: int, y: int) -> bool {
    in_first_bars(bars, bars.len() as int, x, y)
}

/// A count of bars that fits on the display.
pub open spec fn count_ok(bar_count: int) -> bool {
    MIN_BAR_COUNT <= bar_count <= MAX_BAR_COUNT
}

/// The bars fit: they are at least one column wide and not wider than the
/// display together.
pub proof fn lemma_bars_fit(bar_count: int)
    requires
        count_ok(bar_count),
    ensures
        1 <= bar_width(bar_count) <= 31,
        0 <= used_width(bar_count) <= DISPLAY_WIDTH,
        0 <= left_padding(bar_count),
{
    let n = bar_count;
    let usable = DISPLAY_WIDTH - gap(n) * (n - 1);
    assert(1 <= usable / n <= 31) by (nonlinear_arith)
        requires
            4 <= n <= 128,
            n <= usable <= 128,
            n == 4 ==> usable <= 125,
    ;
    assert((usable / n) * n <= usable) by (nonlinear_arith)
        requires
            0 < n,
            0 <= usable,
    ;
    assert(0 <= (usable / n) * n) by (nonlinear_arith)
        requires
            0 < n,
            1 <= usable / n,
    ;
}

/// Every bar lies on the display.
pub proof fn lemma_bar_on_display(bar_count: int, index: int)
    requires
        count_ok(bar_count),
        0 <= index < bar_count,
    ensures
        0 <= bar_left(bar_count, index),
        bar_left(bar_count, index) + bar_width(bar_count) <= DISPLAY_WIDTH,
{
    let n = bar_count;
    let step = bar_width(n) + gap(n);
    lemma_bars_fit(n);
    assert(0 <= index * step <= (n - 1) * step) by (nonlinear_arith)
        requires
            0 <= index <= n - 1,
            0 <= step,
    ;
    assert((n - 1) * step + bar_width(n) == used_width(n)) by (nonlinear_arith)
        requires
            step == bar_width(n) + gap(n),
            used_width(n) == bar_width(n) * n + gap(n) * (n - 1),
    ;
}

/// Bars do not touch the columns of the bars after them, and where there is a
/// gap it stays dark.
pub proof fn lemma_bars_do_not_overlap(bar_count: int, i: int, j: int)
    requires
        count_ok(bar_count),
        0 <= i < j < bar_count,
    ensures
        bar_left(bar_count, i) + bar_width(bar_count) + gap(bar_count) <= bar_left(bar_count, j),
{
    let step = bar_width(bar_count) + gap(bar_count);
    lemma_bars_fit(bar_count);
    assert(i * step + step <= j * step) by (nonlinear_arith)
        requires
            i < j,
            0 <= step,
    ;
}

/// The bars are centred: the columns left over on the right are as many as
/// those on the left, or one more.
pub proof fn lemma_bars_are_centred(bar_count: int)
    requires
        count_ok(bar_count),
    ensures
        left_padding(bar_count) <= DISPLAY_WIDTH - used_width(bar_count) - left_padding(bar_count)
            <= left_padding(bar_count) + 1,
{
}

/// A bar's height is the whole number nearest to `level * 40 / 255`, with
/// never a tie, and fits on the display.
pub proof fn lemma_bar_height_is_nearest(level: u8)
    ensures
        0 <= bar_height(level) <= DISPLAY_HEIGHT,
        -255 < 510 * bar_height(level) - 2 * (level * DISPLAY_HEIGHT) < 255,
{
}

/// A higher level never makes a lower bar; silence is dark and the highest
/// level fills the display.
pub proof fn lemma_bar_height_rises(low: u8, high: u8)
    requires
        low <= high,
    ensures
        bar_height(low) <= bar_height(high),
        bar_height(0) == 0,
        bar_height(255) == DISPLAY_HEIGHT,
{
}

/// Bars stand on the bottom row: below a lit dot every dot is lit.
pub proof fn lemma_bars_stand_on_the_bottom(bars: Seq<u8>, x: int, y: int, below: int)
    requires
        in_some_bar(bars, x, y),
        y <= below < DISPLAY_HEIGHT,
    ensures
        in_some_bar(bars, x, below),
{
    let index = choose|index: int|
        0 <= index < bars.len() && in_bar(bars.len() as int, index, #[trigger] bars[index], x, y);
    assert(in_bar(bars.len() as int, index, bars[index], x, below));
}

/// In the columns of a bar, the dots that are lit are that bar's own.
pub proof fn lemma_bar_columns_show_its_level(bars: Seq<u8>, index: int, x: int, y: int)
    requires
        count_ok(bars.len() as int),
        0 <= index < bars.len(),
        bar_left(bars.len() as int, index) <= x < bar_left(bars.len() as int, index) + bar_width(
            bars.len() as int,
        ),
    ensures
        in_some_bar(bars, x, y) <==> DISPLAY_HEIGHT - bar_height(bars[index]) <= y
            < DISPLAY_HEIGHT,
{
    let n = bars.len() as int;
    if in_some_bar(bars, x, y) {
        let other = choose|i: int| 0 <= i < n && in_bar(n, i, #[trigger] bars[i], x, y);
        if other < index {
            lemma_bars_do_not_overlap(n, other, index);
        } else if index < other {
            lemma_bars_do_not_overlap(n, index, other);
        }
    }
    if DISPLAY_HEIGHT - bar_height(bars[index]) <= y < DISPLAY_HEIGHT {
        assert(in_bar(n, index, bars[index], x, y));
    }
}

/// The height of a bar at `level`.
pub fn height_of(level: u8) -> (r: usize)
    ensures
        r == bar_height(level),
        r <= DISPLAY_HEIGHT,
{
    (level as usize * DISPLAY_HEIGHT * 2 + 255) / 510
}

/// The display of the current spectrum, drawn anew every `polling_interval`
/// milliseconds.
pub struct Equalizer {
    pub polling_interval: u64,
    pub bar_count: usize,
    pub shared: SharedSpectrum,
}

impl Equalizer {
    /// The bars fit on the display and every one has a level.
    pub open spec fn bars_fit(&self) -> bool {
        &&& count_ok(self.bar_count as int)
        &&& self.shared.bars@.len() == self.bar_count
    }

    /// The polling interval is in its range, the bars fit on the display and
    /// every one has a level.
    pub open spec fn wf(&self) -> bool {
        &&& MIN_POLLING_INTERVAL <= self.polling_interval <= MAX_POLLING_INTERVAL
        &&& self.bars_fit()
    }

    /// A display with these settings, which stays dark until there is a
    /// spectrum.
    pub fn new(config: &EqualizerConfig) -> (r: Equalizer)
        requires
            config.wf(),
        ensures
            r.wf(),
            r.polling_interval == config.polling_interval,
            r.bar_count == config.bar_count,
            r.shared.bars@ == Seq::new(config.bar_count as nat, |i: int| 0u8),
            !r.shared.active,
    {
        Equalizer {
            polling_interval: config.polling_interval,
            bar_count: config.bar_count,
            shared: SharedSpectrum::new(config.bar_count),
        }
    }

    /// Takes over a spectrum with as many bars.
    pub fn show(&mut self, shared: SharedSpectrum)
        requires
            old(self).wf(),
            shared.bars@.len() == old(self).bar_count,
        ensures
            final(self).wf(),
            final(self).shared == shared,
            final(self).polling_interval == old(self).polling_interval,
            final(self).bar_count == old(self).bar_count,
    {
        self.shared = shared;
    }

    /// The picture of the spectrum: dark before the first analysis, whatever
    /// the bars, and after it the bars, evenly spread over the display.
    pub fn render(&self) -> (r: FrameBuffer)
        requires
            self.shared.active ==> self.bars_fit(),
        ensures
            r.wf(),
            forall|x: int, y: int|
                on_display(x, y) ==> #[trigger] r.lit(x, y) == (self.shared.active && in_some_bar(
                    self.shared.bars@,
                    x,
                    y,
                )),
    {
        let mut buffer: FrameBuffer = FrameBuffer::new();
        if !self.shared.active {
            return buffer;
        }
        let count: usize = self.bar_count;
        let gap_width: usize = if count <= MAX_SPACED_BARS {
            1
        } else {
            0
        };
        let gaps: usize = if count <= MAX_SPACED_BARS {
            count - 1
        } else {
            0
        };
        let width: usize = (DISPLAY_WIDTH - gaps) / count;
        proof {
            lemma_bars_fit(count as int);
            assert(width == bar_width(count as int));
        }
        let used: usize = width * count + gaps;
        let padding: usize = (DISPLAY_WIDTH - used) / 2;
        let mut index: usize = 0;
        while index < count
            invariant
                self.bars_fit(),
                count == self.bar_count,
                gap_width == gap(count as int),
                width == bar_width(count as int),
                padding == left_padding(count as int),
                index <= count,
                buffer.wf(),
                forall|x: int, y: int|
                    on_display(x, y) ==> #[trigger] buffer.lit(x, y) == in_first_bars(
                        self.shared.bars@,
                        index as int,
                        x,
                        y,
                    ),
            decreases count - index,
        {
            let ghost before = buffer;
            let ghost bars = self.shared.bars@;
            let level: u8 = self.shared.bars[index];
            let height: usize = height_of(level);
            if height > 0 {
                proof {
                    lemma_bar_on_display(count as int, index as int);
                    lemma_bars_fit(count as int);
                }
                let left: i32 = (padding + index * (width + gap_width)) as i32;
                let right: i32 = left + (width as i32 - 1);
                let top: i32 = (DISPLAY_HEIGHT - height) as i32;
                buffer.fill_rectangle(left, top, right, DISPLAY_HEIGHT as i32 - 1);
                assert(forall|x: int, y: int|
                    in_rectangle(left as int, top as int, right as int, DISPLAY_HEIGHT - 1, x, y)
                        == in_bar(count as int, index as int, level, x, y));
            }
            proof {
                assert forall|x: int, y: int| on_display(x, y) implies #[trigger] buffer.lit(x, y)
                    == in_first_bars(bars, index + 1, x, y) by {
                    assert(buffer.lit(x, y) == (before.lit(x, y) || in_bar(
                        count as int,
                        index as int,
                        bars[index as int],
                        x,
                        y,
                    )));
                    if in_first_bars(bars, index as int, x, y) {
                        let i = choose|i: int|
                            0 <= i < index && in_bar(count as int, i, #[trigger] bars[i], x, y);
                        assert(0 <= i < index + 1 && in_bar(count as int, i, bars[i], x, y));
                    }
                }
            }
            index = index + 1;
        }
        buffer
    }

    /// The name of this display source.
    pub fn name(&self) -> (r: &'static str)
        ensures
            r@ == "equalizer"@,
    {
        "equalizer"
    }
}

/// Bars are as wide as they can be with their gaps, one dark column between
/// neighbours up to 64 bars and none beyond; they stand side by side, and what
/// is left over is shared between both sides of the display, with an odd
/// column on the right.
pub proof fn lemma_bars_are_as_wide_as_can_be(n: int, i: int)
    requires
        4 <= n <= 128,
        0 <= i < n - 1,
    ensures
        n <= 64 ==> gap(n) == 1,
        n > 64 ==> gap(n) == 0,
        bar_width(n) * n + gap(n) * (n - 1) <= 128,
        128 < (bar_width(n) + 1) * n + gap(n) * (n - 1),
        bar_left(n, i + 1) == bar_left(n, i) + bar_width(n) + gap(n),
        0 <= 128 - (bar_width(n) * n + gap(n) * (n - 1)) - 2 * bar_left(n, 0) <= 1,
{
    let usable = 128 - gap(n) * (n - 1);
    lemma_bars_fit(n);
    assert((usable / n) * n <= usable < (usable / n + 1) * n) by (nonlinear_arith)
        requires
            0 < n,
            0 <= usable,
    ;
    let step = bar_width(n) + gap(n);
    assert((i + 1) * step == i * step + step) by (nonlinear_arith);
    assert(0 * step == 0);
}

/// The dot at `x`, `y` is on exactly where it lies in the columns of some bar,
/// at most as many rows above the bottom as that bar is high: of the whole
/// numbers, the nearest to the bar's level out of 255, times 40.
pub proof fn lemma_lit_dots_are_those_of_a_bar(bars: Seq<u8>, x: int, y: int)
    ensures
        in_some_bar(bars, x, y) <==> exists|i: int|
            0 <= i < bars.len() && bar_left(bars.len() as int, i) <= x < bar_left(
                bars.len() as int,
                i,
            ) + bar_width(bars.len() as int) && y < 40 && 510 * (40 - y) <= (#[trigger] bars[i]
                as int) * 80 + 255,
{
    let n = bars.len() as int;
    assert forall|i: int| 0 <= i < n implies (40 - bar_height(#[trigger] bars[i]) <= y < 40 <==> y
        < 40 && 510 * (40 - y) <= bars[i] as int * 80 + 255) by {
        let total = bars[i] as int * 80 + 255;
        assert(40 - y <= total / 510 <==> 510 * (40 - y) <= total);
    }
    if in_some_bar(bars, x, y) {
        let i = choose|i: int| 0 <= i < n && in_bar(n, i, #[trigger] bars[i], x, y);
        assert(40 - bar_height(bars[i]) <= y < 40);
    }
    if exists|i: int|
        0 <= i < n && bar_left(n, i) <= x < bar_left(n, i) + bar_width(n) && y < 40 && 510 * (40
            - y) <= (#[trigger] bars[i] as int) * 80 + 255 {
        let i = choose|i: int|
            0 <= i < n && bar_left(n, i) <= x < bar_left(n, i) + bar_width(n) && y < 40 && 510
                * (40 - y) <= (#[trigger] bars[i] as int) * 80 + 255;
        assert(in_bar(n, i, bars[i], x, y));
    }
}

/// Every count from 4 to 128 bars can be shown, given a level for each bar,
/// and no other.
pub proof fn lemma_what_can_be_shown(equalizer: Equalizer)
    ensures
        equalizer.bars_fit() <==> 4 <= equalizer.bar_count <= 128
            && equalizer.shared.bars@.len() == equalizer.bar_count,
        equalizer.wf() <==> 16 <= equalizer.polling_interval <= 1000 && equalizer.bars_fit(),
{
}

/// A new display keeps the polling interval and the number of bars that it is
/// given, shows silence and is not active.
pub proof fn lemma_new_display_keeps_its_settings(config: EqualizerConfig, r: Equalizer)
    requires
        call_ensures(Equalizer::new, (&config,), r),
    ensures
        r.polling_interval == config.polling_interval,
        r.bar_count == config.bar_count,
        r.shared.bars@.len() == config.bar_count,
        forall|i: int| 0 <= i < config.bar_count ==> #[trigger] r.shared.bars@[i] == 0,
        !r.shared.active,
{
}

/// What is drawn: nothing while the spectrum is inactive; once it is active, a
/// dot is on exactly where it lies in the columns of a bar, at most as many
/// rows above the bottom as that bar is high.
pub proof fn lemma_drawn_dots_are_those_of_a_bar(
    equalizer: Equalizer,
    frame: FrameBuffer,
    x: int,
    y: int,
)
    requires
        call_ensures(Equalizer::render, (&equalizer,), frame),
        0 <= x < 128,
        0 <= y < 40,
    ensures
        frame.dots@.len() == 5120,
        !equalizer.shared.active ==> !frame.dots@[y * 128 + x],
        equalizer.shared.active ==> (frame.dots@[y * 128 + x] <==> exists|i: int|
            0 <= i < equalizer.shared.bars@.len() && bar_left(
                equalizer.shared.bars@.len() as int,
                i,
            ) <= x < bar_left(equalizer.shared.bars@.len() as int, i) + bar_width(
                equalizer.shared.bars@.len() as int,
            ) && 510 * (40 - y) <= (#[trigger] equalizer.shared.bars@[i] as int) * 80 + 255),
{
    assert(on_display(x, y));
    assert(frame.lit(x, y) == frame.dots@[y * 128 + x]);
    lemma_lit_dots_are_those_of_a_bar(equalizer.shared.bars@, x, y);
}

/// A display shows the spectrum it is given and keeps its settings.
pub proof fn lemma_shown_spectrum_is_the_given_one(shared: SharedSpectrum)
    ensures
        forall|equalizer: &mut Equalizer| #[trigger]
            call_ensures(Equalizer::show, (equalizer, shared), ()) ==> {
                &&& final(equalizer).shared == shared
                &&& final(equalizer).polling_interval == equalizer.polling_interval
                &&& final(equalizer).bar_count == equalizer.bar_count
            },
{
}

} // verus!
