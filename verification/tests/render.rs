use apex_equalizer::equalizer::{height_of, Equalizer};
use apex_equalizer::frame::{FrameBuffer, DISPLAY_HEIGHT, DISPLAY_WIDTH};
use apex_equalizer::settings::EqualizerConfig;
use apex_equalizer::spectrum::SharedSpectrum;
use embedded_graphics::{
    draw_target::DrawTarget,
    geometry::{OriginDimensions, Point, Size},
    pixelcolor::BinaryColor,
    primitives::{Primitive, PrimitiveStyle, Rectangle},
    Drawable, Pixel,
};

struct Grid(Vec<bool>);

impl OriginDimensions for Grid {
    fn size(&self) -> Size {
        Size::new(128, 40)
    }
}

impl DrawTarget for Grid {
    type Color = BinaryColor;
    type Error = String;

    fn draw_iter<I>(&mut self, pixels: I) -> Result<(), String>
    where
        I: IntoIterator<Item = Pixel<BinaryColor>>,
    {
        for Pixel(point, color) in pixels {
            if point.x < 0 || point.x >= 128 || point.y < 0 || point.y >= 40 {
                return Err(format!("{point:?} is off the display"));
            }
            self.0[(point.y * 128 + point.x) as usize] = color.is_on();
        }
        Ok(())
    }
}

/// The bars as rectangles in floating point, drawn straight to a grid.
fn drawn(bars: &[u8]) -> Vec<bool> {
    let mut grid = Grid(vec![false; 128 * 40]);
    let count = bars.len();
    let gap = usize::from(count <= 64);
    let usable = 128_usize.saturating_sub(gap * (count - 1));
    let width = (usable / count).max(1);
    let used = width * count + gap * (count - 1);
    let left_padding = (128_usize.saturating_sub(used) / 2) as i32;
    for (index, value) in bars.iter().enumerate() {
        let normalized = f32::from(*value) / 255.0;
        let height = (normalized * 40.0).round() as i32;
        if height <= 0 {
            continue;
        }
        let x = left_padding + index as i32 * (width + gap) as i32;
        Rectangle::with_corners(
            Point::new(x, 40 - height),
            Point::new(x + width as i32 - 1, 39),
        )
        .into_styled(PrimitiveStyle::with_fill(BinaryColor::On))
        .draw(&mut grid)
        .unwrap();
    }
    grid.0
}

fn settings(bar_count: usize) -> EqualizerConfig {
    EqualizerConfig {
        polling_interval: 20,
        bar_count,
        min_frequency: 0,
        max_frequency: 0,
        min_db: 0,
        max_db: 0,
        rise_smoothing: 0,
        fall_smoothing: 0,
        capture_sink: true,
        device_name: None,
    }
}

fn picture(bars: Vec<u8>) -> FrameBuffer {
    let mut equalizer = Equalizer::new(&settings(bars.len()));
    equalizer.show(SharedSpectrum { bars, active: true });
    equalizer.render()
}

#[test]
fn heights_are_those_of_floating_point() {
    for level in 0..=255_u8 {
        let normalized = f32::from(level) / f32::from(u8::MAX);
        let height = (normalized * 40.0_f32).round() as usize;
        assert_eq!(height_of(level), height, "{level}");
    }
    assert_eq!(height_of(0), 0);
    assert_eq!(height_of(3), 0);
    assert_eq!(height_of(4), 1);
    assert_eq!(height_of(128), 20);
    assert_eq!(height_of(255), 40);
}

#[test]
fn picture_is_dark_before_the_first_analysis() {
    let mut equalizer = Equalizer::new(&settings(32));
    assert!(equalizer.render().dots.iter().all(|dot| !dot));
    equalizer.show(SharedSpectrum {
        bars: vec![255; 32],
        active: false,
    });
    assert!(equalizer.render().dots.iter().all(|dot| !dot));
    assert_eq!(equalizer.render().dots.len(), 128 * 40);
}

#[test]
fn inactive_display_is_dark_whatever_its_bars() {
    for (bar_count, bars) in [(0, vec![]), (0, vec![255; 9]), (200, vec![255]), (3, vec![1; 3])] {
        let equalizer = Equalizer {
            polling_interval: 0,
            bar_count,
            shared: SharedSpectrum {
                bars,
                active: false,
            },
        };
        let frame = equalizer.render();
        assert_eq!(frame.dots.len(), 128 * 40);
        assert!(frame.dots.iter().all(|dot| !dot));
    }
}

#[test]
fn pictures_are_those_of_drawn_rectangles() {
    let mut seed = 1_u32;
    for count in 4..=128 {
        let bars: Vec<u8> = (0..count)
            .map(|_| {
                seed = seed.wrapping_mul(1_664_525).wrapping_add(1_013_904_223);
                (seed >> 24) as u8
            })
            .collect();
        assert_eq!(picture(bars.clone()).dots, drawn(&bars), "{count} bars");
    }
}

#[test]
fn four_bars_stand_where_they_should() {
    let frame = picture(vec![255, 0, 128, 4]);
    assert!(frame.is_lit(0, 0) && frame.is_lit(30, 39));
    assert!(!frame.is_lit(31, 39));
    assert!(!frame.is_lit(32, 39));
    assert!(frame.is_lit(64, 20) && frame.is_lit(94, 39));
    assert!(!frame.is_lit(64, 19));
    assert!(frame.is_lit(96, 39) && !frame.is_lit(96, 38));
    assert!(frame.is_lit(126, 39));
    assert!(!frame.is_lit(127, 39));
}

#[test]
fn many_bars_stand_without_gaps() {
    let frame = picture(vec![255; 65]);
    for x in 0..DISPLAY_WIDTH {
        assert_eq!(frame.is_lit(x, 0), (31..96).contains(&x), "{x}");
    }
    let frame = picture(vec![255; 128]);
    assert!(frame.dots.iter().all(|dot| *dot));
}

#[test]
fn bars_are_centred_and_apart() {
    for count in 4..=64 {
        let frame = picture(vec![255; count]);
        let lit: Vec<usize> = (0..DISPLAY_WIDTH).filter(|x| frame.is_lit(*x, 0)).collect();
        let left = lit[0];
        let right = DISPLAY_WIDTH - 1 - lit[lit.len() - 1];
        assert!(left <= right && right <= left + 1, "{count}");
        let gaps = lit.windows(2).filter(|w| w[1] == w[0] + 2).count();
        assert_eq!(gaps, count - 1);
    }
}

#[test]
fn lit_columns_reach_the_bottom() {
    let frame = picture((0..32).map(|i| (i * 8) as u8).collect());
    for x in 0..DISPLAY_WIDTH {
        for y in 1..DISPLAY_HEIGHT {
            assert!(!frame.is_lit(x, y - 1) || frame.is_lit(x, y));
        }
    }
}

#[test]
fn dots_off_the_display_are_ignored() {
    let mut frame = FrameBuffer::new();
    frame.set_dot(-1, 0, true);
    frame.set_dot(128, 0, true);
    frame.set_dot(0, -1, true);
    frame.set_dot(0, 40, true);
    assert!(frame.dots.iter().all(|dot| !dot));
    frame.set_dot(127, 39, true);
    assert!(frame.is_lit(127, 39));
    frame.set_dot(127, 39, false);
    assert!(!frame.is_lit(127, 39));
}

#[test]
fn rectangle_keeps_what_was_lit() {
    let mut frame = FrameBuffer::new();
    frame.set_dot(50, 10, true);
    frame.fill_rectangle(3, 4, 5, 4);
    let lit: Vec<usize> = (0..frame.dots.len()).filter(|i| frame.dots[*i]).collect();
    assert_eq!(lit, vec![4 * 128 + 3, 4 * 128 + 4, 4 * 128 + 5, 10 * 128 + 50]);
}

#[test]
fn new_spectrum_is_silent() {
    let spectrum = SharedSpectrum::new(3);
    assert_eq!(spectrum.bars, vec![0, 0, 0]);
    assert!(!spectrum.active);
    assert_eq!(SharedSpectrum::new(0).bars.len(), 0);
}

#[test]
fn settings_and_name_are_kept() {
    let equalizer = Equalizer::new(&settings(9));
    assert_eq!(equalizer.polling_interval, 20);
    assert_eq!(equalizer.bar_count, 9);
    assert_eq!(equalizer.name(), "equalizer");
}
