use embedded_graphics::draw_target::DrawTarget;
use embedded_graphics::geometry::{Dimensions, Point, Size};
use embedded_graphics::pixelcolor::BinaryColor;
use embedded_graphics::primitives::{Line, Primitive, PrimitiveStyle, Rectangle};
use embedded_graphics::Drawable;
use embedded_graphics::Pixel;

use ssd1681::color::Color;
use ssd1681::graphics::{
    buffer_len, find_position, outside_display, Display1in54, DisplayRotation,
};

/// Adapter that lets embedded-graphics primitives plot into a display plane.
struct PanelCanvas {
    display: Display1in54,
}

impl Dimensions for PanelCanvas {
    fn bounding_box(&self) -> Rectangle {
        Rectangle::new(Point::new(0, 0), Size::new(200, 200))
    }
}

impl DrawTarget for PanelCanvas {
    type Color = BinaryColor;
    type Error = core::convert::Infallible;

    fn draw_iter<I>(&mut self, pixels: I) -> Result<(), Self::Error>
    where
        I: IntoIterator<Item = Pixel<Self::Color>>,
    {
        for Pixel(point, color) in pixels {
            let c = if color == BinaryColor::On { Color::Black } else { Color::White };
            self.display.draw_pixel(point.x, point.y, c);
        }
        Ok(())
    }
}

#[test]
fn buffer_clear() {
    let mut display = Display1in54::bw();

    for &byte in display.buffer().iter() {
        assert_eq!(byte, Color::White.get_byte_value());
    }

    display.clear_buffer(Color::White);

    for &byte in display.buffer().iter() {
        assert_eq!(byte, Color::Black.get_byte_value());
    }
}

#[test]
fn rotation_overflow() {
    let width = 200u32;
    let height = 200u32;
    test_rotation_overflow(width, height, DisplayRotation::Rotate0);
    test_rotation_overflow(width, height, DisplayRotation::Rotate90);
    test_rotation_overflow(width, height, DisplayRotation::Rotate180);
    test_rotation_overflow(width, height, DisplayRotation::Rotate270);
}

fn test_rotation_overflow(width: u32, height: u32, rotation2: DisplayRotation) {
    let max_value = width / 8 * height;
    for x in 0..(width + height) {
        // limit x because it runs too long
        for y in 0..(u32::MAX) {
            if outside_display(x as i32, y as i32, width, height, rotation2) {
                break;
            } else {
                let (idx, _) = find_position(x, y, width, height, rotation2);
                assert!(idx < max_value);
            }
        }
    }
}

#[test]
fn graphics_rotation_0() {
    let mut canvas = PanelCanvas { display: Display1in54::bw() };

    let _ = Line::new(Point::new(0, 0), Point::new(7, 0))
        .into_styled(PrimitiveStyle::with_stroke(BinaryColor::On, 1))
        .draw(&mut canvas);

    let buffer = canvas.display.buffer();

    assert_eq!(buffer[0], Color::Black.get_byte_value());

    for &byte in buffer.iter().skip(1) {
        assert_eq!(byte, Color::White.get_byte_value());
    }
}

#[test]
fn buffer_len_rounds_up() {
    assert_eq!(buffer_len(200, 200), 5000);
    assert_eq!(buffer_len(8, 1), 1);
    assert_eq!(buffer_len(7, 3), 3);
    assert_eq!(buffer_len(9, 2), 4);
    assert_eq!(buffer_len(1, 1), 1);
}

#[test]
fn pixel_at_origin_clears_msb_on_bw() {
    let mut display = Display1in54::bw();
    display.draw_pixel(0, 0, Color::Black);
    // the plane is inverted: ink clears the bit, relative to the all-white
    // initial fill of 0xFF
    assert_eq!(display.buffer()[0], 0x7F);
    for &byte in display.buffer().iter().skip(1) {
        assert_eq!(byte, 0xFF);
    }
}

#[test]
fn pixel_at_origin_sets_msb_on_red() {
    let mut display = Display1in54::red();
    display.draw_pixel(0, 0, Color::Black);
    // the plane is not inverted: ink sets the bit
    assert_eq!(display.buffer()[0], 0x80);
    for &byte in display.buffer().iter().skip(1) {
        assert_eq!(byte, 0x00);
    }
}

#[test]
fn clear_buffer_respects_polarity() {
    let mut bw = Display1in54::bw();
    bw.clear_buffer(Color::Black);
    for &byte in bw.buffer().iter() {
        assert_eq!(byte, 0xFF);
    }

    let mut red = Display1in54::red();
    red.clear_buffer(Color::White);
    for &byte in red.buffer().iter() {
        assert_eq!(byte, 0xFF);
    }
    red.clear_buffer(Color::Black);
    for &byte in red.buffer().iter() {
        assert_eq!(byte, 0x00);
    }
}

#[test]
fn rotated_pixel_lands_on_rotated_address() {
    // under 90 degrees, (0, 0) maps to (199, 0): byte 24, mask 0x01
    let mut display = Display1in54::bw();
    display.set_rotation(DisplayRotation::Rotate90);
    assert!(matches!(display.rotation(), DisplayRotation::Rotate90));
    display.draw_pixel(0, 0, Color::Black);
    assert_eq!(display.buffer()[24], 0xFE);

    // under 180 degrees, (0, 0) maps to (199, 199): byte 4999, mask 0x01
    let mut display = Display1in54::bw();
    display.set_rotation(DisplayRotation::Rotate180);
    display.draw_pixel(0, 0, Color::Black);
    assert_eq!(display.buffer()[4999], 0xFE);

    // under 270 degrees, (0, 0) maps to (0, 199): byte 4975, mask 0x80
    let mut display = Display1in54::bw();
    display.set_rotation(DisplayRotation::Rotate270);
    display.draw_pixel(0, 0, Color::Black);
    assert_eq!(display.buffer()[4975], 0x7F);
}

#[test]
fn off_canvas_pixels_are_dropped() {
    let mut display = Display1in54::bw();
    display.draw_pixel(-1, 5, Color::Black);
    display.draw_pixel(5, -1, Color::Black);
    display.draw_pixel(200, 0, Color::Black);
    display.draw_pixel(0, 200, Color::Black);
    for &byte in display.buffer().iter() {
        assert_eq!(byte, 0xFF);
    }
}

#[test]
fn in_bounds_points_stay_in_bounds_under_rotation() {
    let rotations = [
        DisplayRotation::Rotate0,
        DisplayRotation::Rotate90,
        DisplayRotation::Rotate180,
        DisplayRotation::Rotate270,
    ];
    let points = [(0, 0), (199, 0), (0, 199), (199, 199), (123, 45)];
    for &(x, y) in points.iter() {
        assert!(!outside_display(x, y, 200, 200, DisplayRotation::Rotate0));
        for &rotation in rotations.iter() {
            assert!(!outside_display(x, y, 200, 200, rotation));
        }
    }
}

#[test]
fn find_position_examples() {
    assert_eq!(find_position(0, 0, 200, 200, DisplayRotation::Rotate0), (0, 0x80));
    assert_eq!(find_position(9, 1, 200, 200, DisplayRotation::Rotate0), (26, 0x40));
    assert_eq!(find_position(0, 0, 200, 200, DisplayRotation::Rotate90), (24, 0x01));
    assert_eq!(find_position(0, 0, 200, 200, DisplayRotation::Rotate180), (4999, 0x01));
    assert_eq!(find_position(0, 0, 200, 200, DisplayRotation::Rotate270), (4975, 0x80));
}

#[test]
fn default_rotation_is_none() {
    let display = Display1in54::bw();
    assert!(matches!(display.rotation(), DisplayRotation::Rotate0));
    assert!(display.is_inverted());
    assert!(!Display1in54::red().is_inverted());
    assert!(matches!(DisplayRotation::default(), DisplayRotation::Rotate0));
}
