//! Bit-packed frame buffers and the pixel addressing engine.
//!
//! A plane stores one bit per pixel, eight pixels per byte with the most
//! significant bit leftmost, row by row. Rotation affects only how a logical
//! coordinate is mapped to a stored bit, never the storage layout. Each plane
//! carries a polarity flag: on an inverted plane the stored bit for an inked
//! pixel is cleared instead of set.

use vstd::prelude::*;

use crate::color::Color;
use crate::{HEIGHT, WIDTH};

verus! {

/// Clockwise rotation of the logical coordinate frame.
#[derive(Clone, Copy, Debug, PartialEq, Eq, Structural)]
pub enum DisplayRotation {
    /// No rotation.
    Rotate0,
    /// Rotate by 90 degrees clockwise.
    Rotate90,
    /// Rotate by 180 degrees clockwise.
    Rotate180,
    /// Rotate 270 degrees clockwise.
    Rotate270,
}

impl Default for DisplayRotation {
    fn default() -> (r: Self)
        ensures
            r == DisplayRotation::Rotate0,
    {
        DisplayRotation::Rotate0
    }
}

/// Number of bytes a plane needs: each row is stored in `ceil(width / 8)`
/// bytes, and there are `height` rows.
pub open spec fn spec_buffer_len(width: nat, height: nat) -> nat {
    ((width + 7) / 8) * height
}

/// Whether a logical point lies outside the drawable bounds for the given
/// rotation. For quarter-turn rotations the bounds rectangle is swapped; the
/// physical dimensions never change.
pub open spec fn spec_outside(
    x: int,
    y: int,
    width: nat,
    height: nat,
    rotation: DisplayRotation,
) -> bool {
    x < 0 || y < 0 || (match rotation {
        DisplayRotation::Rotate0 | DisplayRotation::Rotate180 => x >= width || y >= height,
        DisplayRotation::Rotate90 | DisplayRotation::Rotate270 => y >= width || x >= height,
    })
}

/// The physical coordinate a logical point maps to under a rotation.
pub open spec fn spec_rotate(
    x: int,
    y: int,
    width: int,
    height: int,
    rotation: DisplayRotation,
) -> (int, int) {
    match rotation {
        DisplayRotation::Rotate0 => (x, y),
        DisplayRotation::Rotate90 => (width - 1 - y, x),
        DisplayRotation::Rotate180 => (width - 1 - x, height - 1 - y),
        DisplayRotation::Rotate270 => (y, height - 1 - x),
    }
}

/// Byte index of a logical pixel inside a packed plane: rotate first, then
/// eight pixels per byte within a row of `ceil(width / 8)` bytes.
pub open spec fn spec_byte_index(
    x: int,
    y: int,
    width: nat,
    height: nat,
    rotation: DisplayRotation,
) -> int {
    let p = spec_rotate(x, y, width as int, height as int, rotation);
    p.0 / 8 + ((width + 7) / 8) * p.1
}

/// Bit mask of a logical pixel within its byte: the most significant bit is
/// the leftmost pixel.
pub open spec fn spec_bit_mask(
    x: int,
    y: int,
    width: nat,
    height: nat,
    rotation: DisplayRotation,
) -> u8 {
    let p = spec_rotate(x, y, width as int, height as int, rotation);
    0x80u8 >> ((p.0 % 8) as u8)
}

/// Byte that fills a plane whose polarity flag is `inverted` with `color`.
pub open spec fn spec_fill_byte(color: Color, inverted: bool) -> u8 {
    if inverted {
        color.spec_inverse().spec_byte_value()
    } else {
        color.spec_byte_value()
    }
}

/// The byte after plotting a pixel of `color` over `byte` at `mask`, on a
/// plane whose polarity flag is `inverted`: the bit is set when inking a
/// non-inverted plane or blanking an inverted one, and cleared otherwise.
pub open spec fn spec_paint_byte(byte: u8, mask: u8, color: Color, inverted: bool) -> u8 {
    if (color == Color::Black) != inverted {
        byte | mask
    } else {
        byte & !mask
    }
}

/// Every pixel inside the rotation-adjusted bounds addresses a byte inside
/// the plane: its byte index is below `spec_buffer_len(width, height)`.
pub proof fn lemma_byte_index_in_bounds(
    x: int,
    y: int,
    width: nat,
    height: nat,
    rotation: DisplayRotation,
)
    requires
        !spec_outside(x, y, width, height, rotation),
    ensures
        0 <= spec_byte_index(x, y, width, height, rotation) < spec_buffer_len(width, height),
{
    let p = spec_rotate(x, y, width as int, height as int, rotation);
    let nx = p.0;
    let ny = p.1;
    assert(0 <= nx < width && 0 <= ny < height) by {
        match rotation {
            DisplayRotation::Rotate0 => {},
            DisplayRotation::Rotate90 => {},
            DisplayRotation::Rotate180 => {},
            DisplayRotation::Rotate270 => {},
        }
    }
    let row = ((width + 7) / 8) as int;
    assert(nx / 8 < row);
    assert(nx / 8 + row * ny < row * (height as int)) by (nonlinear_arith)
        requires
            nx / 8 < row,
            0 <= ny < height,
            0 < row,
    ;
}

/// On a square panel, a point inside bounds at no rotation is inside bounds
/// at every rotation: the bounds rectangle is swapped, so nothing is lost.
pub proof fn lemma_rotation_preserves_bounds(
    x: int,
    y: int,
    size: nat,
    rotation: DisplayRotation,
)
    requires
        !spec_outside(x, y, size, size, DisplayRotation::Rotate0),
    ensures
        !spec_outside(x, y, size, size, rotation),
{
}

/// Plotting ink respects the plane's polarity: on an inverted plane the
/// pixel's bit ends cleared, on a non-inverted plane it ends set; blanking
/// does the opposite.
pub proof fn lemma_paint_polarity(byte: u8, mask: u8, inverted: bool)
    ensures
        (spec_paint_byte(byte, mask, Color::Black, inverted) & mask) == (if inverted {
            0u8
        } else {
            mask
        }),
        (spec_paint_byte(byte, mask, Color::White, inverted) & mask) == (if inverted {
            mask
        } else {
            0u8
        }),
{
    assert(((byte & !mask) & mask) == 0) by (bit_vector);
    assert(((byte | mask) & mask) == mask) by (bit_vector);
}

/// Checks whether a logical point is outside the drawable bounds for the
/// given rotation. Off-canvas points are expected and harmless: plotting
/// drops them silently.
pub fn outside_display(
    x: i32,
    y: i32,
    width: u32,
    height: u32,
    rotation: DisplayRotation,
) -> (r: bool)
    ensures
        r == spec_outside(x as int, y as int, width as nat, height as nat, rotation),
{
    if x < 0 || y < 0 {
        return true;
    }
    let ux = x as u32;
    let uy = y as u32;
    match rotation {
        DisplayRotation::Rotate0 | DisplayRotation::Rotate180 => ux >= width || uy >= height,
        DisplayRotation::Rotate90 | DisplayRotation::Rotate270 => uy >= width || ux >= height,
    }
}

/// Maps a logical point to its physical coordinate under the rotation.
pub fn find_rotation(
    x: u32,
    y: u32,
    width: u32,
    height: u32,
    rotation: DisplayRotation,
) -> (r: (u32, u32))
    requires
        !spec_outside(x as int, y as int, width as nat, height as nat, rotation),
    ensures
        r.0 as int == spec_rotate(x as int, y as int, width as int, height as int, rotation).0,
        r.1 as int == spec_rotate(x as int, y as int, width as int, height as int, rotation).1,
        r.0 < width,
        r.1 < height,
{
    let nx: u32;
    let ny: u32;
    match rotation {
        DisplayRotation::Rotate0 => {
            nx = x;
            ny = y;
        },
        DisplayRotation::Rotate90 => {
            nx = width - 1 - y;
            ny = x;
        },
        DisplayRotation::Rotate180 => {
            nx = width - 1 - x;
            ny = height - 1 - y;
        },
        DisplayRotation::Rotate270 => {
            nx = y;
            ny = height - 1 - x;
        },
    }
    (nx, ny)
}

/// Maps a logical point to the byte index inside the packed plane and the
/// bit mask inside that byte. The byte index is always inside the plane.
pub fn find_position(
    x: u32,
    y: u32,
    width: u32,
    height: u32,
    rotation: DisplayRotation,
) -> (r: (u32, u8))
    requires
        !spec_outside(x as int, y as int, width as nat, height as nat, rotation),
        width + 7 <= u32::MAX,
        spec_buffer_len(width as nat, height as nat) <= u32::MAX,
    ensures
        r.0 as int == spec_byte_index(x as int, y as int, width as nat, height as nat, rotation),
        r.1 == spec_bit_mask(x as int, y as int, width as nat, height as nat, rotation),
        r.0 < spec_buffer_len(width as nat, height as nat),
{
    let (nx, ny) = find_rotation(x, y, width, height, rotation);
    proof {
        lemma_byte_index_in_bounds(x as int, y as int, width as nat, height as nat, rotation);
    }
    let row = (width + 7) / 8;
    (nx / 8 + row * ny, 0x80u8 >> ((nx % 8) as u8))
}

/// Number of bytes needed for a `width` by `height` plane; rounds the row
/// width up when `width` is not a multiple of eight.
pub fn buffer_len(width: usize, height: usize) -> (r: usize)
    requires
        width + 7 <= usize::MAX,
        spec_buffer_len(width as nat, height as nat) <= usize::MAX,
    ensures
        r == spec_buffer_len(width as nat, height as nat),
{
    (width + 7) / 8 * height
}

/// `spec_buffer_len` rounds the row width up to whole bytes: an exact
/// multiple of eight uses `width / 8` bytes per row, anything else one more.
pub proof fn lemma_buffer_len_rounds_up(width: nat, height: nat)
    ensures
        spec_buffer_len(width, height) == (if width % 8 == 0 {
            width / 8
        } else {
            width / 8 + 1
        }) * height,
{
}

/// Mathematical model of a display buffer: the stored bytes, the active
/// rotation and the plane's polarity flag.
pub struct DisplayView {
    /// The packed plane contents.
    pub buffer: Seq<u8>,
    /// The active rotation of the logical coordinate frame.
    pub rotation: DisplayRotation,
    /// Whether the plane's bit semantics are inverted.
    pub inverted: bool,
}

/// A frame buffer for one plane of a 200 x 200 panel.
pub struct Display1in54 {
    buffer: Vec<u8>,
    rotation: DisplayRotation,
    is_inverted: bool,
}

impl View for Display1in54 {
    type V = DisplayView;

    closed spec fn view(&self) -> DisplayView {
        DisplayView {
            buffer: self.buffer@,
            rotation: self.rotation,
            inverted: self.is_inverted,
        }
    }
}

/// Builds a plane of `len` copies of `value`.
fn filled(len: usize, value: u8) -> (r: Vec<u8>)
    ensures
        r@.len() == len,
        forall|i: int| 0 <= i < len ==> r@[i] == value,
{
    let mut buffer: Vec<u8> = Vec::new();
    let mut i: usize = 0;
    while i < len
        invariant
            i <= len,
            buffer@.len() == i,
            forall|j: int| 0 <= j < i ==> buffer@[j] == value,
        decreases len - i,
    {
        buffer.push(value);
        i = i + 1;
    }
    buffer
}

impl Display1in54 {
    /// A display buffer holds exactly one bit per pixel of the panel.
    pub open spec fn wf(&self) -> bool {
        self@.buffer.len() == spec_buffer_len(WIDTH as nat, HEIGHT as nat)
    }

    /// Creates the black/white plane: filled with the white byte value, no
    /// rotation, inverted polarity (the controller stores white as a set bit).
    pub fn bw() -> (r: Self)
        ensures
            r.wf(),
            r@.rotation == DisplayRotation::Rotate0,
            r@.inverted == true,
            forall|i: int| 0 <= i < r@.buffer.len() ==> r@.buffer[i]
                == Color::White.spec_byte_value(),
    {
        let len = buffer_len(WIDTH as usize, HEIGHT as usize);
        Display1in54 {
            buffer: filled(len, Color::White.get_byte_value()),
            rotation: DisplayRotation::Rotate0,
            is_inverted: true,
        }
    }

    /// Creates the red plane: filled with the inverse of the white byte
    /// value, no rotation, plain polarity.
    pub fn red() -> (r: Self)
        ensures
            r.wf(),
            r@.rotation == DisplayRotation::Rotate0,
            r@.inverted == false,
            forall|i: int| 0 <= i < r@.buffer.len() ==> r@.buffer[i]
                == Color::White.spec_inverse().spec_byte_value(),
    {
        let len = buffer_len(WIDTH as usize, HEIGHT as usize);
        Display1in54 {
            buffer: filled(len, Color::White.inverse().get_byte_value()),
            rotation: DisplayRotation::Rotate0,
            is_inverted: false,
        }
    }

    /// Fills every byte of the plane with the polarity-correct byte value
    /// for the requested background color.
    pub fn clear_buffer(&mut self, background_color: Color)
        ensures
            final(self)@.rotation == old(self)@.rotation,
            final(self)@.inverted == old(self)@.inverted,
            final(self)@.buffer.len() == old(self)@.buffer.len(),
            forall|i: int| 0 <= i < final(self)@.buffer.len() ==> final(self)@.buffer[i]
                == spec_fill_byte(background_color, old(self)@.inverted),
    {
        let fill_color = if self.is_inverted {
            background_color.inverse().get_byte_value()
        } else {
            background_color.get_byte_value()
        };
        let n = self.buffer.len();
        let mut i: usize = 0;
        while i < n
            invariant
                i <= n,
                n == self.buffer@.len(),
                self.rotation == old(self).rotation,
                self.is_inverted == old(self).is_inverted,
                fill_color == spec_fill_byte(background_color, old(self)@.inverted),
                forall|j: int| 0 <= j < i ==> self.buffer@[j] == fill_color,
            decreases n - i,
        {
            self.buffer[i] = fill_color;
            i = i + 1;
        }
    }

    /// Plots one logical pixel into a plane of the given dimensions. A point
    /// outside the rotation-adjusted bounds is dropped silently; otherwise
    /// exactly the addressed byte changes, painted according to the plane's
    /// polarity.
    pub fn draw_helper(&mut self, width: u32, height: u32, x: i32, y: i32, color: Color)
        requires
            old(self)@.buffer.len() == spec_buffer_len(width as nat, height as nat),
            width + 7 <= u32::MAX,
            spec_buffer_len(width as nat, height as nat) <= u32::MAX,
        ensures
            final(self)@.rotation == old(self)@.rotation,
            final(self)@.inverted == old(self)@.inverted,
            final(self)@.buffer.len() == old(self)@.buffer.len(),
            spec_outside(x as int, y as int, width as nat, height as nat, old(self)@.rotation)
                ==> final(self)@.buffer == old(self)@.buffer,
            !spec_outside(x as int, y as int, width as nat, height as nat, old(self)@.rotation)
                ==> final(self)@.buffer == old(self)@.buffer.update(
                spec_byte_index(x as int, y as int, width as nat, height as nat, old(self)@.rotation),
                spec_paint_byte(
                    old(self)@.buffer[spec_byte_index(x as int, y as int, width as nat, height as nat, old(self)@.rotation)],
                    spec_bit_mask(x as int, y as int, width as nat, height as nat, old(self)@.rotation),
                    color,
                    old(self)@.inverted,
                ),
            ),
    {
        let rotation = self.rotation;
        let is_inverted = self.is_inverted;
        if outside_display(x, y, width, height, rotation) {
            return;
        }
        let (index, bit) = find_position(x as u32, y as u32, width, height, rotation);
        let index = index as usize;
        let byte = self.buffer[index];
        match color {
            Color::Black => {
                if is_inverted {
                    self.buffer[index] = byte & !bit;
                } else {
                    self.buffer[index] = byte | bit;
                }
            },
            Color::White => {
                if is_inverted {
                    self.buffer[index] = byte | bit;
                } else {
                    self.buffer[index] = byte & !bit;
                }
            },
        }
    }

    /// Plots one logical pixel on the panel under the active rotation.
    pub fn draw_pixel(&mut self, x: i32, y: i32, color: Color)
        requires
            old(self).wf(),
        ensures
            final(self).wf(),
            final(self)@.rotation == old(self)@.rotation,
            final(self)@.inverted == old(self)@.inverted,
            spec_outside(x as int, y as int, WIDTH as nat, HEIGHT as nat, old(self)@.rotation)
                ==> final(self)@.buffer == old(self)@.buffer,
            !spec_outside(x as int, y as int, WIDTH as nat, HEIGHT as nat, old(self)@.rotation)
                ==> final(self)@.buffer == old(self)@.buffer.update(
                spec_byte_index(x as int, y as int, WIDTH as nat, HEIGHT as nat, old(self)@.rotation),
                spec_paint_byte(
                    old(self)@.buffer[spec_byte_index(x as int, y as int, WIDTH as nat, HEIGHT as nat, old(self)@.rotation)],
                    spec_bit_mask(x as int, y as int, WIDTH as nat, HEIGHT as nat, old(self)@.rotation),
                    color,
                    old(self)@.inverted,
                ),
            ),
    {
        self.draw_helper(WIDTH as u32, HEIGHT as u32, x, y, color)
    }

    /// The plane's packed bytes, ready for transmission.
    pub fn buffer(&self) -> (r: &[u8])
        ensures
            r@ == self@.buffer,
    {
        self.buffer.as_slice()
    }

    /// Sets the rotation of the logical coordinate frame.
    pub fn set_rotation(&mut self, rotation: DisplayRotation)
        ensures
            final(self)@.rotation == rotation,
            final(self)@.buffer == old(self)@.buffer,
            final(self)@.inverted == old(self)@.inverted,
    {
        self.rotation = rotation;
    }

    /// The active rotation.
    pub fn rotation(&self) -> (r: DisplayRotation)
        ensures
            r == self@.rotation,
    {
        self.rotation
    }

    /// Whether this plane's bit semantics are inverted.
    pub fn is_inverted(&self) -> (r: bool)
        ensures
            r == self@.inverted,
    {
        self.is_inverted
    }
}

} // verus!
