//! Pixels, two-dimensional vectors, rectangles and the pixel writers that
//! draw into a linear frame buffer.

use core::cmp::Ordering;
use core::ops::{Add, BitAnd, Sub};
use vstd::prelude::*;
use vstd::std_specs::cmp::OrdSpec;
use vstd::std_specs::ops::{AddSpecImpl, BitAndSpecImpl, SubSpecImpl};

use crate::frame_buffer_config::FrameBufferConfig;

verus! {

/// A colour with eight bits per channel.
#[derive(PartialEq, Eq, Structural, Clone, Copy, Debug)]
pub struct PixelColor {
    pub r: u8,
    pub g: u8,
    pub b: u8,
}

impl PixelColor {
    /// The colour with the given channels.
    pub fn new(r: u8, g: u8, b: u8) -> (color: Self)
        ensures
            color == (PixelColor { r, g, b }),
    {
        Self { r, g, b }
    }

    /// The colour that the low 24 bits of `c` encode as `0x00RRGGBB`.
    pub open spec fn spec_to_color(c: u32) -> Self {
        PixelColor { r: ((c >> 16) & 0xff) as u8, g: ((c >> 8) & 0xff) as u8, b: (c & 0xff) as u8 }
    }

    /// Decodes `0x00RRGGBB`; the top eight bits are ignored.
    pub fn to_color(c: u32) -> (color: Self)
        ensures
            color == Self::spec_to_color(c),
            color.r as int == (c as int / 0x1_0000) % 0x100,
            color.g as int == (c as int / 0x100) % 0x100,
            color.b as int == c as int % 0x100,
    {
        assert(((c >> 16) & 0xff) < 0x100 && ((c >> 8) & 0xff) < 0x100 && (c & 0xff) < 0x100)
            by (bit_vector);
        assert(((c >> 16) & 0xff) == (c / 0x1_0000) % 0x100 && ((c >> 8) & 0xff) == (c / 0x100)
            % 0x100 && (c & 0xff) == c % 0x100) by (bit_vector);
        Self { r: ((c >> 16) & 0xff) as u8, g: ((c >> 8) & 0xff) as u8, b: (c & 0xff) as u8 }
    }
}

impl Default for PixelColor {
    fn default() -> (color: Self)
        ensures
            color == (PixelColor { r: 0, g: 0, b: 0 }),
    {
        Self { r: 0, g: 0, b: 0 }
    }
}

/// The background colour of the desktop.
pub fn desktop_bg_color() -> (color: PixelColor)
    ensures
        color == (PixelColor { r: 45, g: 118, b: 237 }),
{
    PixelColor::new(45, 118, 237)
}

/// A pair of coordinates.
#[derive(Debug, PartialEq, Eq, Structural, Clone, Copy, Default)]
pub struct Vector2D<T> {
    pub x: T,
    pub y: T,
}

impl<T> Vector2D<T> {
    /// The vector `(x, y)`.
    pub fn new(x: T, y: T) -> (v: Self)
        ensures
            v.x == x,
            v.y == y,
    {
        Self { x, y }
    }
}

impl<T: Copy> Vector2D<T> {
    /// The first coordinate.
    pub fn x(&self) -> (x: T)
        ensures
            x == self.x,
    {
        self.x
    }

    /// The second coordinate.
    pub fn y(&self) -> (y: T)
        ensures
            y == self.y,
    {
        self.y
    }
}

/// The greater of two values in the order of `T`; `b` when they are equal.
pub open spec fn spec_max<T: Ord>(a: T, b: T) -> T {
    if b.cmp_spec(&a) == Ordering::Less {
        a
    } else {
        b
    }
}

/// The lesser of two values in the order of `T`; `a` when they are equal.
pub open spec fn spec_min<T: Ord>(a: T, b: T) -> T {
    if b.cmp_spec(&a) == Ordering::Less {
        b
    } else {
        a
    }
}

impl<T: Ord + Copy> Vector2D<T> {
    /// The vector whose coordinates are the greater of the two `x` and the
    /// greater of the two `y`.
    pub fn element_max(lhs: &Self, rhs: &Self) -> (v: Self)
        ensures
            T::obeys_cmp_spec() ==> v.x == spec_max(lhs.x, rhs.x) && v.y == spec_max(
                lhs.y,
                rhs.y,
            ),
    {
        Self { x: lhs.x.max(rhs.x), y: lhs.y.max(rhs.y) }
    }

    /// The vector whose coordinates are the lesser of the two `x` and the
    /// lesser of the two `y`.
    pub fn element_min(lhs: &Self, rhs: &Self) -> (v: Self)
        ensures
            T::obeys_cmp_spec() ==> v.x == spec_min(lhs.x, rhs.x) && v.y == spec_min(
                lhs.y,
                rhs.y,
            ),
    {
        Self { x: lhs.x.min(rhs.x), y: lhs.y.min(rhs.y) }
    }
}

/// On the machine integers `spec_max` and `spec_min` are the usual greatest
/// and least of two numbers.
pub proof fn lemma_element_max_min_i32(a: i32, b: i32)
    ensures
        spec_max(a, b) == (if a >= b { a } else { b }),
        spec_min(a, b) == (if a <= b { a } else { b }),
{
}

impl Add for Vector2D<i32> {
    type Output = Self;

    /// Coordinate-wise sum.
    fn add(self, rhs: Self) -> (sum: Self) {
        Self { x: self.x + rhs.x, y: self.y + rhs.y }
    }
}

impl AddSpecImpl for Vector2D<i32> {
    open spec fn obeys_add_spec() -> bool {
        true
    }

    open spec fn add_req(self, rhs: Self) -> bool {
        &&& i32::MIN <= self.x + rhs.x <= i32::MAX
        &&& i32::MIN <= self.y + rhs.y <= i32::MAX
    }

    open spec fn add_spec(self, rhs: Self) -> Self {
        Vector2D { x: (self.x + rhs.x) as i32, y: (self.y + rhs.y) as i32 }
    }
}

impl Sub for Vector2D<i32> {
    type Output = Self;

    /// Coordinate-wise difference.
    fn sub(self, rhs: Self) -> (difference: Self) {
        Self { x: self.x - rhs.x, y: self.y - rhs.y }
    }
}

impl SubSpecImpl for Vector2D<i32> {
    open spec fn obeys_sub_spec() -> bool {
        true
    }

    open spec fn sub_req(self, rhs: Self) -> bool {
        &&& i32::MIN <= self.x - rhs.x <= i32::MAX
        &&& i32::MIN <= self.y - rhs.y <= i32::MAX
    }

    open spec fn sub_spec(self, rhs: Self) -> Self {
        Vector2D { x: (self.x - rhs.x) as i32, y: (self.y - rhs.y) as i32 }
    }
}

impl Vector2D<i32> {
    /// Adds `rhs` to `self` in place.
    pub fn add_assign(&mut self, rhs: Self)
        requires
            i32::MIN <= old(self).x + rhs.x <= i32::MAX,
            i32::MIN <= old(self).y + rhs.y <= i32::MAX,
        ensures
            final(self).x == old(self).x + rhs.x,
            final(self).y == old(self).y + rhs.y,
    {
        self.x = self.x + rhs.x;
        self.y = self.y + rhs.y;
    }

    /// Subtracts `rhs` from `self` in place.
    pub fn sub_assign(&mut self, rhs: Self)
        requires
            i32::MIN <= old(self).x - rhs.x <= i32::MAX,
            i32::MIN <= old(self).y - rhs.y <= i32::MAX,
        ensures
            final(self).x == old(self).x - rhs.x,
            final(self).y == old(self).y - rhs.y,
    {
        self.x = self.x - rhs.x;
        self.y = self.y - rhs.y;
    }
}

/// An axis-parallel rectangle: its corner of least coordinates and its size.
#[derive(PartialEq, Eq, Structural, Clone, Copy, Debug)]
pub struct Rectangle<T> {
    pub pos: Vector2D<T>,
    pub size: Vector2D<T>,
}

impl Rectangle<i32> {
    /// Whether `pos + size` can be computed in `i32`.
    pub open spec fn end_fits(self) -> bool {
        &&& i32::MIN <= self.pos.x + self.size.x <= i32::MAX
        &&& i32::MIN <= self.pos.y + self.size.y <= i32::MAX
    }

    /// Whether the point `(x, y)` lies in the half-open rectangle.
    pub open spec fn contains(self, x: int, y: int) -> bool {
        &&& self.pos.x <= x < self.pos.x + self.size.x
        &&& self.pos.y <= y < self.pos.y + self.size.y
    }

    /// Whether one rectangle ends before the other begins, on either axis.
    pub open spec fn apart(self, rhs: Self) -> bool {
        ||| self.pos.x + self.size.x < rhs.pos.x
        ||| self.pos.y + self.size.y < rhs.pos.y
        ||| rhs.pos.x + rhs.size.x < self.pos.x
        ||| rhs.pos.y + rhs.size.y < self.pos.y
    }

    /// The common part of two rectangles: the empty rectangle at the origin
    /// when they are apart, else the rectangle from the greater of the two
    /// starts to the lesser of the two ends on each axis.
    pub open spec fn intersection(self, rhs: Self) -> Self {
        if self.apart(rhs) {
            Rectangle { pos: Vector2D { x: 0, y: 0 }, size: Vector2D { x: 0, y: 0 } }
        } else {
            let x = if self.pos.x >= rhs.pos.x {
                self.pos.x
            } else {
                rhs.pos.x
            };
            let y = if self.pos.y >= rhs.pos.y {
                self.pos.y
            } else {
                rhs.pos.y
            };
            let end_x = if self.pos.x + self.size.x <= rhs.pos.x + rhs.size.x {
                self.pos.x + self.size.x
            } else {
                rhs.pos.x + rhs.size.x
            };
            let end_y = if self.pos.y + self.size.y <= rhs.pos.y + rhs.size.y {
                self.pos.y + self.size.y
            } else {
                rhs.pos.y + rhs.size.y
            };
            Rectangle {
                pos: Vector2D { x, y },
                size: Vector2D { x: (end_x - x) as i32, y: (end_y - y) as i32 },
            }
        }
    }
}

impl BitAnd for Rectangle<i32> {
    type Output = Self;

    /// The common part of two rectangles.
    fn bitand(self, rhs: Self) -> (common: Self) {
        let self_end = self.pos + self.size;
        let rhs_end = rhs.pos + rhs.size;

        if self_end.x < rhs.pos.x || self_end.y < rhs.pos.y || rhs_end.x < self.pos.x || rhs_end.y
            < self.pos.y {
            return Self { pos: Vector2D::new(0, 0), size: Vector2D::new(0, 0) };
        }
        let new_pos = Vector2D {
            x: if self.pos.x >= rhs.pos.x {
                self.pos.x
            } else {
                rhs.pos.x
            },
            y: if self.pos.y >= rhs.pos.y {
                self.pos.y
            } else {
                rhs.pos.y
            },
        };
        let end = Vector2D {
            x: if self_end.x <= rhs_end.x {
                self_end.x
            } else {
                rhs_end.x
            },
            y: if self_end.y <= rhs_end.y {
                self_end.y
            } else {
                rhs_end.y
            },
        };
        Self { pos: new_pos, size: Vector2D { x: end.x - new_pos.x, y: end.y - new_pos.y } }
    }
}

impl BitAndSpecImpl for Rectangle<i32> {
    open spec fn obeys_bitand_spec() -> bool {
        true
    }

    open spec fn bitand_req(self, rhs: Self) -> bool {
        self.end_fits() && rhs.end_fits()
    }

    open spec fn bitand_spec(self, rhs: Self) -> Self {
        self.intersection(rhs)
    }
}

/// A point lies in the intersection of two rectangles of non-negative size
/// exactly when it lies in both.
pub proof fn lemma_intersection_contains(a: Rectangle<i32>, b: Rectangle<i32>, x: int, y: int)
    requires
        a.end_fits(),
        b.end_fits(),
        a.size.x >= 0,
        a.size.y >= 0,
        b.size.x >= 0,
        b.size.y >= 0,
    ensures
        a.intersection(b).contains(x, y) <==> a.contains(x, y) && b.contains(x, y),
{
}

/// Where a frame buffer lies and how large it is.
pub struct FrameLayout {
    pub frame_buffer: usize,
    pub pixels_per_scan_line: usize,
    pub horizontal_resolution: usize,
    pub vertical_resolution: usize,
}

/// Whether `(x, y)` lies in the half-open rectangle that starts at `pos` and
/// has the size `size`.
pub open spec fn in_rect(pos: Vector2D<i32>, size: Vector2D<i32>, x: int, y: int) -> bool {
    &&& pos.x <= x < pos.x + size.x
    &&& pos.y <= y < pos.y + size.y
}

/// Whether `(x, y)` lies on the one-pixel frame of the rectangle that starts
/// at `pos` and has the size `size`.
pub open spec fn on_frame(pos: Vector2D<i32>, size: Vector2D<i32>, x: int, y: int) -> bool {
    ||| pos.x <= x < pos.x + size.x && (y == pos.y || y == pos.y + size.y - 1)
    ||| pos.y <= y < pos.y + size.y && (x == pos.x || x == pos.x + size.x - 1)
}

/// Whether every coordinate that drawing the frame computes fits in `i32`.
pub open spec fn frame_fits(pos: Vector2D<i32>, size: Vector2D<i32>) -> bool {
    &&& size.x > 0 ==> pos.x + size.x - 1 <= i32::MAX && i32::MIN <= size.y - 1 && i32::MIN
        <= pos.y + size.y - 1 <= i32::MAX
    &&& size.y > 0 ==> pos.y + size.y - 1 <= i32::MAX && i32::MIN <= size.x - 1 && i32::MIN
        <= pos.x + size.x - 1 <= i32::MAX
}

/// Whether every coordinate that filling the rectangle computes fits in `i32`.
pub open spec fn fill_fits(pos: Vector2D<i32>, size: Vector2D<i32>) -> bool {
    size.x > 0 && size.y > 0 ==> pos.x + size.x - 1 <= i32::MAX && pos.y + size.y - 1 <= i32::MAX
}

/// Something that pixels can be drawn on.
pub trait PixelWrite {
    /// The invariant of the implementing type.
    spec fn inv(&self) -> bool;

    /// Location and size of the surface.
    spec fn layout(&self) -> FrameLayout;

    /// Whether the surface has a pixel at column `x`, row `y`.
    spec fn in_bounds(&self, x: int, y: int) -> bool;

    /// The colour of the pixel at column `x`, row `y`.
    spec fn pixel(&self, x: int, y: int) -> PixelColor;

    /// Paints the pixel at `pos`; does nothing when `pos` is out of bounds.
    fn write(&mut self, pos: Vector2D<i32>, color: &PixelColor)
        requires
            old(self).inv(),
        ensures
            final(self).inv(),
            final(self).layout() == old(self).layout(),
            forall|x: int, y: int|
                final(self).in_bounds(x, y) == old(self).in_bounds(x, y),
            forall|x: int, y: int|
                #![trigger final(self).pixel(x, y)]
                final(self).pixel(x, y) == (if x == pos.x && y == pos.y && old(self).in_bounds(
                    x,
                    y,
                ) {
                    *color
                } else {
                    old(self).pixel(x, y)
                }),
    ;

    /// Address of the first pixel.
    fn frame_buffer(&self) -> (address: usize)
        ensures
            address == self.layout().frame_buffer,
    ;

    /// Pixels between the starts of two consecutive rows.
    fn pixels_per_scan_line(&self) -> (pixels: usize)
        ensures
            pixels == self.layout().pixels_per_scan_line,
    ;

    /// Visible pixels per row.
    fn horizontal_resolution(&self) -> (pixels: usize)
        ensures
            pixels == self.layout().horizontal_resolution,
    ;

    /// Number of rows.
    fn vertical_resolution(&self) -> (rows: usize)
        ensures
            rows == self.layout().vertical_resolution,
    ;

    /// Paints the one-pixel frame of the rectangle at `pos` of size `size`.
    fn draw_rectangle(&mut self, pos: Vector2D<i32>, size: Vector2D<i32>, c: &PixelColor)
        requires
            old(self).inv(),
            frame_fits(pos, size),
        ensures
            final(self).inv(),
            final(self).layout() == old(self).layout(),
            forall|x: int, y: int|
                final(self).in_bounds(x, y) == old(self).in_bounds(x, y),
            forall|x: int, y: int|
                #![trigger final(self).pixel(x, y)]
                final(self).pixel(x, y) == (if on_frame(pos, size, x, y) && old(self).in_bounds(
                    x,
                    y,
                ) {
                    *c
                } else {
                    old(self).pixel(x, y)
                }),
    {
        let mut dx: i32 = 0;
        while dx < size.x
            invariant
                0 <= dx,
                size.x <= 0 ==> dx == 0,
                size.x > 0 ==> dx <= size.x,
                frame_fits(pos, size),
                self.inv(),
                self.layout() == old(self).layout(),
                forall|x: int, y: int| self.in_bounds(x, y) == old(self).in_bounds(x, y),
                forall|x: int, y: int|
                    #![trigger self.pixel(x, y)]
                    self.pixel(x, y) == (if pos.x <= x < pos.x + dx && (y == pos.y || y == pos.y
                        + size.y - 1) && old(self).in_bounds(x, y) {
                        *c
                    } else {
                        old(self).pixel(x, y)
                    }),
            decreases size.x - dx,
        {
            self.write(Vector2D::new(pos.x + dx, pos.y), c);
            self.write(Vector2D::new(pos.x + dx, pos.y + (size.y - 1)), c);
            dx = dx + 1;
        }
        let ghost across = if size.x > 0 {
            size.x as int
        } else {
            0
        };
        let mut dy: i32 = 0;
        while dy < size.y
            invariant
                0 <= dy,
                size.y <= 0 ==> dy == 0,
                size.y > 0 ==> dy <= size.y,
                across == (if size.x > 0 {
                    size.x as int
                } else {
                    0
                }),
                frame_fits(pos, size),
                self.inv(),
                self.layout() == old(self).layout(),
                forall|x: int, y: int| self.in_bounds(x, y) == old(self).in_bounds(x, y),
                forall|x: int, y: int|
                    #![trigger self.pixel(x, y)]
                    self.pixel(x, y) == (if ((pos.x <= x < pos.x + across && (y == pos.y || y
                        == pos.y + size.y - 1)) || (pos.y <= y < pos.y + dy && (x == pos.x || x
                        == pos.x + size.x - 1))) && old(self).in_bounds(x, y) {
                        *c
                    } else {
                        old(self).pixel(x, y)
                    }),
            decreases size.y - dy,
        {
            self.write(Vector2D::new(pos.x, pos.y + dy), c);
            self.write(Vector2D::new(pos.x + (size.x - 1), pos.y + dy), c);
            dy = dy + 1;
        }
    }

    /// Paints every pixel of the rectangle at `pos` of size `size`.
    fn fill_rectangle(&mut self, pos: Vector2D<i32>, size: Vector2D<i32>, c: &PixelColor)
        requires
            old(self).inv(),
            fill_fits(pos, size),
        ensures
            final(self).inv(),
            final(self).layout() == old(self).layout(),
            forall|x: int, y: int|
                final(self).in_bounds(x, y) == old(self).in_bounds(x, y),
            forall|x: int, y: int|
                #![trigger final(self).pixel(x, y)]
                final(self).pixel(x, y) == (if in_rect(pos, size, x, y) && old(self).in_bounds(
                    x,
                    y,
                ) {
                    *c
                } else {
                    old(self).pixel(x, y)
                }),
    {
        let mut dy: i32 = 0;
        while dy < size.y
            invariant
                0 <= dy,
                size.y <= 0 ==> dy == 0,
                size.y > 0 ==> dy <= size.y,
                fill_fits(pos, size),
                self.inv(),
                self.layout() == old(self).layout(),
                forall|x: int, y: int| self.in_bounds(x, y) == old(self).in_bounds(x, y),
                forall|x: int, y: int|
                    #![trigger self.pixel(x, y)]
                    self.pixel(x, y) == (if pos.x <= x < pos.x + size.x && pos.y <= y < pos.y
                        + dy && old(self).in_bounds(x, y) {
                        *c
                    } else {
                        old(self).pixel(x, y)
                    }),
            decreases size.y - dy,
        {
            let mut dx: i32 = 0;
            while dx < size.x
                invariant
                    0 <= dx,
                    size.x <= 0 ==> dx == 0,
                size.x > 0 ==> dx <= size.x,
                    0 <= dy < size.y,
                    fill_fits(pos, size),
                    self.inv(),
                    self.layout() == old(self).layout(),
                    forall|x: int, y: int| self.in_bounds(x, y) == old(self).in_bounds(x, y),
                    forall|x: int, y: int|
                        #![trigger self.pixel(x, y)]
                        self.pixel(x, y) == (if ((pos.x <= x < pos.x + size.x && pos.y <= y
                            < pos.y + dy) || (pos.x <= x < pos.x + dx && y == pos.y + dy))
                            && old(self).in_bounds(x, y) {
                            *c
                        } else {
                            old(self).pixel(x, y)
                        }),
                decreases size.x - dx,
            {
                self.write(Vector2D::new(pos.x + dx, pos.y + dy), c);
                dx = dx + 1;
            }
            dy = dy + 1;
        }
    }
}


/// Byte offset of the pixel at column `x`, row `y` in a buffer with
/// `pixels_per_scan_line` four-byte pixels per row.
pub open spec fn pixel_offset(pixels_per_scan_line: int, x: int, y: int) -> int {
    4 * (pixels_per_scan_line * y + x)
}

/// A pixel inside the bounds lies wholly inside the buffer.
pub proof fn lemma_pixel_offset_bounds(pixels_per_scan_line: int, rows: int, x: int, y: int)
    requires
        0 <= x < pixels_per_scan_line,
        0 <= y < rows,
    ensures
        0 <= pixel_offset(pixels_per_scan_line, x, y),
        pixel_offset(pixels_per_scan_line, x, y) + 4 <= 4 * (pixels_per_scan_line * rows),
{
    assert(pixels_per_scan_line * y >= 0) by (nonlinear_arith)
        requires
            pixels_per_scan_line >= 0,
            y >= 0,
    ;
    assert(pixels_per_scan_line * (y + 1) <= pixels_per_scan_line * rows) by (nonlinear_arith)
        requires
            pixels_per_scan_line >= 0,
            y + 1 <= rows,
    ;
    assert(pixels_per_scan_line * (y + 1) == pixels_per_scan_line * y + pixels_per_scan_line)
        by (nonlinear_arith);
}

/// Two different pixels inside the bounds do not share a byte.
pub proof fn lemma_pixel_offset_apart(
    pixels_per_scan_line: int,
    x1: int,
    y1: int,
    x2: int,
    y2: int,
)
    requires
        0 <= x1 < pixels_per_scan_line,
        0 <= x2 < pixels_per_scan_line,
        0 <= y1,
        0 <= y2,
        x1 != x2 || y1 != y2,
    ensures
        pixel_offset(pixels_per_scan_line, x1, y1) + 4 <= pixel_offset(
            pixels_per_scan_line,
            x2,
            y2,
        ) || pixel_offset(pixels_per_scan_line, x2, y2) + 4 <= pixel_offset(
            pixels_per_scan_line,
            x1,
            y1,
        ),
{
    if y1 < y2 {
        assert(pixels_per_scan_line * (y1 + 1) <= pixels_per_scan_line * y2) by (nonlinear_arith)
            requires
                pixels_per_scan_line >= 0,
                y1 + 1 <= y2,
        ;
        assert(pixels_per_scan_line * (y1 + 1) == pixels_per_scan_line * y1
            + pixels_per_scan_line) by (nonlinear_arith);
    } else if y2 < y1 {
        assert(pixels_per_scan_line * (y2 + 1) <= pixels_per_scan_line * y1) by (nonlinear_arith)
            requires
                pixels_per_scan_line >= 0,
                y2 + 1 <= y1,
        ;
        assert(pixels_per_scan_line * (y2 + 1) == pixels_per_scan_line * y2
            + pixels_per_scan_line) by (nonlinear_arith);
    }
}

/// The pixel memory of a frame buffer with four bytes per pixel, of which the
/// first three hold the colour channels. The writers draw into this memory;
/// whoever owns the screen shows it at the address that the configuration
/// names.
pub struct PixelBuffer {
    pub config: FrameBufferConfig,
    pub bytes: Vec<u8>,
}

impl PixelBuffer {
    /// Whether the configuration can be addressed with `i32` coordinates and
    /// the memory has the size that the configuration asks for.
    pub open spec fn inv(&self) -> bool {
        &&& self.config.pixels_per_scan_line <= i32::MAX
        &&& self.config.vertical_resolution <= i32::MAX
        &&& self.bytes@.len() == 4 * (self.config.pixels_per_scan_line
            * self.config.vertical_resolution)
    }

    /// Whether a buffer can be allocated for `config`.
    pub open spec fn fits(config: FrameBufferConfig) -> bool {
        &&& config.pixels_per_scan_line <= i32::MAX
        &&& config.vertical_resolution <= i32::MAX
        &&& 4 * (config.pixels_per_scan_line * config.vertical_resolution) <= usize::MAX
    }

    pub open spec fn layout(&self) -> FrameLayout {
        FrameLayout {
            frame_buffer: self.config.frame_buffer,
            pixels_per_scan_line: self.config.pixels_per_scan_line,
            horizontal_resolution: self.config.horizontal_resolution,
            vertical_resolution: self.config.vertical_resolution,
        }
    }

    pub open spec fn in_bounds(&self, x: int, y: int) -> bool {
        &&& 0 <= x < self.config.pixels_per_scan_line
        &&& 0 <= y < self.config.vertical_resolution
    }

    /// The byte at `index` bytes into the pixel at `(x, y)`.
    pub open spec fn channel(&self, x: int, y: int, index: int) -> u8 {
        self.bytes@[pixel_offset(self.config.pixels_per_scan_line as int, x, y) + index]
    }

    /// A zero-filled buffer for `config`.
    pub fn new(config: FrameBufferConfig) -> (buffer: Self)
        requires
            Self::fits(config),
        ensures
            buffer.inv(),
            buffer.config == config,
            forall|i: int| 0 <= i < buffer.bytes@.len() ==> buffer.bytes@[i] == 0u8,
    {
        assert(config.pixels_per_scan_line * config.vertical_resolution <= 4 * (
        config.pixels_per_scan_line * config.vertical_resolution)) by (nonlinear_arith);
        let pixels = config.pixels_per_scan_line * config.vertical_resolution;
        let bytes = vec![0u8; 4 * pixels];
        Self { config, bytes }
    }

    /// The byte offset of the pixel at `pos`, or `None` when `pos` is out of
    /// bounds.
    pub fn pixel_at(&self, pos: Vector2D<i32>) -> (offset: Option<usize>)
        requires
            self.inv(),
        ensures
            offset is Some <==> self.in_bounds(pos.x as int, pos.y as int),
            offset matches Some(at) ==> at == pixel_offset(
                self.config.pixels_per_scan_line as int,
                pos.x as int,
                pos.y as int,
            ) && at + 4 <= self.bytes@.len(),
    {
        if pos.x < 0 || pos.y < 0 {
            return None;
        }
        let x = pos.x as usize;
        let y = pos.y as usize;
        if x >= self.config.pixels_per_scan_line || y >= self.config.vertical_resolution {
            return None;
        }
        let size = self.bytes.len();
        proof {
            lemma_pixel_offset_bounds(
                self.config.pixels_per_scan_line as int,
                self.config.vertical_resolution as int,
                x as int,
                y as int,
            );
            assert(self.config.pixels_per_scan_line * y >= 0) by (nonlinear_arith)
                requires
                    self.config.pixels_per_scan_line >= 0,
                    y >= 0,
            ;
        }
        Some(4 * (self.config.pixels_per_scan_line * y + x))
    }

    /// The bytes of the buffer after three bytes were stored at the pixel at
    /// `pos`: the first three bytes of that pixel are the new ones and every
    /// other byte, the fourth of that pixel too, is as it was; all bytes are
    /// as they were when `pos` is out of bounds.
    pub open spec fn stored(&self, pos: Vector2D<i32>, first: u8, second: u8, third: u8) -> Seq<
        u8,
    > {
        if self.in_bounds(pos.x as int, pos.y as int) {
            let at = pixel_offset(
                self.config.pixels_per_scan_line as int,
                pos.x as int,
                pos.y as int,
            );
            self.bytes@.update(at, first).update(at + 1, second).update(at + 2, third)
        } else {
            self.bytes@
        }
    }

    /// Stores three bytes at the pixel at `pos`; does nothing when `pos` is
    /// out of bounds.
    pub fn store(&mut self, pos: Vector2D<i32>, first: u8, second: u8, third: u8)
        requires
            old(self).inv(),
        ensures
            final(self).inv(),
            final(self).config == old(self).config,
            final(self).bytes@ == old(self).stored(pos, first, second, third),
            forall|x: int, y: int, index: int|
                #![trigger final(self).channel(x, y, index)]
                final(self).in_bounds(x, y) && 0 <= index < 3 ==> final(self).channel(x, y, index)
                    == (if x == pos.x && y == pos.y {
                    if index == 0 {
                        first
                    } else if index == 1 {
                        second
                    } else {
                        third
                    }
                } else {
                    old(self).channel(x, y, index)
                }),
    {
        if let Some(at) = self.pixel_at(pos) {
            self.bytes[at] = first;
            self.bytes[at + 1] = second;
            self.bytes[at + 2] = third;
            proof {
                assert forall|x: int, y: int, index: int|
                    #![trigger self.channel(x, y, index)]
                    self.in_bounds(x, y) && 0 <= index < 3 && !(x == pos.x && y == pos.y)
                    implies self.channel(x, y, index) == old(self).channel(x, y, index) by {
                    lemma_pixel_offset_apart(
                        self.config.pixels_per_scan_line as int,
                        x,
                        y,
                        pos.x as int,
                        pos.y as int,
                    );
                    lemma_pixel_offset_bounds(
                        self.config.pixels_per_scan_line as int,
                        self.config.vertical_resolution as int,
                        x,
                        y,
                    );
                }
            }
        }
    }
}

/// Writer for a frame buffer whose pixels are stored as red, green, blue,
/// reserved.
pub struct RgbResv8BitPerColorPixelWriter {
    pub buffer: PixelBuffer,
}

impl RgbResv8BitPerColorPixelWriter {
    /// A writer over a zero-filled buffer for `config`.
    pub fn new(config: FrameBufferConfig) -> (writer: Self)
        requires
            PixelBuffer::fits(config),
        ensures
            writer.inv(),
            writer.buffer.config == config,
            forall|x: int, y: int| writer.pixel(x, y) == (PixelColor { r: 0, g: 0, b: 0 }),
    {
        let writer = Self { buffer: PixelBuffer::new(config) };
        proof {
            assert forall|x: int, y: int| writer.pixel(x, y) == (PixelColor {
                r: 0,
                g: 0,
                b: 0,
            }) by {
                if writer.in_bounds(x, y) {
                    lemma_pixel_offset_bounds(
                        config.pixels_per_scan_line as int,
                        config.vertical_resolution as int,
                        x,
                        y,
                    );
                }
            }
        }
        writer
    }

    /// The byte offset of the pixel at `pos`, or `None` when `pos` is out of
    /// bounds.
    pub fn pixel_at(&self, pos: Vector2D<i32>) -> (offset: Option<usize>)
        requires
            self.inv(),
        ensures
            offset is Some <==> self.in_bounds(pos.x as int, pos.y as int),
            offset matches Some(at) ==> at == pixel_offset(
                self.buffer.config.pixels_per_scan_line as int,
                pos.x as int,
                pos.y as int,
            ) && at + 4 <= self.buffer.bytes@.len(),
    {
        self.buffer.pixel_at(pos)
    }
}

impl PixelWrite for RgbResv8BitPerColorPixelWriter {
    open spec fn inv(&self) -> bool {
        self.buffer.inv()
    }

    open spec fn layout(&self) -> FrameLayout {
        self.buffer.layout()
    }

    open spec fn in_bounds(&self, x: int, y: int) -> bool {
        self.buffer.in_bounds(x, y)
    }

    open spec fn pixel(&self, x: int, y: int) -> PixelColor {
        if self.buffer.in_bounds(x, y) {
            PixelColor {
                r: self.buffer.channel(x, y, 0),
                g: self.buffer.channel(x, y, 1),
                b: self.buffer.channel(x, y, 2),
            }
        } else {
            PixelColor { r: 0, g: 0, b: 0 }
        }
    }

    fn write(&mut self, pos: Vector2D<i32>, color: &PixelColor)
        ensures
            final(self).buffer.config == old(self).buffer.config,
            final(self).buffer.bytes@ == old(self).buffer.stored(pos, color.r, color.g, color.b),
    {
        self.buffer.store(pos, color.r, color.g, color.b);
    }

    fn frame_buffer(&self) -> usize {
        self.buffer.config.frame_buffer
    }

    fn pixels_per_scan_line(&self) -> usize {
        self.buffer.config.pixels_per_scan_line
    }

    fn horizontal_resolution(&self) -> usize {
        self.buffer.config.horizontal_resolution
    }

    fn vertical_resolution(&self) -> usize {
        self.buffer.config.vertical_resolution
    }
}

/// Writer for a frame buffer whose pixels are stored as blue, green, red,
/// reserved.
pub struct BgrResv8BitPerColorPixelWriter {
    pub buffer: PixelBuffer,
}

impl BgrResv8BitPerColorPixelWriter {
    /// A writer over a zero-filled buffer for `config`.
    pub fn new(config: FrameBufferConfig) -> (writer: Self)
        requires
            PixelBuffer::fits(config),
        ensures
            writer.inv(),
            writer.buffer.config == config,
            forall|x: int, y: int| writer.pixel(x, y) == (PixelColor { r: 0, g: 0, b: 0 }),
    {
        let writer = Self { buffer: PixelBuffer::new(config) };
        proof {
            assert forall|x: int, y: int| writer.pixel(x, y) == (PixelColor {
                r: 0,
                g: 0,
                b: 0,
            }) by {
                if writer.in_bounds(x, y) {
                    lemma_pixel_offset_bounds(
                        config.pixels_per_scan_line as int,
                        config.vertical_resolution as int,
                        x,
                        y,
                    );
                }
            }
        }
        writer
    }

    /// The byte offset of the pixel at `pos`, or `None` when `pos` is out of
    /// bounds.
    pub fn pixel_at(&self, pos: Vector2D<i32>) -> (offset: Option<usize>)
        requires
            self.inv(),
        ensures
            offset is Some <==> self.in_bounds(pos.x as int, pos.y as int),
            offset matches Some(at) ==> at == pixel_offset(
                self.buffer.config.pixels_per_scan_line as int,
                pos.x as int,
                pos.y as int,
            ) && at + 4 <= self.buffer.bytes@.len(),
    {
        self.buffer.pixel_at(pos)
    }
}

impl PixelWrite for BgrResv8BitPerColorPixelWriter {
    open spec fn inv(&self) -> bool {
        self.buffer.inv()
    }

    open spec fn layout(&self) -> FrameLayout {
        self.buffer.layout()
    }

    open spec fn in_bounds(&self, x: int, y: int) -> bool {
        self.buffer.in_bounds(x, y)
    }

    open spec fn pixel(&self, x: int, y: int) -> PixelColor {
        if self.buffer.in_bounds(x, y) {
            PixelColor {
                r: self.buffer.channel(x, y, 2),
                g: self.buffer.channel(x, y, 1),
                b: self.buffer.channel(x, y, 0),
            }
        } else {
            PixelColor { r: 0, g: 0, b: 0 }
        }
    }

    fn write(&mut self, pos: Vector2D<i32>, color: &PixelColor)
        ensures
            final(self).buffer.config == old(self).buffer.config,
            final(self).buffer.bytes@ == old(self).buffer.stored(pos, color.b, color.g, color.r),
    {
        self.buffer.store(pos, color.b, color.g, color.r);
    }

    fn frame_buffer(&self) -> usize {
        self.buffer.config.frame_buffer
    }

    fn pixels_per_scan_line(&self) -> usize {
        self.buffer.config.pixels_per_scan_line
    }

    fn horizontal_resolution(&self) -> usize {
        self.buffer.config.horizontal_resolution
    }

    fn vertical_resolution(&self) -> usize {
        self.buffer.config.vertical_resolution
    }
}

/// The colour that the desktop has at `(x, y)` on a screen of `width` by
/// `height` pixels, or `None` where the desktop paints nothing: the start
/// button over the search box over the task bar over the background.
pub open spec fn desktop_pixel(width: int, height: int, x: int, y: int) -> Option<PixelColor> {
    if 10 <= x < 40 && height - 40 <= y < height - 10 {
        Some(PixelColor { r: 160, g: 160, b: 160 })
    } else if 0 <= x < width / 5 && height - 50 <= y < height {
        Some(PixelColor { r: 80, g: 80, b: 80 })
    } else if 0 <= x < width && height - 50 <= y < height {
        Some(PixelColor { r: 1, g: 8, b: 17 })
    } else if 0 <= x < width && 0 <= y < height - 50 {
        Some(PixelColor { r: 45, g: 118, b: 237 })
    } else {
        None
    }
}

/// Paints the desktop: the background, the task bar along the lower edge,
/// the search box and the start button.
pub fn draw_desktop(writer: &mut dyn PixelWrite)
    requires
        old(writer).inv(),
        old(writer).layout().horizontal_resolution <= i32::MAX,
        old(writer).layout().vertical_resolution <= i32::MAX,
    ensures
        final(writer).inv(),
        final(writer).layout() == old(writer).layout(),
        forall|x: int, y: int| final(writer).in_bounds(x, y) == old(writer).in_bounds(x, y),
        forall|x: int, y: int|
            #![trigger final(writer).pixel(x, y)]
            final(writer).pixel(x, y) == (match desktop_pixel(
                old(writer).layout().horizontal_resolution as int,
                old(writer).layout().vertical_resolution as int,
                x,
                y,
            ) {
                Some(color) if old(writer).in_bounds(x, y) => color,
                _ => old(writer).pixel(x, y),
            }),
{
    let frame_width = writer.horizontal_resolution() as i32;
    let frame_height = writer.vertical_resolution() as i32;

    writer.fill_rectangle(
        Vector2D::new(0, 0),
        Vector2D::new(frame_width, frame_height - 50),
        &desktop_bg_color(),
    );
    writer.fill_rectangle(
        Vector2D::new(0, frame_height - 50),
        Vector2D::new(frame_width, 50),
        &PixelColor::new(1, 8, 17),
    );
    writer.fill_rectangle(
        Vector2D::new(0, frame_height - 50),
        Vector2D::new(frame_width / 5, 50),
        &PixelColor::new(80, 80, 80),
    );
    writer.fill_rectangle(
        Vector2D::new(10, frame_height - 40),
        Vector2D::new(30, 30),
        &PixelColor::new(160, 160, 160),
    );
}

} // verus!
