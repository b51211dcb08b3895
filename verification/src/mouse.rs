//! The mouse cursor: its shape, and drawing and erasing it.

use vstd::prelude::*;
use vstd::string::*;

use crate::graphics::{PixelColor, PixelWrite, Vector2D};

verus! {

/// The width of the cursor in pixels.
pub const MOUSE_CURSOR_WIDTH: usize = 15;

/// The height of the cursor in pixels.
pub const MOUSE_CURSOR_HEIGHT: usize = 24;

/// The row `row` of the shape of the cursor: `@` is the outline, `.` the
/// inside, and a blank lets the screen show through.
pub open spec fn cursor_row(row: int) -> Seq<char> {
    if row == 0 {
        "@              "@
    } else if row == 1 {
        "@@             "@
    } else if row == 2 {
        "@.@            "@
    } else if row == 3 {
        "@..@           "@
    } else if row == 4 {
        "@...@          "@
    } else if row == 5 {
        "@....@         "@
    } else if row == 6 {
        "@.....@        "@
    } else if row == 7 {
        "@......@       "@
    } else if row == 8 {
        "@.......@      "@
    } else if row == 9 {
        "@........@     "@
    } else if row == 10 {
        "@.........@    "@
    } else if row == 11 {
        "@..........@   "@
    } else if row == 12 {
        "@...........@  "@
    } else if row == 13 {
        "@............@ "@
    } else if row == 14 {
        "@......@@@@@@@@"@
    } else if row == 15 {
        "@......@       "@
    } else if row == 16 {
        "@....@@.@      "@
    } else if row == 17 {
        "@...@ @.@      "@
    } else if row == 18 {
        "@..@   @.@     "@
    } else if row == 19 {
        "@.@    @.@     "@
    } else if row == 20 {
        "@@      @.@    "@
    } else if row == 21 {
        "@       @.@    "@
    } else if row == 22 {
        "         @.@   "@
    } else {
        "         @@@   "@
    }
}

/// The row `row` of the shape of the cursor.
pub fn mouse_cursor_row(row: usize) -> (text: &'static str)
    requires
        row < MOUSE_CURSOR_HEIGHT,
    ensures
        text@ == cursor_row(row as int),
        text@.len() == MOUSE_CURSOR_WIDTH,
{
    proof {
        reveal_strlit("         @.@   ");
        reveal_strlit("         @@@   ");
        reveal_strlit("@              ");
        reveal_strlit("@       @.@    ");
        reveal_strlit("@............@ ");
        reveal_strlit("@...........@  ");
        reveal_strlit("@..........@   ");
        reveal_strlit("@.........@    ");
        reveal_strlit("@........@     ");
        reveal_strlit("@.......@      ");
        reveal_strlit("@......@       ");
        reveal_strlit("@......@@@@@@@@");
        reveal_strlit("@.....@        ");
        reveal_strlit("@....@         ");
        reveal_strlit("@....@@.@      ");
        reveal_strlit("@...@          ");
        reveal_strlit("@...@ @.@      ");
        reveal_strlit("@..@           ");
        reveal_strlit("@..@   @.@     ");
        reveal_strlit("@.@            ");
        reveal_strlit("@.@    @.@     ");
        reveal_strlit("@@             ");
        reveal_strlit("@@      @.@    ");
    }
    let text = if row == 0 {
        "@              "
    } else if row == 1 {
        "@@             "
    } else if row == 2 {
        "@.@            "
    } else if row == 3 {
        "@..@           "
    } else if row == 4 {
        "@...@          "
    } else if row == 5 {
        "@....@         "
    } else if row == 6 {
        "@.....@        "
    } else if row == 7 {
        "@......@       "
    } else if row == 8 {
        "@.......@      "
    } else if row == 9 {
        "@........@     "
    } else if row == 10 {
        "@.........@    "
    } else if row == 11 {
        "@..........@   "
    } else if row == 12 {
        "@...........@  "
    } else if row == 13 {
        "@............@ "
    } else if row == 14 {
        "@......@@@@@@@@"
    } else if row == 15 {
        "@......@       "
    } else if row == 16 {
        "@....@@.@      "
    } else if row == 17 {
        "@...@ @.@      "
    } else if row == 18 {
        "@..@   @.@     "
    } else if row == 19 {
        "@.@    @.@     "
    } else if row == 20 {
        "@@      @.@    "
    } else if row == 21 {
        "@       @.@    "
    } else if row == 22 {
        "         @.@   "
    } else {
        "         @@@   "
    };
    text
}

/// The colour of the outline.
pub open spec fn outline_color() -> PixelColor {
    PixelColor { r: 0, g: 0, b: 0 }
}

/// The colour of the inside.
pub open spec fn inside_color() -> PixelColor {
    PixelColor { r: 255, g: 255, b: 255 }
}

/// The character of the shape that lies over the pixel `(x, y)` when the
/// cursor is at `position`, if the cursor reaches there.
pub open spec fn shape_at(position: Vector2D<i32>, x: int, y: int) -> Option<char> {
    if 0 <= x - position.x < MOUSE_CURSOR_WIDTH && 0 <= y - position.y < MOUSE_CURSOR_HEIGHT {
        Some(cursor_row(y - position.y)[x - position.x])
    } else {
        None
    }
}

/// The colour that drawing the cursor at `position` gives the pixel
/// `(x, y)`, if any.
pub open spec fn drawn_color(position: Vector2D<i32>, x: int, y: int) -> Option<PixelColor> {
    match shape_at(position, x, y) {
        Some(c) => if c == '@' {
            Some(outline_color())
        } else if c == '.' {
            Some(inside_color())
        } else {
            None
        },
        None => None,
    }
}

/// Whether erasing the cursor at `position` paints the pixel `(x, y)`.
pub open spec fn erased(position: Vector2D<i32>, x: int, y: int) -> bool {
    shape_at(position, x, y) matches Some(c) && c != ' '
}

/// Whether the pixel `(x, y)` comes before the column `dx` of the row `dy`
/// of a cursor at `position`, row by row.
pub open spec fn passed(position: Vector2D<i32>, x: int, y: int, dx: int, dy: int) -> bool {
    y - position.y < dy || (y - position.y == dy && x - position.x < dx)
}

/// The mouse cursor.
pub struct MouseCursor {
    pub erase_color: PixelColor,
    pub position: Vector2D<i32>,
}

impl MouseCursor {
    /// Whether the whole cursor has coordinates of type `i32`.
    pub open spec fn fits(position: Vector2D<i32>) -> bool {
        &&& position.x + MOUSE_CURSOR_WIDTH <= i32::MAX
        &&& position.y + MOUSE_CURSOR_HEIGHT <= i32::MAX
    }

    /// A cursor at `initial_position`, drawn on `writer`. Erasing it paints
    /// `erase_color`.
    pub fn new<W: PixelWrite>(
        writer: &mut W,
        erase_color: PixelColor,
        initial_position: Vector2D<i32>,
    ) -> (cursor: Self)
        requires
            old(writer).inv(),
            Self::fits(initial_position),
        ensures
            cursor.erase_color == erase_color,
            cursor.position == initial_position,
            final(writer).inv(),
            final(writer).layout() == old(writer).layout(),
            forall|x: int, y: int| final(writer).in_bounds(x, y) == old(writer).in_bounds(x, y),
            forall|x: int, y: int|
                #![trigger final(writer).pixel(x, y)]
                final(writer).pixel(x, y) == (match drawn_color(initial_position, x, y) {
                    Some(color) if old(writer).in_bounds(x, y) => color,
                    _ => old(writer).pixel(x, y),
                }),
    {
        let cursor = Self { erase_color, position: initial_position };
        cursor.draw_mouse_cursor(writer);
        cursor
    }

    /// Erases the cursor, moves it by `displacement` and draws it again.
    pub fn move_relative<W: PixelWrite>(&mut self, writer: &mut W, displacement: Vector2D<i32>)
        requires
            old(writer).inv(),
            Self::fits(old(self).position),
            i32::MIN <= old(self).position.x + displacement.x,
            i32::MIN <= old(self).position.y + displacement.y,
            old(self).position.x + displacement.x + MOUSE_CURSOR_WIDTH <= i32::MAX,
            old(self).position.y + displacement.y + MOUSE_CURSOR_HEIGHT <= i32::MAX,
        ensures
            final(self).erase_color == old(self).erase_color,
            final(self).position.x == old(self).position.x + displacement.x,
            final(self).position.y == old(self).position.y + displacement.y,
            final(writer).inv(),
            final(writer).layout() == old(writer).layout(),
            forall|x: int, y: int| final(writer).in_bounds(x, y) == old(writer).in_bounds(x, y),
            forall|x: int, y: int|
                #![trigger final(writer).pixel(x, y)]
                final(writer).pixel(x, y) == (match drawn_color(final(self).position, x, y) {
                    Some(color) if old(writer).in_bounds(x, y) => color,
                    _ => if erased(old(self).position, x, y) && old(writer).in_bounds(x, y) {
                        old(self).erase_color
                    } else {
                        old(writer).pixel(x, y)
                    },
                }),
    {
        self.erase_mouse_cursor(writer);
        self.position = Vector2D::new(
            self.position.x + displacement.x,
            self.position.y + displacement.y,
        );
        self.draw_mouse_cursor(writer);
    }

    /// Draws the cursor: the outline black, the inside white.
    pub fn draw_mouse_cursor<W: PixelWrite>(&self, writer: &mut W)
        requires
            old(writer).inv(),
            Self::fits(self.position),
        ensures
            final(writer).inv(),
            final(writer).layout() == old(writer).layout(),
            forall|x: int, y: int| final(writer).in_bounds(x, y) == old(writer).in_bounds(x, y),
            forall|x: int, y: int|
                #![trigger final(writer).pixel(x, y)]
                final(writer).pixel(x, y) == (match drawn_color(self.position, x, y) {
                    Some(color) if old(writer).in_bounds(x, y) => color,
                    _ => old(writer).pixel(x, y),
                }),
    {
        let position = self.position;
        let mut dy: usize = 0;
        while dy < MOUSE_CURSOR_HEIGHT
            invariant
                dy <= MOUSE_CURSOR_HEIGHT,
                position == self.position,
                Self::fits(position),
                writer.inv(),
                writer.layout() == old(writer).layout(),
                forall|x: int, y: int| writer.in_bounds(x, y) == old(writer).in_bounds(x, y),
                forall|x: int, y: int|
                    #![trigger writer.pixel(x, y)]
                    writer.pixel(x, y) == (match drawn_color(position, x, y) {
                        Some(color) if old(writer).in_bounds(x, y) && passed(
                            position,
                            x,
                            y,
                            0,
                            dy as int,
                        ) => color,
                        _ => old(writer).pixel(x, y),
                    }),
            decreases MOUSE_CURSOR_HEIGHT - dy,
        {
            let row = mouse_cursor_row(dy);
            let mut dx: usize = 0;
            while dx < MOUSE_CURSOR_WIDTH
                invariant
                    dx <= MOUSE_CURSOR_WIDTH,
                    dy < MOUSE_CURSOR_HEIGHT,
                    row@ == cursor_row(dy as int),
                    row@.len() == MOUSE_CURSOR_WIDTH,
                    position == self.position,
                    Self::fits(position),
                    writer.inv(),
                    writer.layout() == old(writer).layout(),
                    forall|x: int, y: int| writer.in_bounds(x, y) == old(writer).in_bounds(x, y),
                    forall|x: int, y: int|
                        #![trigger writer.pixel(x, y)]
                        writer.pixel(x, y) == (match drawn_color(position, x, y) {
                            Some(color) if old(writer).in_bounds(x, y) && passed(
                                position,
                                x,
                                y,
                                dx as int,
                                dy as int,
                            ) => color,
                            _ => old(writer).pixel(x, y),
                        }),
                decreases MOUSE_CURSOR_WIDTH - dx,
            {
                let c = row.get_char(dx);
                let at = Vector2D::new(position.x + dx as i32, position.y + dy as i32);
                if c == '@' {
                    writer.write(at, &PixelColor::new(0, 0, 0));
                } else if c == '.' {
                    writer.write(at, &PixelColor::new(255, 255, 255));
                }
                dx = dx + 1;
            }
            dy = dy + 1;
        }
    }

    /// Erases the cursor: every pixel of its shape gets the erase colour.
    pub fn erase_mouse_cursor<W: PixelWrite>(&self, writer: &mut W)
        requires
            old(writer).inv(),
            Self::fits(self.position),
        ensures
            final(writer).inv(),
            final(writer).layout() == old(writer).layout(),
            forall|x: int, y: int| final(writer).in_bounds(x, y) == old(writer).in_bounds(x, y),
            forall|x: int, y: int|
                #![trigger final(writer).pixel(x, y)]
                final(writer).pixel(x, y) == (if erased(self.position, x, y) && old(writer).in_bounds(x, y) {
                    self.erase_color
                } else {
                    old(writer).pixel(x, y)
                }),
    {
        let position = self.position;
        let mut dy: usize = 0;
        while dy < MOUSE_CURSOR_HEIGHT
            invariant
                dy <= MOUSE_CURSOR_HEIGHT,
                position == self.position,
                Self::fits(position),
                writer.inv(),
                writer.layout() == old(writer).layout(),
                forall|x: int, y: int| writer.in_bounds(x, y) == old(writer).in_bounds(x, y),
                forall|x: int, y: int|
                    #![trigger writer.pixel(x, y)]
                    writer.pixel(x, y) == (if erased(position, x, y) && old(writer).in_bounds(
                        x,
                        y,
                    ) && passed(position, x, y, 0, dy as int) {
                        self.erase_color
                    } else {
                        old(writer).pixel(x, y)
                    }),
            decreases MOUSE_CURSOR_HEIGHT - dy,
        {
            let row = mouse_cursor_row(dy);
            let mut dx: usize = 0;
            while dx < MOUSE_CURSOR_WIDTH
                invariant
                    dx <= MOUSE_CURSOR_WIDTH,
                    dy < MOUSE_CURSOR_HEIGHT,
                    row@ == cursor_row(dy as int),
                    row@.len() == MOUSE_CURSOR_WIDTH,
                    position == self.position,
                    Self::fits(position),
                    writer.inv(),
                    writer.layout() == old(writer).layout(),
                    forall|x: int, y: int| writer.in_bounds(x, y) == old(writer).in_bounds(x, y),
                    forall|x: int, y: int|
                        #![trigger writer.pixel(x, y)]
                        writer.pixel(x, y) == (if erased(position, x, y) && old(writer).in_bounds(x, y) && passed(position, x, y, dx as int, dy as int) {
                            self.erase_color
                        } else {
                            old(writer).pixel(x, y)
                        }),
                decreases MOUSE_CURSOR_WIDTH - dx,
            {
                let c = row.get_char(dx);
                if c != ' ' {
                    writer.write(
                        Vector2D::new(position.x + dx as i32, position.y + dy as i32),
                        &self.erase_color,
                    );
                }
                dx = dx + 1;
            }
            dy = dy + 1;
        }
    }
}

} // verus!
