//! Bytes to pixel rectangles, and pixels to bytes.

use super::Geometry;
use crate::layout::{lemma_column_at_bounds, lemma_hex_x_strides, rect_of};
use vstd::prelude::*;

verus! {

impl Geometry {
    /// The top edge of a row.
    fn row_top(&self, row: u64) -> (y: u32)
        requires
            self@.row_y(row as int) <= u32::MAX,
        ensures
            y == self@.row_y(row as int),
    {
        proof {
            use_type_invariant(self);
            let h = self.char_height as int;
            assert(row <= row * h) by (nonlinear_arith)
                requires
                    row >= 0,
                    h >= 1,
            ;
        }
        (row as u32) * self.char_height
    }

    /// The left edge of the hex group in a column.
    fn hex_left(&self, column: u32) -> (x: u32)
        requires
            column <= 15,
        ensures
            x == self@.hex_x(column as int),
    {
        proof {
            use_type_invariant(self);
            let s = self@.hex_stride();
            lemma_hex_x_strides(self@, column as int);
            assert(0 <= column * s <= 15 * s) by (nonlinear_arith)
                requires
                    0 <= column <= 15,
                    s > 0,
            ;
        }
        let shift: u32 = if column < 8 {
            0
        } else {
            self.char_width
        };
        self.hex_view_start + column * (self.hex_byte_width + self.char_width) + shift
    }

    /// The left edge of the character cell in a column.
    fn char_left(&self, column: u32) -> (x: u32)
        requires
            column <= 15,
        ensures
            x == self@.char_x(column as int),
    {
        proof {
            use_type_invariant(self);
            let w = self.char_width as int;
            assert(0 <= column * w <= 15 * w) by (nonlinear_arith)
                requires
                    0 <= column <= 15,
                    w > 0,
            ;
        }
        self.char_view_start + column * self.char_width
    }

    /// The rectangle of a byte of the view in the hex column.
    pub(super) fn hex_cell(&self, index: u64) -> (r: (u32, u32, u32, u32))
        requires
            self@.hex_rect(index as int).y <= u32::MAX,
        ensures
            rect_of(r) == self@.hex_rect(index as int),
    {
        let x = self.hex_left((index % 16) as u32);
        let y = self.row_top(index / 16);
        (x, y, self.hex_byte_width, self.char_height)
    }

    /// The rectangle of a byte of the view in the character column.
    pub(super) fn char_cell(&self, index: u64) -> (r: (u32, u32, u32, u32))
        requires
            self@.char_rect(index as int).y <= u32::MAX,
        ensures
            rect_of(r) == self@.char_rect(index as int),
    {
        let x = self.char_left((index % 16) as u32);
        let y = self.row_top(index / 16);
        (x, y, self.char_width, self.char_height)
    }

    /// The rectangle, as left edge, top edge, width and height, of the byte
    /// at `byte_offset` of the view in the hex column.
    pub fn hex_coordinate(&self, byte_offset: usize) -> (r: (u32, u32, u32, u32))
        requires
            self@.hex_rect(byte_offset as int).y <= u32::MAX,
        ensures
            rect_of(r) == self@.hex_rect(byte_offset as int),
    {
        self.hex_cell(byte_offset as u64)
    }

    /// The rectangle, as left edge, top edge, width and height, of the byte
    /// at `byte_offset` of the view in the character column.
    pub fn char_coordinate(&self, byte_offset: usize) -> (r: (u32, u32, u32, u32))
        requires
            self@.char_rect(byte_offset as int).y <= u32::MAX,
        ensures
            rect_of(r) == self@.char_rect(byte_offset as int),
    {
        self.char_cell(byte_offset as u64)
    }

    /// The column that a horizontal pixel position selects.
    fn column_at(&self, x: u32) -> (column: u32)
        ensures
            column == self@.column_at(x as int),
            column <= 16,
    {
        proof {
            use_type_invariant(self);
            lemma_column_at_bounds(self@, x as int);
        }
        let combo_width = self.char_width + self.hex_byte_width;
        if x < self.hex_view_start {
            0
        } else if x < self.hex_view_end {
            (x - self.hex_view_start) / combo_width
        } else if x < (self.hex_view_end + self.char_view_start) / 2 {
            15
        } else if x < self.char_view_start + self.char_width / 2 {
            0
        } else if x < self.width - self.char_width {
            (x - self.char_view_start + self.char_width / 2) / self.char_width
        } else {
            15
        }
    }

    /// The byte that a pixel selects, in a range that holds every result.
    pub(crate) fn byte_at(&self, y_offset: u32, x: u32, y: u32) -> (index: u64)
        ensures
            index == self@.pixel_to_byte(y_offset as int, x as int, y as int),
    {
        proof {
            use_type_invariant(self);
            let h = self.char_height as int;
            let v = y_offset + y;
            assert(0 <= v / h <= v) by (nonlinear_arith)
                requires
                    v >= 0,
                    h >= 1,
            ;
        }
        let line_index: u64 = (y_offset as u64 + y as u64) / (self.char_height as u64);
        let byte_index = self.column_at(x);
        line_index * 16 + byte_index as u64
    }

    /// The byte that the pixel at `x`, `y` of the viewport selects when the
    /// view is scrolled down by `y_offset` pixels. Every pixel selects one.
    pub fn coordinate_to_byte(&self, y_offset: u32, x: u32, y: u32) -> (index: usize)
        requires
            self@.pixel_to_byte(y_offset as int, x as int, y as int) <= usize::MAX,
        ensures
            index == self@.pixel_to_byte(y_offset as int, x as int, y as int),
    {
        self.byte_at(y_offset, x, y) as usize
    }

    /// Index of the first byte of the first visible row, in a range that
    /// holds every result.
    pub(crate) fn first_byte(&self, view_start: u32) -> (offset: u64)
        ensures
            offset == self@.byte_offset_for_scroll(view_start as int),
            offset <= view_start * 16,
            self@.drawable(),
    {
        proof {
            use_type_invariant(self);
        }
        self.line_index(view_start) as u64 * 16
    }

    /// Number of bytes that fit into the viewport, in a range that holds
    /// every result.
    pub(crate) fn capacity(&self, view_height: u32) -> (count: u64)
        ensures
            count == self@.capacity(view_height as int),
            count <= view_height * 16,
            self@.drawable(),
    {
        proof {
            use_type_invariant(self);
        }
        self.line_count(view_height) as u64 * 16
    }
}

} // verus!
