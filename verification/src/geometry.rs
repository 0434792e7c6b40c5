//! The executable layout: pixel arithmetic on machine integers, specified
//! against [`Layout`].

mod generator;
mod mapper;

use crate::layout::Layout;
use vstd::prelude::*;

verus! {

/// Layout parameters of one session, with the column boundaries derived from
/// them. Every value of this type is a layout that can be drawn.
#[derive(Clone, Copy, Debug)]
pub struct Geometry {
    char_width: u32,
    char_height: u32,
    hex_byte_width: u32,
    offset_view_width: u32,
    hex_view_start: u32,
    hex_view_width: u32,
    hex_view_end: u32,
    char_view_start: u32,
    char_view_width: u32,
    char_view_end: u32,
    width: u32,
}

impl View for Geometry {
    type V = Layout;

    closed spec fn view(&self) -> Layout {
        Layout::of(self.char_width, self.char_height, self.hex_byte_width, self.offset_view_width)
    }
}

impl Geometry {
    #[verifier::type_invariant]
    spec fn inv(self) -> bool {
        &&& self@.drawable()
        &&& self.hex_view_start == self@.hex_column_start()
        &&& self.hex_view_width == self@.hex_column_width()
        &&& self.hex_view_end == self@.hex_column_end()
        &&& self.char_view_start == self@.char_column_start()
        &&& self.char_view_width == self@.char_column_width()
        &&& self.char_view_end == self@.char_column_end()
        &&& self.width == self@.total_width()
    }

    /// The layout for a font whose character cell is `char_width` by
    /// `char_height` pixels, whose two-digit hex group is `hex_byte_width`
    /// pixels wide, with `offset_view_width` pixels for the offset labels.
    pub fn new(char_width: u32, char_height: u32, hex_byte_width: u32, offset_view_width: u32) -> (g:
        Self)
        requires
            Layout::of(char_width, char_height, hex_byte_width, offset_view_width).drawable(),
        ensures
            g@ == Layout::of(char_width, char_height, hex_byte_width, offset_view_width),
    {
        let hex_view_start = offset_view_width;
        let hex_view_width = (char_width + hex_byte_width) * 16;
        let hex_view_end = hex_view_start + hex_view_width;
        let char_view_start = hex_view_end + char_width * 2;
        let char_view_width = char_width * 16;
        let char_view_end = char_view_start + char_view_width;
        let width = char_view_end + char_width;
        Self {
            char_width,
            char_height,
            hex_byte_width,
            offset_view_width,
            hex_view_start,
            hex_view_width,
            hex_view_end,
            char_view_start,
            char_view_width,
            char_view_end,
            width,
        }
    }

    /// The layout for the given metrics where they make one that can be
    /// drawn: a cell of positive size, and a total width within the
    /// coordinate range of an element. `None` otherwise.
    pub fn try_new(
        char_width: u32,
        char_height: u32,
        hex_byte_width: u32,
        offset_view_width: u32,
    ) -> (r: Option<Self>)
        ensures
            r is Some <==> Layout::of(
                char_width,
                char_height,
                hex_byte_width,
                offset_view_width,
            ).drawable(),
            r matches Some(g) ==> g@ == Layout::of(
                char_width,
                char_height,
                hex_byte_width,
                offset_view_width,
            ),
    {
        if char_width == 0 || char_height == 0 {
            return None;
        }
        let total: u64 = offset_view_width as u64 + (char_width as u64 + hex_byte_width as u64) * 16
            + char_width as u64 * 19;
        if total > 0x7fff_ffff {
            return None;
        }
        Some(Self::new(char_width, char_height, hex_byte_width, offset_view_width))
    }

    /// Pixel height of `byte_count` bytes laid out in rows.
    pub fn height(&self, byte_count: usize) -> (h: u32)
        requires
            self@.content_height(byte_count as int) <= u32::MAX,
        ensures
            h == self@.content_height(byte_count as int),
    {
        proof {
            use_type_invariant(self);
        }
        let total_line_count: usize = byte_count / 16 + if byte_count % 16 == 0 {
            0
        } else {
            1
        };
        assert(total_line_count == self@.row_count(byte_count as int));
        assert(total_line_count <= self.char_height * total_line_count) by (nonlinear_arith)
            requires
                self.char_height >= 1,
                total_line_count >= 0,
        ;
        self.char_height * (total_line_count as u32)
    }

    /// Pixel width of the whole content.
    pub fn width(&self) -> (w: u32)
        ensures
            w == self@.total_width(),
            self@.drawable(),
    {
        proof {
            use_type_invariant(self);
        }
        self.width
    }

    /// Index of the first byte of the first row that is entirely visible
    /// after scrolling down by `view_start` pixels.
    pub fn byte_offset(&self, view_start: u32) -> (offset: usize)
        requires
            self@.byte_offset_for_scroll(view_start as int) <= usize::MAX,
        ensures
            offset == self@.byte_offset_for_scroll(view_start as int),
    {
        let start_line = self.line_index(view_start);
        start_line * 16
    }

    /// The first row that is entirely visible after scrolling down by
    /// `view_start` pixels.
    pub fn line_index(&self, view_start: u32) -> (row: usize)
        ensures
            row == self@.first_visible_row(view_start as int),
            row <= view_start,
    {
        proof {
            use_type_invariant(self);
        }
        let whole: u32 = view_start / self.char_height;
        proof {
            let h = self.char_height as int;
            let v = view_start as int;
            let q = v / h;
            let m = v % h;
            vstd::arithmetic::div_mod::lemma_fundamental_div_mod(v, h);
            vstd::arithmetic::div_mod::lemma_mod_bound(v, h);
            assert(h * q == q * h) by (nonlinear_arith);
            assert(0 <= q <= q * h) by (nonlinear_arith)
                requires
                    v >= 0,
                    h >= 1,
                    q == v / h,
            ;
            if m == 0 {
                vstd::arithmetic::div_mod::lemma_fundamental_div_mod_converse(
                    v + h - 1,
                    h,
                    q,
                    h - 1,
                );
            } else {
                assert((q + 1) * h == q * h + h) by (nonlinear_arith);
                vstd::arithmetic::div_mod::lemma_fundamental_div_mod_converse(
                    v + h - 1,
                    h,
                    q + 1,
                    m - 1,
                );
            }
        }
        let row: u32 = if view_start % self.char_height == 0 {
            whole
        } else {
            whole + 1
        };
        row as usize
    }

    /// Number of rows that fit entirely into `view_height` pixels.
    pub fn line_count(&self, view_height: u32) -> (rows: usize)
        ensures
            rows == self@.visible_row_count(view_height as int),
            rows <= view_height,
    {
        proof {
            use_type_invariant(self);
            let h = self.char_height as int;
            let v = view_height as int;
            assert(v / h <= v) by (nonlinear_arith)
                requires
                    v >= 0,
                    h >= 1,
            ;
        }
        (view_height / self.char_height) as usize
    }

    /// Pixel width of the character column.
    pub fn char_view_width(&self) -> (w: u32)
        ensures
            w == self@.char_column_width(),
    {
        proof {
            use_type_invariant(self);
        }
        self.char_width * 16
    }
}

} // verus!
