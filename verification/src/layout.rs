//! The mathematical model of the hex-dump layout.
//!
//! Everything here is ghost: unbounded integers and pure functions. The
//! executable [`crate::Geometry`] is specified against this model.

use vstd::prelude::*;

verus! {

/// A pixel rectangle: top-left corner and size.
pub struct Rect {
    pub x: int,
    pub y: int,
    pub width: int,
    pub height: int,
}

/// The rectangle that a tuple of left edge, top edge, width and height
/// stands for.
pub open spec fn rect_of(t: (u32, u32, u32, u32)) -> Rect {
    Rect { x: t.0 as int, y: t.1 as int, width: t.2 as int, height: t.3 as int }
}

/// The rectangles that a sequence of such tuples stands for.
pub open spec fn rects(tuples: Seq<(u32, u32, u32, u32)>) -> Seq<Rect> {
    Seq::new(tuples.len(), |i: int| rect_of(tuples[i]))
}

/// The four font metrics a layout is derived from.
pub struct Layout {
    /// Pixel width of one monospace character cell.
    pub cell_width: int,
    /// Pixel height of one monospace character cell.
    pub cell_height: int,
    /// Pixel width of a two-hex-digit glyph group.
    pub hex_cell_width: int,
    /// Pixel width reserved for the offset label.
    pub offset_column_width: int,
}

/// The row a byte index lies in.
pub open spec fn row_of(index: int) -> int {
    index / 16
}

/// The position of a byte index within its row.
pub open spec fn column_of(index: int) -> int {
    index % 16
}

impl Layout {
    /// The layout of four metrics given as machine integers.
    pub open spec fn of(
        cell_width: u32,
        cell_height: u32,
        hex_cell_width: u32,
        offset_column_width: u32,
    ) -> Layout {
        Layout {
            cell_width: cell_width as int,
            cell_height: cell_height as int,
            hex_cell_width: hex_cell_width as int,
            offset_column_width: offset_column_width as int,
        }
    }

    /// A layout is usable when a cell has a positive size and no metric is
    /// negative.
    pub open spec fn valid(self) -> bool {
        &&& self.cell_width > 0
        &&& self.cell_height > 0
        &&& self.hex_cell_width >= 0
        &&& self.offset_column_width >= 0
    }

    /// A layout can be drawn when it is valid and its whole width lies in the
    /// coordinate range of an element.
    pub open spec fn drawable(self) -> bool {
        &&& self.valid()
        &&& self.total_width() <= i32::MAX
    }

    /// Horizontal distance between two neighbouring hex groups.
    pub open spec fn hex_stride(self) -> int {
        self.cell_width + self.hex_cell_width
    }

    /// Left edge of the hex column: it follows the offset column.
    pub open spec fn hex_column_start(self) -> int {
        self.offset_column_width
    }

    /// Width of the hex column: sixteen strides.
    pub open spec fn hex_column_width(self) -> int {
        self.hex_stride() * 16
    }

    /// Right edge of the hex column.
    pub open spec fn hex_column_end(self) -> int {
        self.hex_column_start() + self.hex_column_width()
    }

    /// The character column starts after a gutter of two cells.
    pub open spec fn char_column_start(self) -> int {
        self.hex_column_end() + self.cell_width * 2
    }

    /// Width of the character column: sixteen cells.
    pub open spec fn char_column_width(self) -> int {
        self.cell_width * 16
    }

    /// Right edge of the character column.
    pub open spec fn char_column_end(self) -> int {
        self.char_column_start() + self.char_column_width()
    }

    /// The content ends with a right margin of one cell.
    pub open spec fn total_width(self) -> int {
        self.char_column_end() + self.cell_width
    }

    /// Number of rows needed for `byte_count` bytes.
    pub open spec fn row_count(self, byte_count: int) -> int {
        (byte_count + 15) / 16
    }

    /// Pixel height of `byte_count` bytes laid out in rows.
    pub open spec fn content_height(self, byte_count: int) -> int {
        self.cell_height * self.row_count(byte_count)
    }

    /// The smallest row whose top edge is at or below `scroll_y`.
    pub open spec fn first_visible_row(self, scroll_y: int) -> int {
        (scroll_y + self.cell_height - 1) / self.cell_height
    }

    /// Index of the first byte of the first visible row.
    pub open spec fn byte_offset_for_scroll(self, scroll_y: int) -> int {
        self.first_visible_row(scroll_y) * 16
    }

    /// Number of rows that fit entirely into a viewport.
    pub open spec fn visible_row_count(self, viewport_height: int) -> int {
        viewport_height / self.cell_height
    }

    /// Number of bytes that fit into a viewport.
    pub open spec fn capacity(self, viewport_height: int) -> int {
        self.visible_row_count(viewport_height) * 16
    }

    /// Horizontal position of the hex group in a column: `column` strides
    /// from the start of the hex column, a stride being one cell and one hex
    /// group wide. The columns of the second half are shifted right by one
    /// cell.
    pub open spec fn hex_x(self, column: int) -> int {
        self.hex_column_start() + column * self.cell_width + column * self.hex_cell_width
            + if column >= 8 {
            self.cell_width
        } else {
            0
        }
    }

    /// Horizontal position of the character cell in a column.
    pub open spec fn char_x(self, column: int) -> int {
        self.char_column_start() + column * self.cell_width
    }

    /// Top edge of a row, counted from the top of the view.
    pub open spec fn row_y(self, row: int) -> int {
        row * self.cell_height
    }

    /// Whether the top edge of every row of `size` bytes lies in the
    /// coordinate range of an element.
    pub open spec fn rows_drawable(self, size: int) -> bool {
        size > 0 ==> self.row_y(row_of(size - 1)) <= i32::MAX
    }

    /// The rectangle of a byte in the hex column.
    pub open spec fn hex_rect(self, index: int) -> Rect {
        Rect {
            x: self.hex_x(column_of(index)),
            y: self.row_y(row_of(index)),
            width: self.hex_cell_width,
            height: self.cell_height,
        }
    }

    /// The rectangle of a byte in the character column.
    pub open spec fn char_rect(self, index: int) -> Rect {
        Rect {
            x: self.char_x(column_of(index)),
            y: self.row_y(row_of(index)),
            width: self.cell_width,
            height: self.cell_height,
        }
    }

    /// The column that a horizontal pixel position selects. Every position
    /// selects one: positions between the columns go to the nearer side.
    pub open spec fn column_at(self, x: int) -> int {
        if x < self.hex_column_start() {
            0
        } else if x < self.hex_column_end() {
            (x - self.hex_column_start()) / self.hex_stride()
        } else if x < (self.hex_column_end() + self.char_column_start()) / 2 {
            15
        } else if x < self.char_column_start() + self.cell_width / 2 {
            0
        } else if x < self.total_width() - self.cell_width {
            (x - self.char_column_start() + self.cell_width / 2) / self.cell_width
        } else {
            15
        }
    }

    /// The row that a vertical pixel position selects.
    pub open spec fn row_at(self, scroll_y: int, y: int) -> int {
        (scroll_y + y) / self.cell_height
    }

    /// The byte that a pixel selects.
    pub open spec fn pixel_to_byte(self, scroll_y: int, x: int, y: int) -> int {
        self.row_at(scroll_y, y) * 16 + self.column_at(x)
    }
}

/// The column boundaries of a valid layout are strictly ordered from left to
/// right, and the content is at least as wide as the character column's end.
pub proof fn lemma_columns_ordered(layout: Layout)
    requires
        layout.valid(),
    ensures
        0 <= layout.hex_column_start(),
        layout.hex_column_start() < layout.hex_column_end(),
        layout.hex_column_end() < layout.char_column_start(),
        layout.char_column_start() < layout.char_column_end(),
        layout.char_column_end() <= layout.total_width(),
{
}

/// Whole rows are as high as the cells in them, and one byte more takes one
/// row more: no bytes have no height, sixteen bytes are one cell high,
/// seventeen are two cells high.
pub proof fn lemma_content_height_of_rows(layout: Layout, rows: int)
    requires
        rows >= 0,
    ensures
        layout.content_height(16 * rows) == rows * layout.cell_height,
        layout.content_height(16 * rows + 1) == (rows + 1) * layout.cell_height,
        layout.content_height(0) == 0,
        layout.content_height(16) == layout.cell_height,
        layout.content_height(17) == 2 * layout.cell_height,
{
    let h = layout.cell_height;
    assert(h * rows == rows * h) by (nonlinear_arith);
    assert(h * (rows + 1) == (rows + 1) * h) by (nonlinear_arith);
    assert(h * 0 == 0 && h * 1 == h && h * 2 == 2 * h) by (nonlinear_arith);
}

/// The first visible row is the least row whose top edge is not above the
/// scroll offset.
pub proof fn lemma_first_visible_row_is_least(layout: Layout, scroll_y: int)
    requires
        layout.valid(),
        scroll_y >= 0,
    ensures
        layout.first_visible_row(scroll_y) >= 0,
        layout.row_y(layout.first_visible_row(scroll_y)) >= scroll_y,
        forall|row: int| row < layout.first_visible_row(scroll_y) ==> layout.row_y(row) < scroll_y,
{
    let h = layout.cell_height;
    let r = layout.first_visible_row(scroll_y);
    let n = scroll_y + h - 1;
    assert(n == h * (n / h) + n % h && 0 <= n % h < h) by {
        vstd::arithmetic::div_mod::lemma_fundamental_div_mod(n, h);
        vstd::arithmetic::div_mod::lemma_mod_bound(n, h);
    }
    assert(r * h == h * r) by (nonlinear_arith);
    assert(r >= 0) by (nonlinear_arith)
        requires
            n >= 0,
            h > 0,
            r == n / h,
    ;
    assert forall|row: int| row < r implies layout.row_y(row) < scroll_y by {
        assert(row * h <= (r - 1) * h) by (nonlinear_arith)
            requires
                row <= r - 1,
                h > 0,
        ;
        assert((r - 1) * h == r * h - h) by (nonlinear_arith);
    }
}

/// A viewport shows whole rows only: they fit into its height, and one more
/// row would not.
pub proof fn lemma_visible_rows_fit(layout: Layout, viewport_height: int)
    requires
        layout.valid(),
        viewport_height >= 0,
    ensures
        layout.visible_row_count(viewport_height) >= 0,
        layout.row_y(layout.visible_row_count(viewport_height)) <= viewport_height,
        viewport_height < layout.row_y(layout.visible_row_count(viewport_height) + 1),
{
    let h = layout.cell_height;
    let r = layout.visible_row_count(viewport_height);
    assert(viewport_height == h * r + viewport_height % h && 0 <= viewport_height % h < h) by {
        vstd::arithmetic::div_mod::lemma_fundamental_div_mod(viewport_height, h);
        vstd::arithmetic::div_mod::lemma_mod_bound(viewport_height, h);
    }
    assert(r * h == h * r) by (nonlinear_arith);
    assert((r + 1) * h == r * h + h) by (nonlinear_arith);
    assert(r >= 0) by (nonlinear_arith)
        requires
            viewport_height >= 0,
            h > 0,
            r == viewport_height / h,
    ;
}

/// The hex group of a column stands `column` strides from the start of the
/// hex column, and one cell further in the second half of the row.
pub proof fn lemma_hex_x_strides(layout: Layout, column: int)
    ensures
        layout.hex_x(column) == layout.hex_column_start() + column * layout.hex_stride()
            + if column >= 8 {
            layout.cell_width
        } else {
            0
        },
{
    let w = layout.cell_width;
    let g = layout.hex_cell_width;
    assert(column * (w + g) == column * w + column * g) by (nonlinear_arith);
}

/// A row's top edge selects that row when nothing is scrolled away.
proof fn lemma_row_at_row_y(layout: Layout, row: int)
    requires
        layout.valid(),
    ensures
        layout.row_at(0, layout.row_y(row)) == row,
{
    let h = layout.cell_height;
    assert((row * h) / h == row) by (nonlinear_arith)
        requires
            h > 0,
    ;
}

/// `(column * stride + extra) / stride == column` when `extra` is less than
/// one stride.
proof fn lemma_div_stride(column: int, stride: int, extra: int)
    requires
        stride > 0,
        0 <= extra < stride,
    ensures
        (column * stride + extra) / stride == column,
{
    vstd::arithmetic::div_mod::lemma_fundamental_div_mod_converse(
        column * stride + extra,
        stride,
        column,
        extra,
    );
}

/// Hit-testing always selects a column of the row, or, at the right edge of
/// the character column, the position one past its last column.
pub proof fn lemma_column_at_bounds(layout: Layout, x: int)
    requires
        layout.valid(),
    ensures
        0 <= layout.column_at(x) <= 16,
        x < layout.char_column_start() + layout.cell_width / 2 ==> layout.column_at(x) <= 15,
{
    let w = layout.cell_width;
    let s = layout.hex_stride();
    if layout.hex_column_start() <= x < layout.hex_column_end() {
        let d = x - layout.hex_column_start();
        assert(0 <= d / s <= 15) by (nonlinear_arith)
            requires
                0 <= d < s * 16,
                s > 0,
        ;
    }
    if layout.char_column_start() + w / 2 <= x < layout.total_width() - w {
        let d = x - layout.char_column_start() + w / 2;
        assert(0 <= d / w <= 16) by (nonlinear_arith)
            requires
                0 <= d < w * 17,
                w > 0,
        ;
    }
}

/// A position within the stride of a column of the hex area, from the left
/// edge of its hex group to the left edge of the next, selects that
/// column. In the second half of the row the groups stand one cell to the
/// right of where their strides begin.
pub proof fn lemma_hex_stride_selects(layout: Layout, x: int, column: int)
    requires
        layout.valid(),
        0 <= column <= 15,
        layout.hex_column_start() + column * layout.cell_width + column * layout.hex_cell_width
            <= x,
        x < layout.hex_column_start() + (column + 1) * layout.cell_width + (column + 1)
            * layout.hex_cell_width,
    ensures
        layout.column_at(x) == column,
{
    let s = layout.hex_stride();
    let d = x - layout.hex_column_start();
    assert(column * s == column * layout.cell_width + column * layout.hex_cell_width)
        by (nonlinear_arith)
        requires
            s == layout.cell_width + layout.hex_cell_width,
    ;
    assert((column + 1) * s == (column + 1) * layout.cell_width + (column + 1)
        * layout.hex_cell_width) by (nonlinear_arith)
        requires
            s == layout.cell_width + layout.hex_cell_width,
    ;
    assert((column + 1) * s == column * s + s) by (nonlinear_arith);
    assert((column + 1) * s <= 16 * s) by (nonlinear_arith)
        requires
            column + 1 <= 16,
            s > 0,
    ;
    assert(0 <= column * s) by (nonlinear_arith)
        requires
            column >= 0,
            s > 0,
    ;
    lemma_div_stride(column, s, d - column * s);
}

/// Every pixel of the window selects a byte: one of the row that the pixel
/// lies in, or the first byte of the next row.
pub proof fn lemma_pixel_to_byte_bounds(layout: Layout, scroll_y: int, x: int, y: int)
    requires
        layout.valid(),
        scroll_y >= 0,
        y >= 0,
    ensures
        layout.row_at(scroll_y, y) >= 0,
        layout.row_y(layout.row_at(scroll_y, y)) <= scroll_y + y < layout.row_y(
            layout.row_at(scroll_y, y) + 1,
        ),
        layout.row_at(scroll_y, y) * 16 <= layout.pixel_to_byte(scroll_y, x, y) <= layout.row_at(
            scroll_y,
            y,
        ) * 16 + 16,
{
    lemma_column_at_bounds(layout, x);
    lemma_visible_rows_fit(layout, scroll_y + y);
}

/// Hit-testing the top-left corner of a byte's hex rectangle, with nothing
/// scrolled away, gives that byte back.
///
/// Where the hex group has no width, the one-cell shift of the second half
/// moves columns 8 to 14 onto their right neighbours; those are left out.
pub proof fn lemma_hex_rect_round_trip(layout: Layout, index: int)
    requires
        layout.valid(),
        index >= 0,
        layout.hex_cell_width > 0 || column_of(index) < 8 || column_of(index) == 15,
    ensures
        layout.pixel_to_byte(0, layout.hex_rect(index).x, layout.hex_rect(index).y) == index,
{
    let column = column_of(index);
    let w = layout.cell_width;
    let s = layout.hex_stride();
    let x = layout.hex_x(column);
    lemma_hex_x_strides(layout, column);
    lemma_row_at_row_y(layout, row_of(index));
    assert(0 <= column * s <= 15 * s) by (nonlinear_arith)
        requires
            0 <= column <= 15,
            s > 0,
    ;
    if column < 8 {
        assert(column * s <= 7 * s) by (nonlinear_arith)
            requires
                0 <= column <= 7,
                s > 0,
        ;
        lemma_div_stride(column, s, 0);
    } else if layout.hex_cell_width > 0 {
        lemma_div_stride(column, s, w);
    } else {
        assert(column == 15);
        assert(x == layout.hex_column_end());
    }
    assert(layout.column_at(x) == column);
}

/// Hit-testing the top-left corner of a byte's character rectangle, with
/// nothing scrolled away, gives that byte back.
pub proof fn lemma_char_rect_round_trip(layout: Layout, index: int)
    requires
        layout.valid(),
        index >= 0,
    ensures
        layout.pixel_to_byte(0, layout.char_rect(index).x, layout.char_rect(index).y) == index,
{
    let column = column_of(index);
    let w = layout.cell_width;
    let x = layout.char_x(column);
    lemma_row_at_row_y(layout, row_of(index));
    assert(0 <= column * w <= 15 * w) by (nonlinear_arith)
        requires
            0 <= column <= 15,
            w > 0,
    ;
    if column >= 1 {
        assert(column * w >= w) by (nonlinear_arith)
            requires
                column >= 1,
                w > 0,
        ;
    }
    lemma_div_stride(column, w, w / 2);
    assert(layout.column_at(x) == column);
}

/// Every cell lies within its column, and its top edge is not negative.
pub proof fn lemma_cells_in_columns(layout: Layout, index: int)
    requires
        layout.valid(),
        index >= 0,
    ensures
        layout.hex_column_start() <= layout.hex_rect(index).x,
        layout.hex_rect(index).x + layout.hex_rect(index).width <= layout.hex_column_end(),
        layout.char_column_start() <= layout.char_rect(index).x,
        layout.char_rect(index).x + layout.char_rect(index).width <= layout.char_column_end(),
        0 <= layout.hex_rect(index).y == layout.char_rect(index).y,
{
    let column = column_of(index);
    let s = layout.hex_stride();
    let w = layout.cell_width;
    let h = layout.cell_height;
    lemma_hex_x_strides(layout, column);
    assert(0 <= column * s <= 15 * s) by (nonlinear_arith)
        requires
            0 <= column <= 15,
            s > 0,
    ;
    assert(0 <= column * w <= 15 * w) by (nonlinear_arith)
        requires
            0 <= column <= 15,
            w > 0,
    ;
    assert(0 <= row_of(index) * h) by (nonlinear_arith)
        requires
            row_of(index) >= 0,
            h > 0,
    ;
}

/// Within a row the cells stand from left to right in the order of their
/// bytes, and a later row is not above an earlier one.
pub proof fn lemma_cells_ordered(layout: Layout, a: int, b: int)
    requires
        layout.valid(),
        0 <= a <= b,
    ensures
        layout.hex_rect(a).y <= layout.hex_rect(b).y,
        row_of(a) == row_of(b) ==> layout.hex_rect(a).x <= layout.hex_rect(b).x,
        row_of(a) == row_of(b) ==> layout.char_rect(a).x <= layout.char_rect(b).x,
        row_of(a) < row_of(b) ==> layout.hex_rect(a).y + layout.cell_height <= layout.hex_rect(b).y,
{
    let s = layout.hex_stride();
    let w = layout.cell_width;
    let h = layout.cell_height;
    let ca = column_of(a);
    let cb = column_of(b);
    let ra = row_of(a);
    let rb = row_of(b);
    assert(ra * h <= rb * h) by (nonlinear_arith)
        requires
            ra <= rb,
            h > 0,
    ;
    if ra < rb {
        assert(ra * h + h <= rb * h) by (nonlinear_arith)
            requires
                ra + 1 <= rb,
                h > 0,
        ;
    }
    if ra == rb {
        lemma_hex_x_strides(layout, ca);
        lemma_hex_x_strides(layout, cb);
        assert(ca * s <= cb * s) by (nonlinear_arith)
            requires
                ca <= cb,
                s > 0,
        ;
        assert(ca * w <= cb * w) by (nonlinear_arith)
            requires
                ca <= cb,
                w > 0,
        ;
    }
}

/// The rows of the bytes that a viewport holds lie within the viewport.
pub proof fn lemma_rows_in_viewport(layout: Layout, viewport_height: int, size: int)
    requires
        layout.valid(),
        0 <= viewport_height,
        0 < size <= layout.capacity(viewport_height),
    ensures
        0 <= layout.row_y(row_of(size - 1)),
        layout.row_y(row_of(size - 1)) + layout.cell_height <= viewport_height,
{
    let h = layout.cell_height;
    let rows = layout.visible_row_count(viewport_height);
    let bottom = row_of(size - 1);
    assert(bottom + 1 <= rows);
    assert(bottom * h + h <= rows * h) by (nonlinear_arith)
        requires
            bottom + 1 <= rows,
            h > 0,
    ;
    assert(0 <= bottom * h) by (nonlinear_arith)
        requires
            bottom >= 0,
            h > 0,
    ;
    lemma_visible_rows_fit(layout, viewport_height);
}

/// Every pixel of a byte's hex rectangle selects that byte when nothing is
/// scrolled away.
pub proof fn lemma_hex_cell_selects(layout: Layout, index: int, dx: int, dy: int)
    requires
        layout.valid(),
        index >= 0,
        0 <= dx < layout.hex_cell_width,
        0 <= dy < layout.cell_height,
    ensures
        layout.pixel_to_byte(0, layout.hex_rect(index).x + dx, layout.hex_rect(index).y + dy)
            == index,
{
    let column = column_of(index);
    let row = row_of(index);
    let h = layout.cell_height;
    let w = layout.cell_width;
    let g = layout.hex_cell_width;
    assert((column + 1) * w == column * w + w && (column + 1) * g == column * g + g)
        by (nonlinear_arith);
    lemma_hex_stride_selects(layout, layout.hex_rect(index).x + dx, column);
    assert((row * h + dy) / h == row) by {
        lemma_div_stride(row, h, dy);
    }
}

/// A pixel of a byte's character cell selects that byte where it lies in the
/// left half of the cell, and the byte after it where it lies in the right
/// half: positions are rounded to the nearest left edge of a cell.
pub proof fn lemma_char_cell_selects(layout: Layout, index: int, dx: int, dy: int)
    requires
        layout.valid(),
        index >= 0,
        0 <= dx < layout.cell_width,
        0 <= dy < layout.cell_height,
    ensures
        layout.pixel_to_byte(0, layout.char_rect(index).x + dx, layout.char_rect(index).y + dy)
            == if dx < layout.cell_width - layout.cell_width / 2 {
            index
        } else {
            index + 1
        },
{
    let column = column_of(index);
    let row = row_of(index);
    let w = layout.cell_width;
    let h = layout.cell_height;
    let x = layout.char_rect(index).x + dx;
    assert((row * h + dy) / h == row) by {
        lemma_div_stride(row, h, dy);
    }
    assert(0 <= column * w <= 15 * w) by (nonlinear_arith)
        requires
            0 <= column <= 15,
            w > 0,
    ;
    if column >= 1 {
        assert(column * w >= w) by (nonlinear_arith)
            requires
                column >= 1,
                w > 0,
        ;
    }
    if dx < w - w / 2 {
        lemma_div_stride(column, w, dx + w / 2);
    } else {
        assert((column + 1) * w == column * w + w) by (nonlinear_arith);
        lemma_div_stride(column + 1, w, dx + w / 2 - w);
    }
}

} // verus!
