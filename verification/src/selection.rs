//! The model of the selection highlight and of the cursor marker.

use crate::layout::{
    lemma_cells_in_columns, lemma_cells_ordered, lemma_rows_in_viewport, row_of, Layout, Rect,
};
use vstd::prelude::*;

verus! {

/// Pixel width of a cursor marker.
pub const CURSOR_WIDTH: u32 = 2;

/// The smaller of two integers.
pub open spec fn min(a: int, b: int) -> int {
    if a <= b {
        a
    } else {
        b
    }
}

/// The larger of two integers.
pub open spec fn max(a: int, b: int) -> int {
    if a >= b {
        a
    } else {
        b
    }
}

/// A half-open range of byte indices, counted from the first visible byte.
pub struct Span {
    pub lo: int,
    pub hi: int,
}

impl Span {
    /// Whether the range holds no byte.
    pub open spec fn is_empty(self) -> bool {
        self.lo >= self.hi
    }

    /// The row of the first byte.
    pub open spec fn first_row(self) -> int {
        row_of(self.lo)
    }

    /// The row of the last byte.
    pub open spec fn last_row(self) -> int {
        row_of(self.hi - 1)
    }

    /// Number of rows that the range touches.
    pub open spec fn rows_spanned(self) -> int {
        self.last_row() - self.first_row() + 1
    }
}

impl Layout {
    /// The part of a selection that a viewport shows. The two ends of the
    /// selection may come in either order.
    pub open spec fn visible_span(
        self,
        scroll_y: int,
        viewport_height: int,
        begin: int,
        end: int,
    ) -> Span {
        let first = self.byte_offset_for_scroll(scroll_y);
        let lo = max(min(begin, end), first);
        let hi = min(max(begin, end), first + self.capacity(viewport_height));
        Span { lo: lo - first, hi: hi - first }
    }

    /// The rectangles that cover the cells from `first` to `last` in a column
    /// that reaches from `left` to `right`: one where both lie in one row;
    /// otherwise the rest of the first row, the whole rows between, if there
    /// are any, and the last row up to the end of `last`.
    pub open spec fn cover(self, first: Rect, last: Rect, left: int, right: int) -> Seq<Rect> {
        if first.y == last.y {
            seq![
                Rect {
                    x: first.x,
                    y: first.y,
                    width: last.x + last.width - first.x,
                    height: self.cell_height,
                },
            ]
        } else {
            let head = Rect {
                x: first.x,
                y: first.y,
                width: right - first.x,
                height: self.cell_height,
            };
            let body = Rect {
                x: left,
                y: first.y + self.cell_height,
                width: right - left,
                height: last.y - first.y - self.cell_height,
            };
            let tail = Rect {
                x: left,
                y: last.y,
                width: last.x + last.width - left,
                height: self.cell_height,
            };
            if body.height > 0 {
                seq![head, body, tail]
            } else {
                seq![head, tail]
            }
        }
    }

    /// The highlight of a range in the hex column.
    pub open spec fn hex_cover(self, span: Span) -> Seq<Rect> {
        if span.is_empty() {
            Seq::empty()
        } else {
            self.cover(
                self.hex_rect(span.lo),
                self.hex_rect(span.hi - 1),
                self.hex_column_start(),
                self.hex_column_end(),
            )
        }
    }

    /// The highlight of a range in the character column.
    pub open spec fn char_cover(self, span: Span) -> Seq<Rect> {
        if span.is_empty() {
            Seq::empty()
        } else {
            self.cover(
                self.char_rect(span.lo),
                self.char_rect(span.hi - 1),
                self.char_column_start(),
                self.char_column_end(),
            )
        }
    }

    /// The highlight of a selection in the hex column of a viewport.
    pub open spec fn hex_selection(
        self,
        scroll_y: int,
        viewport_height: int,
        begin: int,
        end: int,
    ) -> Seq<Rect> {
        self.hex_cover(self.visible_span(scroll_y, viewport_height, begin, end))
    }

    /// The highlight of a selection in the character column of a viewport.
    pub open spec fn char_selection(
        self,
        scroll_y: int,
        viewport_height: int,
        begin: int,
        end: int,
    ) -> Seq<Rect> {
        self.char_cover(self.visible_span(scroll_y, viewport_height, begin, end))
    }

    /// The highlight of a selection: the rectangles of the hex column, then
    /// those of the character column.
    pub open spec fn selection(
        self,
        scroll_y: int,
        viewport_height: int,
        begin: int,
        end: int,
    ) -> Seq<Rect> {
        self.hex_selection(scroll_y, viewport_height, begin, end) + self.char_selection(
            scroll_y,
            viewport_height,
            begin,
            end,
        )
    }

    /// Whether a viewport shows the row of a byte.
    pub open spec fn shows(self, scroll_y: int, viewport_height: int, index: int) -> bool {
        self.first_visible_row(scroll_y) <= row_of(index) < self.first_visible_row(scroll_y)
            + self.visible_row_count(viewport_height)
    }

    /// The cursor markers for the byte `current`: one at the left edge of its
    /// hex cell and one at the left edge of its character cell where the
    /// viewport shows its row, none otherwise.
    pub open spec fn cursor(self, scroll_y: int, viewport_height: int, current: int) -> Seq<Rect> {
        if self.shows(scroll_y, viewport_height, current) {
            let index = current - self.byte_offset_for_scroll(scroll_y);
            seq![
                Rect {
                    x: self.hex_rect(index).x,
                    y: self.hex_rect(index).y,
                    width: CURSOR_WIDTH as int,
                    height: self.cell_height,
                },
                Rect {
                    x: self.char_rect(index).x,
                    y: self.char_rect(index).y,
                    width: CURSOR_WIDTH as int,
                    height: self.cell_height,
                },
            ]
        } else {
            Seq::empty()
        }
    }
}

/// Two rows have the same top edge only where they are the same row, and a
/// lower row has the larger one.
pub proof fn lemma_row_y_monotonic(layout: Layout, a: int, b: int)
    requires
        layout.valid(),
    ensures
        a == b <==> layout.row_y(a) == layout.row_y(b),
        a < b <==> layout.row_y(a) < layout.row_y(b),
        layout.row_y(b) - layout.row_y(a) == (b - a) * layout.cell_height,
{
    let h = layout.cell_height;
    assert(b * h - a * h == (b - a) * h) by (nonlinear_arith);
    if a < b {
        assert((b - a) * h > 0) by (nonlinear_arith)
            requires
                b - a > 0,
                h > 0,
        ;
    }
    if b < a {
        assert((b - a) * h < 0) by (nonlinear_arith)
            requires
                b - a < 0,
                h > 0,
        ;
    }
}

/// An empty selection has no highlight in either column, wherever the
/// viewport stands.
pub proof fn lemma_empty_selection(layout: Layout, scroll_y: int, viewport_height: int, at: int)
    ensures
        layout.hex_selection(scroll_y, viewport_height, at, at).len() == 0,
        layout.char_selection(scroll_y, viewport_height, at, at).len() == 0,
        layout.selection(scroll_y, viewport_height, at, at).len() == 0,
{
}

/// A selection of which the viewport shows nothing has no highlight.
pub proof fn lemma_hidden_selection(
    layout: Layout,
    scroll_y: int,
    viewport_height: int,
    begin: int,
    end: int,
)
    requires
        layout.visible_span(scroll_y, viewport_height, begin, end).is_empty(),
    ensures
        layout.selection(scroll_y, viewport_height, begin, end).len() == 0,
{
}

/// The order of the two ends of a selection does not matter.
pub proof fn lemma_selection_symmetric(
    layout: Layout,
    scroll_y: int,
    viewport_height: int,
    begin: int,
    end: int,
)
    ensures
        layout.selection(scroll_y, viewport_height, begin, end) == layout.selection(
            scroll_y,
            viewport_height,
            end,
            begin,
        ),
{
    assert(layout.visible_span(scroll_y, viewport_height, begin, end) == layout.visible_span(
        scroll_y,
        viewport_height,
        end,
        begin,
    ));
}

/// A selection whose visible part lies within one row is highlighted by
/// exactly one rectangle per column, which reaches from the left edge of its
/// first cell to the right edge of its last.
pub proof fn lemma_single_row_selection(
    layout: Layout,
    scroll_y: int,
    viewport_height: int,
    begin: int,
    end: int,
)
    requires
        layout.valid(),
        !layout.visible_span(scroll_y, viewport_height, begin, end).is_empty(),
        layout.visible_span(scroll_y, viewport_height, begin, end).rows_spanned() == 1,
    ensures
        layout.hex_selection(scroll_y, viewport_height, begin, end).len() == 1,
        layout.char_selection(scroll_y, viewport_height, begin, end).len() == 1,
        layout.selection(scroll_y, viewport_height, begin, end).len() == 2,
        ({
            let span = layout.visible_span(scroll_y, viewport_height, begin, end);
            &&& layout.hex_selection(scroll_y, viewport_height, begin, end)[0] == (Rect {
                x: layout.hex_rect(span.lo).x,
                y: layout.row_y(span.first_row()),
                width: layout.hex_rect(span.hi - 1).x + layout.hex_cell_width - layout.hex_rect(
                    span.lo,
                ).x,
                height: layout.cell_height,
            })
            &&& layout.char_selection(scroll_y, viewport_height, begin, end)[0] == (Rect {
                x: layout.char_rect(span.lo).x,
                y: layout.row_y(span.first_row()),
                width: layout.char_rect(span.hi - 1).x + layout.cell_width - layout.char_rect(
                    span.lo,
                ).x,
                height: layout.cell_height,
            })
        }),
{
}

/// A selection whose visible part lies in two neighbouring rows is
/// highlighted by exactly two rectangles per column: there is no row between
/// them to fill.
pub proof fn lemma_two_row_selection(
    layout: Layout,
    scroll_y: int,
    viewport_height: int,
    begin: int,
    end: int,
)
    requires
        layout.valid(),
        !layout.visible_span(scroll_y, viewport_height, begin, end).is_empty(),
        layout.visible_span(scroll_y, viewport_height, begin, end).rows_spanned() == 2,
    ensures
        layout.hex_selection(scroll_y, viewport_height, begin, end).len() == 2,
        layout.char_selection(scroll_y, viewport_height, begin, end).len() == 2,
        layout.selection(scroll_y, viewport_height, begin, end).len() == 4,
{
    let span = layout.visible_span(scroll_y, viewport_height, begin, end);
    lemma_row_y_monotonic(layout, span.first_row(), span.last_row());
}

/// A selection whose visible part lies in three or more rows is highlighted
/// by exactly three rectangles per column. The middle one spans the column
/// from edge to edge and is as high as the rows strictly between the first
/// and the last.
pub proof fn lemma_multi_row_selection(
    layout: Layout,
    scroll_y: int,
    viewport_height: int,
    begin: int,
    end: int,
)
    requires
        layout.valid(),
        !layout.visible_span(scroll_y, viewport_height, begin, end).is_empty(),
        layout.visible_span(scroll_y, viewport_height, begin, end).rows_spanned() >= 3,
    ensures
        layout.hex_selection(scroll_y, viewport_height, begin, end).len() == 3,
        layout.char_selection(scroll_y, viewport_height, begin, end).len() == 3,
        layout.selection(scroll_y, viewport_height, begin, end).len() == 6,
        ({
            let span = layout.visible_span(scroll_y, viewport_height, begin, end);
            &&& layout.hex_selection(scroll_y, viewport_height, begin, end)[1] == (Rect {
                x: layout.hex_column_start(),
                y: layout.row_y(span.first_row() + 1),
                width: layout.hex_column_width(),
                height: (span.rows_spanned() - 2) * layout.cell_height,
            })
            &&& layout.char_selection(scroll_y, viewport_height, begin, end)[1] == (Rect {
                x: layout.char_column_start(),
                y: layout.row_y(span.first_row() + 1),
                width: layout.char_column_width(),
                height: (span.rows_spanned() - 2) * layout.cell_height,
            })
        }),
{
    let span = layout.visible_span(scroll_y, viewport_height, begin, end);
    let h = layout.cell_height;
    let a = span.first_row();
    let b = span.last_row();
    lemma_row_y_monotonic(layout, a, b);
    assert((b - a) * h - h == (b - a - 1) * h) by (nonlinear_arith);
    assert((b - a - 1) * h > 0) by (nonlinear_arith)
        requires
            b - a - 1 > 0,
            h > 0,
    ;
    assert((a + 1) * h == a * h + h) by (nonlinear_arith);
}

/// The cursor consists of exactly two markers where the viewport shows the
/// row of its byte, and of none otherwise.
pub proof fn lemma_cursor_count(layout: Layout, scroll_y: int, viewport_height: int, current: int)
    ensures
        layout.cursor(scroll_y, viewport_height, current).len() == (if layout.shows(
            scroll_y,
            viewport_height,
            current,
        ) {
            2nat
        } else {
            0nat
        }),
{
}

/// The viewport shows the row of a byte exactly where the byte lies among
/// the bytes that the viewport holds.
pub proof fn lemma_shows_iff_in_range(
    layout: Layout,
    scroll_y: int,
    viewport_height: int,
    index: int,
)
    ensures
        layout.shows(scroll_y, viewport_height, index) <==> layout.byte_offset_for_scroll(scroll_y)
            <= index < layout.byte_offset_for_scroll(scroll_y) + layout.capacity(viewport_height),
{
}

/// Whether a rectangle lies between the horizontal bounds `left` and `right`
/// and between the top of the view and the height `bottom`, with a width
/// that is not negative and a positive height.
pub open spec fn within(rect: Rect, left: int, right: int, bottom: int) -> bool {
    &&& left <= rect.x
    &&& 0 <= rect.width
    &&& rect.x + rect.width <= right
    &&& 0 <= rect.y
    &&& 0 < rect.height
    &&& rect.y + rect.height <= bottom
}

/// Every rectangle of the highlight lies within its column and within the
/// viewport.
pub proof fn lemma_selection_within_view(
    layout: Layout,
    scroll_y: int,
    viewport_height: int,
    begin: int,
    end: int,
)
    requires
        layout.valid(),
        viewport_height >= 0,
    ensures
        forall|i: int|
            0 <= i < layout.hex_selection(scroll_y, viewport_height, begin, end).len() ==> within(
                #[trigger] layout.hex_selection(scroll_y, viewport_height, begin, end)[i],
                layout.hex_column_start(),
                layout.hex_column_end(),
                viewport_height,
            ),
        forall|i: int|
            0 <= i < layout.char_selection(scroll_y, viewport_height, begin, end).len() ==> within(
                #[trigger] layout.char_selection(scroll_y, viewport_height, begin, end)[i],
                layout.char_column_start(),
                layout.char_column_end(),
                viewport_height,
            ),
{
    let span = layout.visible_span(scroll_y, viewport_height, begin, end);
    if !span.is_empty() {
        let first = span.lo;
        let last = span.hi - 1;
        lemma_rows_in_viewport(layout, viewport_height, span.hi);
        lemma_cells_in_columns(layout, first);
        lemma_cells_in_columns(layout, last);
        lemma_cells_ordered(layout, first, last);
        lemma_row_y_monotonic(layout, row_of(first), row_of(last));
    }
}

/// The cursor markers stand at the left edges of the cells of their byte, in
/// a row that lies within the viewport.
pub proof fn lemma_cursor_within_view(
    layout: Layout,
    scroll_y: int,
    viewport_height: int,
    current: int,
)
    requires
        layout.valid(),
        scroll_y >= 0,
        viewport_height >= 0,
        layout.shows(scroll_y, viewport_height, current),
    ensures
        layout.cursor(scroll_y, viewport_height, current).len() == 2,
        layout.hex_column_start() <= layout.cursor(scroll_y, viewport_height, current)[0].x
            <= layout.hex_column_end(),
        layout.char_column_start() <= layout.cursor(scroll_y, viewport_height, current)[1].x
            < layout.char_column_end(),
        forall|i: int|
            0 <= i < 2 ==> {
                let marker = #[trigger] layout.cursor(scroll_y, viewport_height, current)[i];
                &&& 0 <= marker.y
                &&& marker.y + marker.height <= viewport_height
                &&& marker.width == CURSOR_WIDTH
                &&& marker.height == layout.cell_height
            },
{
    let first = layout.byte_offset_for_scroll(scroll_y);
    let index = current - first;
    lemma_shows_iff_in_range(layout, scroll_y, viewport_height, current);
    lemma_rows_in_viewport(layout, viewport_height, index + 1);
    lemma_cells_in_columns(layout, index);
}

} // verus!
