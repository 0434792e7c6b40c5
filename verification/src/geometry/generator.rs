//! The drawable primitives of a view.

use super::Geometry;
use crate::element::{drawables, lemma_drawables_concat, lemma_drawables_push, Element};
use crate::hex::{format_hex, glyph_text};
use crate::layout::{
    lemma_cells_in_columns, lemma_cells_ordered, lemma_visible_rows_fit, rect_of, rects, row_of,
};
use crate::scene::{
    highlights, BYTE_DIGITS, HIGHLIGHT, INK, OFFSET_DIGITS, OFFSET_INK, OFFSET_PAPER, PAPER,
};
use crate::selection::{lemma_row_y_monotonic, lemma_shows_iff_in_range, CURSOR_WIDTH};
use crate::view::Picture;
use std::collections::VecDeque;
use vstd::prelude::*;

verus! {

impl Geometry {
    /// The background of a view of the given height.
    pub fn bg(&self, height: u32) -> (e: Element)
        requires
            height <= i32::MAX,
        ensures
            e@ == self@.background(height as int),
    {
        proof {
            use_type_invariant(self);
        }
        Element::rectangle(0, 0, self.width as i32, height as i32, PAPER)
    }

    /// The background of the offset column of a view of the given height.
    pub fn offset_view_bg(&self, height: u32) -> (e: Element)
        requires
            height <= i32::MAX,
        ensures
            e@ == self@.offset_background(height as int),
    {
        proof {
            use_type_invariant(self);
        }
        Element::rectangle(0, 0, self.offset_view_width as i32, height as i32, OFFSET_PAPER)
    }

    /// The cursor markers for the byte `current_byte`, as tuples of left
    /// edge, top edge, width and height: one over its hex cell and one over
    /// its character cell where the viewport shows its row, none otherwise.
    pub fn calc_cursor(&self, view_start: u32, view_height: u32, current_byte: usize) -> (cursors:
        Vec<(u32, u32, u32, u32)>)
        ensures
            rects(cursors@) == self@.cursor(
                view_start as int,
                view_height as int,
                current_byte as int,
            ),
            cursors@.len() == (if self@.shows(
                view_start as int,
                view_height as int,
                current_byte as int,
            ) {
                2nat
            } else {
                0nat
            }),
    {
        proof {
            use_type_invariant(self);
            lemma_shows_iff_in_range(
                self@,
                view_start as int,
                view_height as int,
                current_byte as int,
            );
        }
        let byte_offset = self.first_byte(view_start);
        let capacity = self.capacity(view_height);
        let current = current_byte as u64;
        let mut cursors = Vec::new();
        if current >= byte_offset && current - byte_offset < capacity {
            let index = current - byte_offset;
            proof {
                let h = self.char_height as int;
                let rows = self@.visible_row_count(view_height as int);
                assert(row_of(index as int) + 1 <= rows);
                assert(row_of(index as int) * h + h <= rows * h) by (nonlinear_arith)
                    requires
                        row_of(index as int) + 1 <= rows,
                        h > 0,
                ;
                lemma_visible_rows_fit(self@, view_height as int);
            }
            let hex = self.hex_cell(index);
            let chr = self.char_cell(index);
            cursors.push((hex.0, hex.1, CURSOR_WIDTH, self.char_height));
            cursors.push((chr.0, chr.1, CURSOR_WIDTH, self.char_height));
            assert(rects(cursors@) =~= self@.cursor(
                view_start as int,
                view_height as int,
                current_byte as int,
            ));
        } else {
            assert(rects(cursors@) =~= self@.cursor(
                view_start as int,
                view_height as int,
                current_byte as int,
            ));
        }
        cursors
    }

    /// Appends the highlight that covers the cells from `first` to `last` in
    /// a column that reaches from `left` to `right`.
    fn cover(
        &self,
        elements: &mut VecDeque<Element>,
        first: (u32, u32, u32, u32),
        last: (u32, u32, u32, u32),
        left: u32,
        right: u32,
    )
        requires
            left <= first.0 <= right <= i32::MAX,
            left <= last.0,
            last.0 + last.2 <= right,
            first.1 <= last.1,
            last.1 + self@.cell_height <= i32::MAX,
            first.1 == last.1 ==> first.0 <= last.0,
            first.1 != last.1 ==> first.1 + self@.cell_height <= last.1,
        ensures
            drawables(final(elements)@) == drawables(old(elements)@) + highlights(
                self@.cover(rect_of(first), rect_of(last), left as int, right as int),
            ),
    {
        proof {
            use_type_invariant(self);
        }
        let ghost before = drawables(elements@);
        let ghost added = highlights(
            self@.cover(rect_of(first), rect_of(last), left as int, right as int),
        );
        let height = self.char_height;
        if first.1 == last.1 {
            let one = Element::rectangle(
                first.0 as i32,
                first.1 as i32,
                (last.0 + last.2 - first.0) as i32,
                height as i32,
                HIGHLIGHT,
            );
            proof {
                lemma_drawables_push(elements@, one);
                assert(before.push(one@) =~= before + added);
            }
            elements.push_back(one);
        } else {
            let head = Element::rectangle(
                first.0 as i32,
                first.1 as i32,
                (right - first.0) as i32,
                height as i32,
                HIGHLIGHT,
            );
            let tail = Element::rectangle(
                left as i32,
                last.1 as i32,
                (last.0 + last.2 - left) as i32,
                height as i32,
                HIGHLIGHT,
            );
            let between = last.1 - first.1 - height;
            if between > 0 {
                let body = Element::rectangle(
                    left as i32,
                    (first.1 + height) as i32,
                    (right - left) as i32,
                    between as i32,
                    HIGHLIGHT,
                );
                proof {
                    lemma_drawables_push(elements@, head);
                    lemma_drawables_push(elements@.push(head), body);
                    lemma_drawables_push(elements@.push(head).push(body), tail);
                    assert(before.push(head@).push(body@).push(tail@) =~= before + added);
                }
                elements.push_back(head);
                elements.push_back(body);
                elements.push_back(tail);
            } else {
                proof {
                    lemma_drawables_push(elements@, head);
                    lemma_drawables_push(elements@.push(head), tail);
                    assert(before.push(head@).push(tail@) =~= before + added);
                }
                elements.push_back(head);
                elements.push_back(tail);
            }
        }
    }

    /// The highlight of the selection between the bytes `selection_begin`
    /// and `selection_end`, which may come in either order: for the part of
    /// it that the viewport shows, the rectangles in the hex column, then
    /// those in the character column.
    pub fn selection(
        &self,
        view_start: u32,
        view_height: u32,
        selection_begin: usize,
        selection_end: usize,
    ) -> (elements: VecDeque<Element>)
        requires
            view_height <= i32::MAX,
        ensures
            drawables(elements@) == highlights(
                self@.selection(
                    view_start as int,
                    view_height as int,
                    selection_begin as int,
                    selection_end as int,
                ),
            ),
            elements@.len() == self@.selection(
                view_start as int,
                view_height as int,
                selection_begin as int,
                selection_end as int,
            ).len(),
            selection_begin == selection_end ==> elements@.len() == 0,
            elements@.len() <= 6,
    {
        proof {
            use_type_invariant(self);
        }
        let ghost span = self@.visible_span(
            view_start as int,
            view_height as int,
            selection_begin as int,
            selection_end as int,
        );
        let mut elements: VecDeque<Element> = VecDeque::new();
        let (lo, hi) = if selection_begin <= selection_end {
            (selection_begin as u64, selection_end as u64)
        } else {
            (selection_end as u64, selection_begin as u64)
        };
        let byte_offset = self.first_byte(view_start);
        let capacity = self.capacity(view_height);
        let visible_begin = if lo >= byte_offset {
            lo
        } else {
            byte_offset
        };
        let visible_end = if hi <= byte_offset + capacity {
            hi
        } else {
            byte_offset + capacity
        };
        if visible_begin >= visible_end {
            assert(span.is_empty());
            assert(drawables(elements@) =~= highlights(
                self@.selection(
                    view_start as int,
                    view_height as int,
                    selection_begin as int,
                    selection_end as int,
                ),
            ));
            return elements;
        }
        let first = visible_begin - byte_offset;
        let last = visible_end - byte_offset - 1;
        assert(span.lo == first && span.hi == last + 1);
        proof {
            let h = self.char_height as int;
            let rows = self@.visible_row_count(view_height as int);
            assert(row_of(last as int) + 1 <= rows);
            assert(row_of(last as int) * h + h <= rows * h) by (nonlinear_arith)
                requires
                    row_of(last as int) + 1 <= rows,
                    h > 0,
            ;
            lemma_visible_rows_fit(self@, view_height as int);
            lemma_cells_in_columns(self@, first as int);
            lemma_cells_in_columns(self@, last as int);
            lemma_cells_ordered(self@, first as int, last as int);
            lemma_row_y_monotonic(
                self@,
                row_of(first as int),
                row_of(last as int),
            );
        }
        let ghost hex = highlights(self@.hex_cover(span));
        let ghost chr = highlights(self@.char_cover(span));
        self.cover(
            &mut elements,
            self.hex_cell(first),
            self.hex_cell(last),
            self.hex_view_start,
            self.hex_view_end,
        );
        assert(drawables(elements@) =~= hex);
        self.cover(
            &mut elements,
            self.char_cell(first),
            self.char_cell(last),
            self.char_view_start,
            self.char_view_end,
        );
        assert(drawables(elements@) =~= hex + chr);
        assert(hex + chr =~= highlights(self@.hex_cover(span) + self@.char_cover(span)));
        elements
    }

    /// The offset labels of a view of `size` bytes whose first byte is
    /// `offset`.
    fn offset_labels(&self, offset: u64, size: usize) -> (elements: VecDeque<Element>)
        requires
            self@.rows_drawable(size as int),
            size > 0 ==> offset + row_of(size - 1) * 16 <= u64::MAX,
        ensures
            drawables(elements@) == self@.offset_labels(offset as int, size as int),
            elements@.len() == self@.row_count(size as int),
    {
        proof {
            use_type_invariant(self);
        }
        let rows: usize = size / 16 + if size % 16 == 0 {
            0
        } else {
            1
        };
        assert(rows == self@.row_count(size as int));
        let mut elements: VecDeque<Element> = VecDeque::new();
        let mut line: usize = 0;
        while line < rows
            invariant
                line <= rows,
                rows == self@.row_count(size as int),
                self@.valid(),
                self@.rows_drawable(size as int),
                size > 0 ==> offset + row_of(size - 1) * 16 <= u64::MAX,
                elements@.len() == line,
                forall|row: int|
                    0 <= row < line ==> (#[trigger] elements@[row])@ == self@.offset_label(
                        offset as int,
                        row,
                    ),
            decreases rows - line,
        {
            proof {
                let h = self.char_height as int;
                let bottom = row_of(size - 1);
                assert(line <= bottom);
                assert(line * h <= bottom * h) by (nonlinear_arith)
                    requires
                        line <= bottom,
                        h > 0,
                ;
                assert(0 <= line * h) by (nonlinear_arith)
                    requires
                        line >= 0,
                        h > 0,
                ;
                assert(line <= line * h) by (nonlinear_arith)
                    requires
                        line >= 0,
                        h >= 1,
                ;
            }
            let text = format_hex(offset + (line as u64) * 16, OFFSET_DIGITS);
            let y = (line as u32) * self.char_height;
            let label = Element::byte(text, 0, y as i32, OFFSET_INK);
            elements.push_back(label);
            line = line + 1;
        }
        assert(drawables(elements@) =~= self@.offset_labels(offset as int, size as int));
        elements
    }

    /// The offset labels of a view of `size` bytes whose first byte is
    /// `offset`: for each row that holds a byte, the index of its first byte
    /// as an upper-case hexadecimal numeral of at least eight digits, at the
    /// left edge of the row.
    pub fn offsets(&self, offset: usize, size: usize) -> (elements: VecDeque<Element>)
        requires
            self@.rows_drawable(size as int),
            size > 0 ==> offset + row_of(size - 1) * 16 <= usize::MAX,
        ensures
            drawables(elements@) == self@.offset_labels(offset as int, size as int),
            elements@.len() == self@.row_count(size as int),
    {
        self.offset_labels(offset as u64, size)
    }

    /// The labels of the bytes of a view: for each byte its value as two
    /// upper-case hexadecimal digits in its hex cell, then for each byte its
    /// glyph in its character cell.
    pub fn text(&self, bytes: &[u8]) -> (elements: VecDeque<Element>)
        requires
            self@.rows_drawable(bytes@.len() as int),
        ensures
            drawables(elements@) == self@.text(bytes@),
            elements@.len() == 2 * bytes@.len(),
    {
        proof {
            use_type_invariant(self);
        }
        let count = bytes.len();
        let mut elements: VecDeque<Element> = VecDeque::new();
        let mut i: usize = 0;
        while i < count
            invariant
                i <= count == bytes@.len(),
                self@.drawable(),
                self@.rows_drawable(count as int),
                elements@.len() == i,
                forall|k: int|
                    0 <= k < i ==> (#[trigger] elements@[k])@ == self@.hex_label(k, bytes@[k]),
            decreases count - i,
        {
            proof {
                lemma_cells_in_columns(self@, i as int);
                lemma_cells_ordered(self@, i as int, count - 1);
            }
            let cell = self.hex_cell(i as u64);
            let text = format_hex(bytes[i] as u64, BYTE_DIGITS);
            let label = Element::byte(text, cell.0 as i32, cell.1 as i32, INK);
            elements.push_back(label);
            i = i + 1;
        }
        let mut i: usize = 0;
        while i < count
            invariant
                i <= count == bytes@.len(),
                self@.drawable(),
                self@.rows_drawable(count as int),
                elements@.len() == count + i,
                forall|k: int|
                    0 <= k < count ==> (#[trigger] elements@[k])@ == self@.hex_label(k, bytes@[k]),
                forall|k: int|
                    count <= k < count + i ==> (#[trigger] elements@[k])@ == self@.char_label(
                        k - count,
                        bytes@[k - count],
                    ),
            decreases count - i,
        {
            proof {
                lemma_cells_in_columns(self@, i as int);
                lemma_cells_ordered(self@, i as int, count - 1);
            }
            let cell = self.char_cell(i as u64);
            let text = glyph_text(bytes[i]);
            let label = Element::byte(text, cell.0 as i32, cell.1 as i32, INK);
            elements.push_back(label);
            i = i + 1;
        }
        assert(drawables(elements@) =~= self@.text(bytes@));
        elements
    }

    /// The view of `bytes`, the bytes from the first visible row on, in a
    /// viewport of `view_height` pixels that is scrolled down by `view_start`
    /// pixels: the backgrounds, the highlight of the selection, the offset
    /// labels and the labels of the bytes, in this order, and the cursor
    /// markers for the byte `selection_end`.
    pub fn render(
        &self,
        view_start: u32,
        view_height: u32,
        selection_begin: usize,
        selection_end: usize,
        bytes: &[u8],
    ) -> (view: crate::view::View)
        requires
            view_height <= i32::MAX,
            self@.rows_drawable(bytes@.len() as int),
        ensures
            view@ == (Picture {
                elements: self@.scene(
                    view_start as int,
                    view_height as int,
                    selection_begin as int,
                    selection_end as int,
                    bytes@,
                ),
                cursors: self@.cursor(view_start as int, view_height as int, selection_end as int),
            }),
    {
        proof {
            use_type_invariant(self);
        }
        let mut elements: VecDeque<Element> = VecDeque::new();
        let paper = self.bg(view_height);
        let offset_paper = self.offset_view_bg(view_height);
        proof {
            lemma_drawables_push(elements@, paper);
            lemma_drawables_push(elements@.push(paper), offset_paper);
        }
        elements.push_back(paper);
        elements.push_back(offset_paper);
        assert(drawables(elements@) =~= self@.backgrounds(view_height as int));

        let mut highlight = self.selection(view_start, view_height, selection_begin, selection_end);
        proof {
            lemma_drawables_concat(elements@, highlight@);
        }
        elements.append(&mut highlight);

        let first = self.first_byte(view_start);
        proof {
            let size = bytes@.len() as int;
            if size > 0 {
                let h = self.char_height as int;
                let bottom = row_of(size - 1);
                assert(bottom <= bottom * h) by (nonlinear_arith)
                    requires
                        bottom >= 0,
                        h >= 1,
                ;
            }
        }
        let mut labels = self.offset_labels(first, bytes.len());
        proof {
            lemma_drawables_concat(elements@, labels@);
        }
        elements.append(&mut labels);

        let mut text = self.text(bytes);
        proof {
            lemma_drawables_concat(elements@, text@);
        }
        elements.append(&mut text);

        let cursors = self.calc_cursor(view_start, view_height, selection_end);
        crate::view::View::new(elements, cursors)
    }
}

} // verus!
