//! The model of the element generator: which primitives make up a view, and
//! in which order.

use crate::element::{Drawable, Rgb};
use crate::hex::{glyph, hex_upper};
use crate::layout::{Layout, Rect};
use vstd::prelude::*;

verus! {

/// Colour of the background.
pub const PAPER: Rgb = (255, 255, 255);

/// Colour of the background of the offset column.
pub const OFFSET_PAPER: Rgb = (224, 224, 224);

/// Colour of the selection highlight.
pub const HIGHLIGHT: Rgb = (0, 220, 220);

/// Colour of the offset labels.
pub const OFFSET_INK: Rgb = (117, 117, 117);

/// Colour of the hex and character labels.
pub const INK: Rgb = (0, 0, 0);

/// Least number of digits of an offset label.
pub const OFFSET_DIGITS: usize = 8;

/// Number of digits of a hex label.
pub const BYTE_DIGITS: usize = 2;

/// The filled rectangle that highlights `rect`.
pub open spec fn highlight(rect: Rect) -> Drawable {
    Drawable::Rectangle {
        x: rect.x,
        y: rect.y,
        width: rect.width,
        height: rect.height,
        color: HIGHLIGHT,
    }
}

/// The filled rectangles that highlight `rects`, in their order.
pub open spec fn highlights(rects: Seq<Rect>) -> Seq<Drawable> {
    Seq::new(rects.len(), |i: int| highlight(rects[i]))
}

impl Layout {
    /// The background of a view of the given height.
    pub open spec fn background(self, height: int) -> Drawable {
        Drawable::Rectangle { x: 0, y: 0, width: self.total_width(), height, color: PAPER }
    }

    /// The background of the offset column of a view of the given height.
    pub open spec fn offset_background(self, height: int) -> Drawable {
        Drawable::Rectangle {
            x: 0,
            y: 0,
            width: self.offset_column_width,
            height,
            color: OFFSET_PAPER,
        }
    }

    /// The offset label of a row of a view whose first byte is `offset`.
    pub open spec fn offset_label(self, offset: int, row: int) -> Drawable {
        Drawable::Text {
            content: hex_upper((offset + row * 16) as nat, OFFSET_DIGITS as nat),
            x: 0,
            y: self.row_y(row),
            color: OFFSET_INK,
        }
    }

    /// The offset labels of a view of `size` bytes whose first byte is
    /// `offset`: one for each row that holds a byte.
    pub open spec fn offset_labels(self, offset: int, size: int) -> Seq<Drawable> {
        Seq::new(self.row_count(size) as nat, |row: int| self.offset_label(offset, row))
    }

    /// The hex label of the byte at `index` of a view.
    pub open spec fn hex_label(self, index: int, byte: u8) -> Drawable {
        Drawable::Text {
            content: hex_upper(byte as nat, BYTE_DIGITS as nat),
            x: self.hex_rect(index).x,
            y: self.hex_rect(index).y,
            color: INK,
        }
    }

    /// The character label of the byte at `index` of a view.
    pub open spec fn char_label(self, index: int, byte: u8) -> Drawable {
        Drawable::Text {
            content: seq![glyph(byte)],
            x: self.char_rect(index).x,
            y: self.char_rect(index).y,
            color: INK,
        }
    }

    /// The hex labels of the bytes of a view, in their order.
    pub open spec fn hex_labels(self, bytes: Seq<u8>) -> Seq<Drawable> {
        Seq::new(bytes.len(), |i: int| self.hex_label(i, bytes[i]))
    }

    /// The character labels of the bytes of a view, in their order.
    pub open spec fn char_labels(self, bytes: Seq<u8>) -> Seq<Drawable> {
        Seq::new(bytes.len(), |i: int| self.char_label(i, bytes[i]))
    }

    /// The labels of the bytes of a view: all hex labels, then all character
    /// labels.
    pub open spec fn text(self, bytes: Seq<u8>) -> Seq<Drawable> {
        self.hex_labels(bytes) + self.char_labels(bytes)
    }

    /// The two backgrounds of a view.
    pub open spec fn backgrounds(self, viewport_height: int) -> Seq<Drawable> {
        seq![self.background(viewport_height), self.offset_background(viewport_height)]
    }

    /// All elements of a view that shows `bytes` from the first visible row
    /// on: the backgrounds first, then the selection highlight, then the
    /// labels, so that what comes later is drawn on top.
    pub open spec fn scene(
        self,
        scroll_y: int,
        viewport_height: int,
        begin: int,
        end: int,
        bytes: Seq<u8>,
    ) -> Seq<Drawable> {
        self.backgrounds(viewport_height) + highlights(
            self.selection(scroll_y, viewport_height, begin, end),
        ) + self.offset_labels(self.byte_offset_for_scroll(scroll_y), bytes.len() as int)
            + self.text(bytes)
    }
}

/// The highlight has a colour of its own: it differs from both backgrounds
/// and from the colours of the labels.
pub proof fn lemma_highlight_colour_distinct()
    ensures
        HIGHLIGHT != PAPER,
        HIGHLIGHT != OFFSET_PAPER,
        HIGHLIGHT != INK,
        HIGHLIGHT != OFFSET_INK,
        PAPER != OFFSET_PAPER,
{
}

/// A view has two backgrounds, at most six highlight rectangles, one offset
/// label for each row that holds a byte and two labels for each byte.
pub proof fn lemma_scene_len(
    layout: Layout,
    scroll_y: int,
    viewport_height: int,
    begin: int,
    end: int,
    bytes: Seq<u8>,
)
    ensures
        layout.scene(scroll_y, viewport_height, begin, end, bytes).len() == 2 + layout.selection(
            scroll_y,
            viewport_height,
            begin,
            end,
        ).len() + (bytes.len() + 15) / 16 + 2 * bytes.len(),
        layout.selection(scroll_y, viewport_height, begin, end).len() <= 6,
{
}

/// Without bytes a view consists of its two backgrounds and the selection
/// highlight: it has no label.
pub proof fn lemma_scene_without_bytes(
    layout: Layout,
    scroll_y: int,
    viewport_height: int,
    begin: int,
    end: int,
)
    ensures
        layout.scene(scroll_y, viewport_height, begin, end, Seq::empty())
            == layout.backgrounds(viewport_height) + highlights(
            layout.selection(scroll_y, viewport_height, begin, end),
        ),
        layout.scene(scroll_y, viewport_height, begin, end, Seq::empty()).len() == 2
            + layout.selection(scroll_y, viewport_height, begin, end).len(),
{
    let bytes = Seq::<u8>::empty();
    assert(layout.offset_labels(layout.byte_offset_for_scroll(scroll_y), 0) =~= Seq::empty());
    assert(layout.text(bytes) =~= Seq::empty());
    assert(layout.scene(scroll_y, viewport_height, begin, end, bytes) =~= layout.backgrounds(
        viewport_height,
    ) + highlights(layout.selection(scroll_y, viewport_height, begin, end)));
}

/// A view has one offset label for each row that holds a byte, and one hex
/// label and one character label for each byte: a last row that is not full
/// is not filled up.
pub proof fn lemma_label_counts(layout: Layout, offset: int, bytes: Seq<u8>)
    ensures
        layout.offset_labels(offset, bytes.len() as int).len() == (bytes.len() + 15) / 16,
        layout.hex_labels(bytes).len() == bytes.len(),
        layout.char_labels(bytes).len() == bytes.len(),
        layout.text(bytes).len() == 2 * bytes.len(),
{
}

} // verus!
