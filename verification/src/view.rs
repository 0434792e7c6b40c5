//! The output of one render request.

use crate::element::{drawables, Drawable, Element};
use crate::layout::{rects, Rect};
use std::collections::VecDeque;
use vstd::prelude::*;
use vstd::std_specs::iter::IteratorSpec;
use vstd::view::View as _;

verus! {

/// What a [`View`] stands for: the primitives to draw, in drawing order, and
/// the rectangles of the cursor markers.
pub struct Picture {
    pub elements: Seq<Drawable>,
    pub cursors: Seq<Rect>,
}

/// An ordered sequence of elements and the rectangles of the cursor markers,
/// made anew for each render request.
#[derive(Debug)]
pub struct View {
    elements: VecDeque<Element>,
    cursors: Vec<(u32, u32, u32, u32)>,
}

impl vstd::view::View for View {
    type V = Picture;

    open spec fn view(&self) -> Picture {
        Picture { elements: drawables(self.element_seq()), cursors: rects(self.cursor_seq()) }
    }
}

impl View {
    /// The elements, in drawing order.
    pub closed spec fn element_seq(&self) -> Seq<Element> {
        self.elements@
    }

    /// The cursor markers as tuples of left edge, top edge, width and height.
    pub closed spec fn cursor_seq(&self) -> Seq<(u32, u32, u32, u32)> {
        self.cursors@
    }

    /// A view of the given elements and cursor markers.
    pub fn new(elements: VecDeque<Element>, cursors: Vec<(u32, u32, u32, u32)>) -> (v: Self)
        ensures
            v.element_seq() == elements@,
            v.cursor_seq() == cursors@,
            v@ == (Picture { elements: drawables(elements@), cursors: rects(cursors@) }),
    {
        View { elements, cursors }
    }

    /// Walks the cursor markers in their order.
    pub fn cursors(&self) -> (it: std::slice::Iter<'_, (u32, u32, u32, u32)>)
        ensures
            it.remaining() == self.cursor_seq().as_ref(),
            it.decrease() is Some,
            it.initial_value_relation(&it),
    {
        broadcast use vstd::std_specs::slice::axiom_spec_slice_iter;

        self.cursors.as_slice().iter()
    }

    /// Walks the elements in drawing order.
    pub fn elements(&self) -> (it: std::collections::vec_deque::Iter<'_, Element>)
        ensures
            it.remaining() == self.element_seq().as_ref(),
            it.decrease() is Some,
            it.initial_value_relation(&it),
    {
        broadcast use vstd::std_specs::vecdeque::axiom_spec_iter;

        self.elements.iter()
    }
}

} // verus!
