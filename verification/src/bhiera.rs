//! The model behind a hex view: a byte source, a layout, the scroll offset
//! and the selection.

use crate::data_provider::DataProvider;
use crate::geometry::Geometry;
use crate::layout::{lemma_rows_in_viewport, Layout};
use crate::view::Picture;
use vstd::prelude::*;

verus! {

/// The state of one hex view over a byte source of type `P`. It shows
/// nothing until a layout and a byte source have been set.
pub struct Bhiera<P: DataProvider> {
    data_provider: Option<P>,
    geometry: Option<Geometry>,
    view_y: u32,
    selection_begin: usize,
    selection_end: usize,
}

/// What a [`Bhiera`] stands for.
pub struct State<P> {
    /// The byte source, once one has been set.
    pub provider: Option<P>,
    /// The layout, once one has been set.
    pub layout: Option<Layout>,
    /// The scroll offset that pointer positions are taken from.
    pub view_y: u32,
    /// The byte at which the selection starts.
    pub selection_begin: usize,
    /// The byte at which the selection ends, and at which the cursor stands.
    pub selection_end: usize,
}

/// What a hex view offers to the window that shows it.
pub trait Model {
    /// The kind of byte source that the view reads from.
    type Provider: DataProvider;

    /// Takes `provider` as the source of the bytes.
    fn set_data_provider(&mut self, provider: Self::Provider);

    /// The view of the viewport of `view_height` pixels that is scrolled
    /// down by `view_start` pixels.
    fn get_view(&self, view_start: u32, view_height: u32) -> Option<crate::view::View>
        requires
            view_height <= i32::MAX,
    ;

    /// Notes that the view is scrolled down by `y` pixels.
    fn set_view_y(&mut self, y: u32);

    /// Starts the selection at the byte under the pixel `x`, `y` of the
    /// viewport.
    fn set_selection_begin(&mut self, x: i32, y: i32);

    /// Ends the selection at the byte under the pixel `x`, `y` of the
    /// viewport.
    fn set_selection_end(&mut self, x: i32, y: i32);
}

/// A pixel coordinate of the pointer, with a position before the viewport
/// taken to its edge.
pub open spec fn clamped(coordinate: i32) -> int {
    if coordinate < 0 {
        0
    } else {
        coordinate as int
    }
}

impl<P: DataProvider> State<P> {
    /// The bytes that a viewport shows: what the byte source hands out from
    /// the first visible byte on, when asked for as many bytes as the
    /// viewport holds, cut to that number; none where the source hands out
    /// nothing.
    pub open spec fn visible_bytes(self, view_start: u32, view_height: u32) -> Seq<u8>
        recommends
            self.provider is Some,
            self.layout is Some,
    {
        let layout = self.layout->0;
        let first = layout.byte_offset_for_scroll(view_start as int);
        let capacity = layout.capacity(view_height as int);
        let count = if capacity <= usize::MAX {
            capacity
        } else {
            usize::MAX as int
        };
        if first > usize::MAX {
            Seq::empty()
        } else {
            match self.provider->0.read(first as usize, count as usize) {
                Some(bytes) => if bytes.len() <= count {
                    bytes
                } else {
                    bytes.take(count)
                },
                None => Seq::empty(),
            }
        }
    }

    /// What the view of a viewport consists of.
    pub open spec fn picture(self, view_start: u32, view_height: u32) -> Picture
        recommends
            self.provider is Some,
            self.layout is Some,
    {
        Picture {
            elements: self.layout->0.scene(
                view_start as int,
                view_height as int,
                self.selection_begin as int,
                self.selection_end as int,
                self.visible_bytes(view_start, view_height),
            ),
            cursors: self.layout->0.cursor(
                view_start as int,
                view_height as int,
                self.selection_end as int,
            ),
        }
    }

    /// The byte that a pointer position selects: the one under the pixel,
    /// where a layout has been set and the machine can hold its index.
    pub open spec fn pointed(self, x: i32, y: i32) -> Option<usize> {
        match self.layout {
            Some(layout) => {
                let index = layout.pixel_to_byte(self.view_y as int, clamped(x), clamped(y));
                if index <= usize::MAX {
                    Some(index as usize)
                } else {
                    None
                }
            },
            None => None,
        }
    }
}

impl<P: DataProvider> View for Bhiera<P> {
    type V = State<P>;

    closed spec fn view(&self) -> State<P> {
        State {
            provider: self.data_provider,
            layout: match self.geometry {
                Some(geometry) => Some(geometry@),
                None => None,
            },
            view_y: self.view_y,
            selection_begin: self.selection_begin,
            selection_end: self.selection_end,
        }
    }
}

impl<P: DataProvider> Bhiera<P> {
    /// A hex view without layout and without byte source, not scrolled, with
    /// an empty selection at the first byte.
    pub fn new() -> (model: Self)
        ensures
            model@ == (State::<P> {
                provider: None,
                layout: None,
                view_y: 0,
                selection_begin: 0,
                selection_end: 0,
            }),
    {
        Self { data_provider: None, geometry: None, view_y: 0, selection_begin: 0, selection_end: 0 }
    }

    /// Takes `geometry` as the layout.
    pub fn set_geometry(&mut self, geometry: &Geometry)
        ensures
            final(self)@ == (State { layout: Some(geometry@), ..old(self)@ }),
    {
        self.geometry = Some(*geometry);
    }

    /// The byte that a pointer position selects.
    fn pointed_byte(&self, x: i32, y: i32) -> (index: Option<usize>)
        ensures
            index == self@.pointed(x, y),
    {
        match &self.geometry {
            Some(geometry) => {
                let px: u32 = if x < 0 {
                    0
                } else {
                    x as u32
                };
                let py: u32 = if y < 0 {
                    0
                } else {
                    y as u32
                };
                let index = geometry.byte_at(self.view_y, px, py);
                if index <= usize::MAX as u64 {
                    Some(index as usize)
                } else {
                    None
                }
            },
            None => None,
        }
    }
}

impl<P: DataProvider> Model for Bhiera<P> {
    type Provider = P;

    fn set_data_provider(&mut self, provider: P)
        ensures
            final(self)@ == (State { provider: Some(provider), ..old(self)@ }),
    {
        self.data_provider = Some(provider);
    }

    fn get_view(&self, view_start: u32, view_height: u32) -> (view: Option<crate::view::View>)
        ensures
            view is Some <==> self@.provider is Some && self@.layout is Some,
            view matches Some(v) ==> v@ == self@.picture(view_start, view_height),
    {
        match (&self.data_provider, &self.geometry) {
            (Some(provider), Some(geometry)) => {
                let first = geometry.first_byte(view_start);
                let capacity = geometry.capacity(view_height);
                let count: usize = if capacity <= usize::MAX as u64 {
                    capacity as usize
                } else {
                    usize::MAX
                };
                let none: Vec<u8> = Vec::new();
                let bytes: &[u8] = if first > usize::MAX as u64 {
                    none.as_slice()
                } else {
                    match provider.get(first as usize, count) {
                        Some(bytes) => if bytes.len() <= count {
                            bytes
                        } else {
                            vstd::slice::slice_subrange(bytes, 0, count)
                        },
                        None => none.as_slice(),
                    }
                };
                proof {
                    if bytes@.len() > 0 {
                        lemma_rows_in_viewport(geometry@, view_height as int, bytes@.len() as int);
                    }
                }
                Some(
                    geometry.render(
                        view_start,
                        view_height,
                        self.selection_begin,
                        self.selection_end,
                        bytes,
                    ),
                )
            },
            _ => None,
        }
    }

    fn set_view_y(&mut self, y: u32)
        ensures
            final(self)@ == (State { view_y: y, ..old(self)@ }),
    {
        self.view_y = y;
    }

    fn set_selection_begin(&mut self, x: i32, y: i32)
        ensures
            final(self)@ == (State {
                selection_begin: match old(self)@.pointed(x, y) {
                    Some(index) => index,
                    None => old(self)@.selection_begin,
                },
                ..old(self)@
            }),
    {
        match self.pointed_byte(x, y) {
            Some(index) => {
                self.selection_begin = index;
            },
            None => {},
        }
    }

    fn set_selection_end(&mut self, x: i32, y: i32)
        ensures
            final(self)@ == (State {
                selection_end: match old(self)@.pointed(x, y) {
                    Some(index) => index,
                    None => old(self)@.selection_end,
                },
                ..old(self)@
            }),
    {
        match self.pointed_byte(x, y) {
            Some(index) => {
                self.selection_end = index;
            },
            None => {},
        }
    }
}

} // verus!
