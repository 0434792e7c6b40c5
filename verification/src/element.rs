//! Drawable primitives.

use vstd::prelude::*;

verus! {

/// An RGB colour.
pub type Rgb = (u8, u8, u8);

/// A drawable primitive with pixel coordinates that a raster backend takes.
#[derive(Debug, PartialEq, Eq)]
#[allow(inconsistent_fields)]
pub enum Element {
    /// A text label with its top-left corner.
    Byte { text: String, x: i32, y: i32, fg: Rgb },
    /// A filled rectangle.
    Rectangle { x: i32, y: i32, width: i32, height: i32, bg: Rgb },
    /// A straight line.
    Line { from_x: i32, from_y: i32, to_x: i32, to_y: i32, color: Rgb, width: u32 },
}

/// What an [`Element`] stands for: the same primitive over unbounded
/// integers, a label's text as a sequence of characters.
pub enum Drawable {
    Text { content: Seq<char>, x: int, y: int, color: Rgb },
    Rectangle { x: int, y: int, width: int, height: int, color: Rgb },
    Line { from_x: int, from_y: int, to_x: int, to_y: int, color: Rgb, width: int },
}

impl View for Element {
    type V = Drawable;

    open spec fn view(&self) -> Drawable {
        match *self {
            Element::Byte { text, x, y, fg } => Drawable::Text {
                content: text@,
                x: x as int,
                y: y as int,
                color: fg,
            },
            Element::Rectangle { x, y, width, height, bg } => Drawable::Rectangle {
                x: x as int,
                y: y as int,
                width: width as int,
                height: height as int,
                color: bg,
            },
            Element::Line { from_x, from_y, to_x, to_y, color, width } => Drawable::Line {
                from_x: from_x as int,
                from_y: from_y as int,
                to_x: to_x as int,
                to_y: to_y as int,
                color,
                width: width as int,
            },
        }
    }
}

impl DeepView for Element {
    type V = Drawable;

    open spec fn deep_view(&self) -> Drawable {
        self@
    }
}

/// What a sequence of elements stands for.
pub open spec fn drawables(elements: Seq<Element>) -> Seq<Drawable> {
    Seq::new(elements.len(), |i: int| elements[i]@)
}

impl Element {
    /// A text label.
    pub fn byte(text: String, x: i32, y: i32, fg: Rgb) -> (e: Element)
        ensures
            e@ == (Drawable::Text { content: text@, x: x as int, y: y as int, color: fg }),
    {
        Element::Byte { text, x, y, fg }
    }

    /// A filled rectangle.
    pub fn rectangle(x: i32, y: i32, width: i32, height: i32, bg: Rgb) -> (e: Element)
        ensures
            e@ == (Drawable::Rectangle {
                x: x as int,
                y: y as int,
                width: width as int,
                height: height as int,
                color: bg,
            }),
    {
        Element::Rectangle { x, y, width, height, bg }
    }

    /// A straight line.
    pub fn line(from_x: i32, from_y: i32, to_x: i32, to_y: i32, color: Rgb, width: u32) -> (e:
        Element)
        ensures
            e@ == (Drawable::Line {
                from_x: from_x as int,
                from_y: from_y as int,
                to_x: to_x as int,
                to_y: to_y as int,
                color,
                width: width as int,
            }),
    {
        Element::Line { from_x, from_y, to_x, to_y, color, width }
    }
}

/// Appending an element appends what it stands for.
pub proof fn lemma_drawables_push(elements: Seq<Element>, element: Element)
    ensures
        drawables(elements.push(element)) == drawables(elements).push(element@),
{
    assert(drawables(elements.push(element)) =~= drawables(elements).push(element@));
}

/// Concatenating two sequences of elements concatenates what they stand for.
pub proof fn lemma_drawables_concat(a: Seq<Element>, b: Seq<Element>)
    ensures
        drawables(a + b) == drawables(a) + drawables(b),
{
    assert(drawables(a + b) =~= drawables(a) + drawables(b));
}

} // verus!
