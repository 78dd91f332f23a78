//! The shape a clipped child is cut to: which of its edges cut, and whether the cut stops the pointer as well as the paint.

use vstd::prelude::*;

verus! {

/// Whether a cut edge stops the pointer as well as the paint.
///
/// [`Stop`](ClipPointer::Stop) is what a viewport wants and the default: clipped away is gone, so a widget cut off cannot take the click that visually belongs to whatever is drawn over it. [`Through`](ClipPointer::Through) is for a clip that is only about paint.
#[derive(Clone, Copy, PartialEq, Eq, Debug, Structural)]
pub enum ClipPointer {
    Stop,
    Through,
}

impl Default for ClipPointer {
    fn default() -> (r: Self)
        ensures
            r == ClipPointer::Stop,
    {
        ClipPointer::Stop
    }
}

/// Which of a clip's own edges do the cutting.
#[derive(Clone, Copy, PartialEq, Eq, Debug, Structural)]
pub enum ClipAxis {
    /// The node's rect, both ways: a viewport.
    Both,
    /// Its left and right edges; whatever sits above or below is left alone.
    Horizontal,
    /// Its top and bottom edges; whatever sits left or right of it is left alone.
    Vertical,
}

impl Default for ClipAxis {
    fn default() -> (r: Self)
        ensures
            r == ClipAxis::Both,
    {
        ClipAxis::Both
    }
}

impl ClipAxis {
    /// Whether the left and right edges cut.
    pub fn cuts_horizontally(self) -> (r: bool)
        ensures
            r == (self != ClipAxis::Vertical),
    {
        match self {
            ClipAxis::Vertical => false,
            _ => true,
        }
    }

    /// Whether the top and bottom edges cut.
    pub fn cuts_vertically(self) -> (r: bool)
        ensures
            r == (self != ClipAxis::Horizontal),
    {
        match self {
            ClipAxis::Horizontal => false,
            _ => true,
        }
    }
}

/// Whether a clip cutting with `pointer` lets an event through to the clipped child: always for a paint-only clip; otherwise a press, a move or a wheel (`press_move_or_wheel`) only where its position is inside the cut, and every other event (a release, a key, the cursor leaving) always.
pub fn admits_event(pointer: ClipPointer, press_move_or_wheel: bool, inside_cut: bool) -> (r: bool)
    ensures
        r == (pointer == ClipPointer::Through || !press_move_or_wheel || inside_cut),
{
    match pointer {
        ClipPointer::Through => true,
        ClipPointer::Stop => !press_move_or_wheel || inside_cut,
    }
}

} // verus!
