//! The side of the viewport a surface's panel is pinned to, and the way it arrives.

use vstd::prelude::*;

verus! {

/// Which side of the viewport a surface pins its panel to, and the direction it slides in from.
///
/// [`Center`](Edge::Center) is not an edge: the panel is centred on both axes and arrives by fading rather than sliding, which is what a launcher or a command palette wants.
#[derive(Debug, Clone, Copy, PartialEq, Eq, Structural)]
pub enum Edge {
    Top,
    Bottom,
    Left,
    Right,
    Center,
}

/// The unit direction a panel pinned to `edge` starts off-screen in, as `(x, y)`: it travels from there back to rest.
pub open spec fn offset_direction(edge: Edge) -> (i8, i8) {
    match edge {
        Edge::Top => (0i8, -1i8),
        Edge::Bottom => (0i8, 1i8),
        Edge::Left => (-1i8, 0i8),
        Edge::Right => (1i8, 0i8),
        Edge::Center => (0i8, 0i8),
    }
}

impl Edge {
    /// The unit direction a panel pinned here starts off-screen in; zero for a centred panel, which fades instead.
    pub fn slide_direction(self) -> (r: (i8, i8))
        ensures
            r == offset_direction(self),
    {
        match self {
            Edge::Top => (0, -1),
            Edge::Bottom => (0, 1),
            Edge::Left => (-1, 0),
            Edge::Right => (1, 0),
            Edge::Center => (0, 0),
        }
    }

    /// Whether a panel pinned here arrives by sliding rather than only by fading.
    pub fn slides(self) -> (r: bool)
        ensures
            r == (self != Edge::Center),
    {
        match self {
            Edge::Center => false,
            _ => true,
        }
    }
}

/// The direction a surface's root lays its panel out in.
#[derive(Debug, Clone, Copy, PartialEq, Eq, Structural)]
pub enum Flow {
    /// Top to bottom.
    Column,
    /// Left to right.
    Row,
}

/// Where along its flow the root puts the panel.
#[derive(Debug, Clone, Copy, PartialEq, Eq, Structural)]
pub enum Justify {
    Start,
    End,
    Center,
}

/// How a surface's root places its panel: the flow it lays out in, where along it the panel goes, and whether the panel is centred across it rather than aligned as the caller asked.
#[derive(Debug, Clone, Copy, PartialEq, Eq, Structural)]
pub struct PanelPlacement {
    pub flow: Flow,
    pub justify: Justify,
    pub centred_across: bool,
}

/// The placement of a panel pinned to `edge`: a top or bottom panel runs in a column from its end, a left or right one in a row from its end, each aligned across as the caller asked; a centred panel is centred both ways.
pub open spec fn placement_of(edge: Edge) -> PanelPlacement {
    match edge {
        Edge::Top => PanelPlacement { flow: Flow::Column, justify: Justify::Start, centred_across: false },
        Edge::Bottom => PanelPlacement { flow: Flow::Column, justify: Justify::End, centred_across: false },
        Edge::Left => PanelPlacement { flow: Flow::Row, justify: Justify::Start, centred_across: false },
        Edge::Right => PanelPlacement { flow: Flow::Row, justify: Justify::End, centred_across: false },
        Edge::Center => PanelPlacement { flow: Flow::Column, justify: Justify::Center, centred_across: true },
    }
}

impl Edge {
    /// How a surface's root places a panel pinned here.
    pub fn panel_placement(self) -> (r: PanelPlacement)
        ensures
            r == placement_of(self),
    {
        match self {
            Edge::Top => PanelPlacement { flow: Flow::Column, justify: Justify::Start, centred_across: false },
            Edge::Bottom => PanelPlacement { flow: Flow::Column, justify: Justify::End, centred_across: false },
            Edge::Left => PanelPlacement { flow: Flow::Row, justify: Justify::Start, centred_across: false },
            Edge::Right => PanelPlacement { flow: Flow::Row, justify: Justify::End, centred_across: false },
            Edge::Center => PanelPlacement { flow: Flow::Column, justify: Justify::Center, centred_across: true },
        }
    }
}

/// A panel is laid out along the axis it slides on, from the side it is pinned to: it slides in along its flow, towards the end it rests at.
pub proof fn lemma_a_panel_rests_where_it_slides_from(edge: Edge)
    requires
        edge != Edge::Center,
    ensures
        (placement_of(edge).flow == Flow::Column) == (offset_direction(edge).0 == 0),
        (placement_of(edge).justify == Justify::End) == (offset_direction(edge).0 + offset_direction(edge).1 > 0),
        !placement_of(edge).centred_across,
{
}

/// Whether a primary press dismisses a surface: it lands outside the panel, and the surface has a dismissal to run. A press inside the panel is the content's.
pub fn press_dismisses(inside_panel: bool, has_dismiss: bool) -> (r: bool)
    ensures
        r == (!inside_panel && has_dismiss),
{
    !inside_panel && has_dismiss
}

/// Whether Escape dismisses a surface, Escape being the keyboard's press-outside: the content gets first refusal, so a focused field blurs on the first press and the surface closes on the second.
pub fn escape_dismisses(content_took_it: bool, has_dismiss: bool) -> (r: bool)
    ensures
        r == (!content_took_it && has_dismiss),
{
    !content_took_it && has_dismiss
}

} // verus!
