//! Where an anchored overlay sits against its trigger, and when it flips to the other side.
//!
//! The panel is kept on screen: it flips to the other side of the trigger when the side asked for does not fit and the opposite does. The trigger is never covered: a flip moves the panel to the trigger's other side, never onto it.

use vstd::prelude::*;

verus! {

/// Where an anchored overlay's content sits relative to its trigger widget.
#[derive(Debug, Clone, Copy, PartialEq, Eq, Structural)]
pub enum Placement {
    /// Content's top-left at the trigger's bottom-left: a menu dropping down from its button.
    Below,
    /// Content's bottom-left at the trigger's top-left: a menu opening upward.
    Above,
    /// Beside the trigger on its leading side, centred on it.
    Start,
    /// Beside the trigger on its trailing side, centred on it.
    End,
}

/// Which sides of the trigger the panel fits on inside the viewport, a gap away from the trigger.
#[derive(Debug, Clone, Copy, PartialEq, Eq, Structural)]
pub struct Fits {
    pub below: bool,
    pub above: bool,
    pub after: bool,
    pub before: bool,
}

/// The side across the trigger from `placement`.
pub open spec fn opposite(placement: Placement) -> Placement {
    match placement {
        Placement::Below => Placement::Above,
        Placement::Above => Placement::Below,
        Placement::Start => Placement::End,
        Placement::End => Placement::Start,
    }
}

/// Whether the panel fits on the side `placement` names.
pub open spec fn fits_on(fits: Fits, placement: Placement) -> bool {
    match placement {
        Placement::Below => fits.below,
        Placement::Above => fits.above,
        Placement::Start => fits.before,
        Placement::End => fits.after,
    }
}

/// The side the panel goes on when `placement` is asked for: the one asked for, unless it does not fit there and does on the opposite side.
pub open spec fn resolved(placement: Placement, fits: Fits) -> Placement {
    if !fits_on(fits, placement) && fits_on(fits, opposite(placement)) {
        opposite(placement)
    } else {
        placement
    }
}

/// The side the panel goes on: the one asked for, unless it does not fit there and does on the opposite side.
pub fn resolve_placement(placement: Placement, fits: Fits) -> (r: Placement)
    ensures
        r == resolved(placement, fits),
        r == (if !fits_on(fits, placement) && fits_on(fits, opposite(placement)) {
            opposite(placement)
        } else {
            placement
        }),
{
    match placement {
        Placement::Below => if !fits.below && fits.above {
            Placement::Above
        } else {
            Placement::Below
        },
        Placement::Above => if !fits.above && fits.below {
            Placement::Below
        } else {
            Placement::Above
        },
        Placement::Start => if !fits.before && fits.after {
            Placement::End
        } else {
            Placement::Start
        },
        Placement::End => if !fits.after && fits.before {
            Placement::Start
        } else {
            Placement::End
        },
    }
}

/// A flip only ever trades a side that does not fit for one that does, and stays on the trigger's axis: a side that fits is kept, and the panel is never moved where it fits no better.
pub proof fn lemma_a_flip_never_makes_it_worse(placement: Placement, fits: Fits)
    ensures
        ({
            let r = if !fits_on(fits, placement) && fits_on(fits, opposite(placement)) {
                opposite(placement)
            } else {
                placement
            };
            &&& fits_on(fits, placement) ==> r == placement
            &&& (r == placement || r == opposite(placement))
            &&& r != placement ==> fits_on(fits, r)
            &&& fits_on(fits, placement) || fits_on(fits, opposite(placement)) ==> fits_on(fits, r)
        }),
{
}

/// Flipping twice is not flipping: the opposite of the opposite side is the side itself.
pub proof fn lemma_opposite_is_an_involution(placement: Placement)
    ensures
        opposite(opposite(placement)) == placement,
        opposite(placement) != placement,
{
}

/// Each side reads its own room: a panel asked below stays below while it fits there and goes above only when it does not and the room above does; above, before and after likewise, the trigger's leading side being Start and its trailing side End.
pub proof fn lemma_each_side_reads_its_own_room(fits: Fits)
    ensures
        resolved(Placement::Below, fits) == (if !fits.below && fits.above { Placement::Above } else { Placement::Below }),
        resolved(Placement::Above, fits) == (if !fits.above && fits.below { Placement::Below } else { Placement::Above }),
        resolved(Placement::Start, fits) == (if !fits.before && fits.after { Placement::End } else { Placement::Start }),
        resolved(Placement::End, fits) == (if !fits.after && fits.before { Placement::Start } else { Placement::End }),
{
}

} // verus!
