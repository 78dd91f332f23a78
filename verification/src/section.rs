//! A titled section and its heading: a muted caption above a column of content.

use vstd::prelude::*;

verus! {

/// A muted caption label styled from the active theme, the recurring section-title pattern.
pub struct Heading;

/// A titled vertical section: a [`Heading`] above its content in a column with a small gap.
pub struct Section;

} // verus!
