//! The shape of the terminal cursor.

use vstd::prelude::*;

verus! {

/// The shapes a terminal cursor can take.
#[derive(Debug, Clone, Copy, PartialEq, Eq, Structural)]
pub enum CursorStyle {
    DefaultUserShape,
    BlinkingBlock,
    SteadyBlock,
    BlinkingUnderScore,
    SteadyUnderScore,
    BlinkingBar,
    SteadyBar,
}

} // verus!
