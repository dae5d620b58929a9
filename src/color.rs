use vstd::prelude::*;

verus! {

/// The named colours the game core hands to the renderer, which maps each
/// one to screen RGB values.
#[derive(Clone, Copy, Debug, PartialEq, Eq, Structural)]
pub enum Color {
    White,
    Red,
    DarkRed,
    Orange,
    Green,
    DesaturatedGreen,
    DarkerGreen,
    LightGreen,
    Violet,
    LightViolet,
    LightYellow,
    LightBlue,
}

} // verus!
