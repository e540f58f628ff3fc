//! The two foreground colors.
use vstd::prelude::*;

use crate::ForegroundColor;

verus! {

/// Black features on white paper: the background is `255`.
pub struct Black;

impl ForegroundColor for Black {
    open spec fn background() -> u8 {
        255
    }

    fn background_color() -> (r: u8) {
        255
    }
}

/// White features on black paper: the background is `0`.
pub struct White;

impl ForegroundColor for White {
    open spec fn background() -> u8 {
        0
    }

    fn background_color() -> (r: u8) {
        0
    }
}

} // verus!
