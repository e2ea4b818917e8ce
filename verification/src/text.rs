//! Sizes and places of text.

use vstd::prelude::*;

verus! {

#[derive(Hash, PartialEq, Eq, Clone, Copy, Debug, Structural)]
pub enum Size {
    Small,
    Medium,
    Large,
}

#[derive(PartialEq, Eq, Clone, Copy, Debug, Structural)]
pub enum Position {
    CenterScreen,
}

/// The point size of the font for text of each size.
pub open spec fn spec_point_size(size: Size) -> u16 {
    match size {
        Size::Small => 18,
        Size::Medium => 36,
        Size::Large => 64,
    }
}

/// The point size of the font for text of the given size.
pub fn point_size(size: Size) -> (points: u16)
    ensures
        points == spec_point_size(size),
{
    match size {
        Size::Small => 18,
        Size::Medium => 36,
        Size::Large => 64,
    }
}

} // verus!
