//! The sizes of the carousel's cards: each card's image by its place beside the selected one,
//! and the room the card takes with the space kept around the image for its shadow.
use vstd::prelude::*;

verus! {

/// A card's place in the carousel: the selected one, or one, two or three places before or
/// after it.
#[derive(Debug, Clone, Copy, PartialEq, Eq, Structural)]
pub enum ThumbnailRole {
    OuterPrevious,
    FarPrevious,
    Previous,
    Selected,
    Next,
    FarNext,
    OuterNext,
}

/// The room kept for the shadow on each side of a card's image, in pixels.
pub const SHADOW_PAD_X: i32 = 42;

/// The room kept for the shadow above a card's image, in pixels.
pub const SHADOW_PAD_TOP: i32 = 10;

/// The room kept for the shadow below a card's image, in pixels.
pub const SHADOW_PAD_BOTTOM: i32 = 44;

/// The image size of each card: largest for the selected one, the same on both sides at equal
/// distance, and smaller the further from the selected one.
pub open spec fn image_dimensions_view(role: ThumbnailRole) -> (i32, i32) {
    match role {
        ThumbnailRole::Selected => (250, 141),
        ThumbnailRole::Previous | ThumbnailRole::Next => (150, 84),
        ThumbnailRole::FarPrevious | ThumbnailRole::FarNext => (108, 61),
        ThumbnailRole::OuterPrevious | ThumbnailRole::OuterNext => (78, 44),
    }
}

/// An image of `width` by `height` is within 0.02 of the 16:9 ratio.
pub open spec fn near_sixteen_by_nine(width: int, height: int) -> bool {
    let diff = 9 * width - 16 * height;
    &&& height > 0
    &&& 50 * diff < 9 * height
    &&& -(9 * height) < 50 * diff
}

pub fn image_dimensions(role: ThumbnailRole) -> (r: (i32, i32))
    ensures
        r == image_dimensions_view(role),
        near_sixteen_by_nine(r.0 as int, r.1 as int),
{
    match role {
        ThumbnailRole::Selected => (250, 141),
        ThumbnailRole::Previous | ThumbnailRole::Next => (150, 84),
        ThumbnailRole::FarPrevious | ThumbnailRole::FarNext => (108, 61),
        ThumbnailRole::OuterPrevious | ThumbnailRole::OuterNext => (78, 44),
    }
}

/// The room a card takes: its image with the shadow's room on each side, above and below.
pub fn dimensions(role: ThumbnailRole) -> (r: (i32, i32))
    ensures
        r.0 == image_dimensions_view(role).0 + 2 * SHADOW_PAD_X,
        r.1 == image_dimensions_view(role).1 + SHADOW_PAD_TOP + SHADOW_PAD_BOTTOM,
{
    let (width, height) = image_dimensions(role);
    (width + (SHADOW_PAD_X * 2), height + SHADOW_PAD_TOP + SHADOW_PAD_BOTTOM)
}

} // verus!
