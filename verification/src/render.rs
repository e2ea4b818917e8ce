//! Where things go on the screen.

use crate::entity::EntityKind;
use crate::world::PLAYER_HEALTH_MAX;
use vstd::prelude::*;

verus! {

/// Width of the window, in screen units.
pub const WIN_WIDTH: u32 = 600;

/// Height of the window, in screen units.
pub const WIN_HEIGHT: u32 = 600;

/// Space between two lines of text.
pub const TEXT_LINE_PADDING: u32 = 30;

/// A rectangle on the screen: left edge, top edge, width and height.
pub type ScreenRect = (i32, i32, u32, u32);

/// Calculates the x coordinate of the left edge of the centered rectangle.
/// Negative where the rectangle is wider than the window.
pub fn h_center(width: u32) -> (left: i32)
    requires
        width <= i32::MAX,
    ensures
        left == WIN_WIDTH / 2 - width / 2,
{
    WIN_WIDTH as i32 / 2 - width as i32 / 2
}

/// Calculates the y coordinate of the top edge of the centered rectangle.
/// Negative where the rectangle is higher than the window.
pub fn v_center(height: u32) -> (top: i32)
    requires
        height <= i32::MAX,
    ensures
        top == WIN_HEIGHT / 2 - height / 2,
{
    WIN_HEIGHT as i32 / 2 - height as i32 / 2
}

/// The height of the first `count` lines, each with the padding after it.
pub open spec fn lines_height(sizes: Seq<(u32, u32)>, count: int) -> int
    decreases count,
{
    if count <= 0 {
        0
    } else {
        lines_height(sizes, count - 1) + sizes[count - 1].1 + TEXT_LINE_PADDING
    }
}

/// The height of the block that the lines make: every line with its
/// padding, less one unit.
pub open spec fn block_height(sizes: Seq<(u32, u32)>) -> int {
    lines_height(sizes, sizes.len() as int) - 1
}

/// The top edge of the block when it is centered in the window.
pub open spec fn block_top(sizes: Seq<(u32, u32)>) -> int {
    WIN_HEIGHT / 2 - block_height(sizes) / 2
}

/// The lines can be laid out: there is one at least, none is wider than
/// `i32` holds, and the block is no higher than the window.
pub open spec fn can_lay_out(sizes: Seq<(u32, u32)>) -> bool {
    &&& sizes.len() > 0
    &&& forall|i: int| 0 <= i < sizes.len() ==> (#[trigger] sizes[i]).0 <= i32::MAX
    &&& block_height(sizes) <= WIN_HEIGHT + 1
}

/// The heights of more lines add up to more.
pub proof fn lemma_lines_height_grows(sizes: Seq<(u32, u32)>, fewer: int, more: int)
    requires
        0 <= fewer <= more <= sizes.len(),
    ensures
        0 <= lines_height(sizes, fewer) <= lines_height(sizes, more),
        fewer < more ==> lines_height(sizes, fewer) + TEXT_LINE_PADDING <= lines_height(
            sizes,
            more,
        ),
    decreases more,
{
    if fewer < more {
        lemma_lines_height_grows(sizes, fewer, more - 1);
    } else if fewer > 0 {
        lemma_lines_height_grows(sizes, fewer - 1, fewer - 1);
    }
}

/// Where each line of a block of text goes, given the width and height of
/// each: the block is centered in the window top to bottom, each line left
/// to right, and each line has the padding below it.
pub fn layout_lines(sizes: &Vec<(u32, u32)>) -> (places: Vec<ScreenRect>)
    requires
        can_lay_out(sizes@),
    ensures
        places@.len() == sizes@.len(),
        forall|i: int|
            0 <= i < places@.len() ==> {
                &&& (#[trigger] places@[i]).0 == WIN_WIDTH / 2 - sizes@[i].0 / 2
                &&& places@[i].1 == block_top(sizes@) + lines_height(sizes@, i)
                &&& places@[i].2 == sizes@[i].0
                &&& places@[i].3 == sizes@[i].1
            },
{
    let mut total_height: u32 = 0;
    let mut i: usize = 0;
    while i < sizes.len()
        invariant
            i <= sizes@.len(),
            can_lay_out(sizes@),
            total_height == lines_height(sizes@, i as int),
        decreases sizes@.len() - i,
    {
        proof {
            lemma_lines_height_grows(sizes@, i + 1, sizes@.len() as int);
        }
        total_height = total_height + sizes[i].1 + TEXT_LINE_PADDING;
        i += 1;
    }
    proof {
        lemma_lines_height_grows(sizes@, 0, sizes@.len() as int);
    }
    let total_height = total_height - 1;

    let mut curr_y = v_center(total_height) as u32;
    let mut places: Vec<ScreenRect> = Vec::new();
    let mut i: usize = 0;
    while i < sizes.len()
        invariant
            i <= sizes@.len(),
            can_lay_out(sizes@),
            total_height == block_height(sizes@),
            curr_y == block_top(sizes@) + lines_height(sizes@, i as int),
            places@.len() == i,
            forall|k: int|
                0 <= k < places@.len() ==> {
                    &&& (#[trigger] places@[k]).0 == WIN_WIDTH / 2 - sizes@[k].0 / 2
                    &&& places@[k].1 == block_top(sizes@) + lines_height(sizes@, k)
                    &&& places@[k].2 == sizes@[k].0
                    &&& places@[k].3 == sizes@[k].1
                },
        decreases sizes@.len() - i,
    {
        let (width, height) = sizes[i];
        proof {
            lemma_lines_height_grows(sizes@, i + 1, sizes@.len() as int);
            lemma_lines_height_grows(sizes@, 0, i as int);
        }
        let x = h_center(width);
        let y = curr_y;
        curr_y = curr_y + (height + TEXT_LINE_PADDING);
        places.push((x, y as i32, width, height));
        i += 1;
    }
    places
}

/// Left edge of the health bar.
pub const HEALTH_BAR_X: i32 = 20;

/// Top edge of the health bar.
pub const HEALTH_BAR_Y: i32 = 20;

/// Width of the health bar at full health, and of its border.
pub const HEALTH_BAR_WIDTH: u32 = 100;

/// Height of the health bar.
pub const HEALTH_BAR_HEIGHT: u32 = 20;

/// The health bar and its border, in a fixed position: the bar is as wide
/// as the health times a whole share of the full width, the border goes
/// round the full width one unit outside.
pub fn health_bar(health: u32) -> (rects: (ScreenRect, ScreenRect))
    requires
        health * (HEALTH_BAR_WIDTH / PLAYER_HEALTH_MAX as u32) <= u32::MAX,
    ensures
        rects.0 == (
            HEALTH_BAR_X,
            HEALTH_BAR_Y,
            (health * (HEALTH_BAR_WIDTH / PLAYER_HEALTH_MAX as u32)) as u32,
            HEALTH_BAR_HEIGHT,
        ),
        rects.1 == (
            (HEALTH_BAR_X - 1) as i32,
            (HEALTH_BAR_Y - 1) as i32,
            (HEALTH_BAR_WIDTH + 1) as u32,
            (HEALTH_BAR_HEIGHT + 2) as u32,
        ),
{
    let x_increment = HEALTH_BAR_WIDTH / PLAYER_HEALTH_MAX as u32;
    (
        (HEALTH_BAR_X, HEALTH_BAR_Y, health * x_increment, HEALTH_BAR_HEIGHT),
        (HEALTH_BAR_X - 1, HEALTH_BAR_Y - 1, HEALTH_BAR_WIDTH + 1, HEALTH_BAR_HEIGHT + 2),
    )
}

/// The colour of each kind of entity, as red, green and blue. A proxy has
/// none.
pub open spec fn spec_kind_color(kind: EntityKind) -> Option<(u8, u8, u8)> {
    match kind {
        EntityKind::Bullet => Some((74u8, 143u8, 255u8)),
        EntityKind::Wall => Some((232u8, 225u8, 81u8)),
        EntityKind::Baddie => Some((235u8, 33u8, 35u8)),
        EntityKind::Cannon => Some((69u8, 247u8, 105u8)),
        EntityKind::UNDEFINED => None,
    }
}

/// The colour in which an entity of the kind is drawn.
pub fn kind_color(kind: &EntityKind) -> (color: Option<(u8, u8, u8)>)
    ensures
        color == spec_kind_color(*kind),
{
    match kind {
        EntityKind::Bullet => Some((74, 143, 255)),
        EntityKind::Wall => Some((232, 225, 81)),
        EntityKind::Baddie => Some((235, 33, 35)),
        EntityKind::Cannon => Some((69, 247, 105)),
        EntityKind::UNDEFINED => None,
    }
}

} // verus!
