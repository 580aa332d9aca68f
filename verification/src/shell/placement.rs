//! Where the picker stands on its surface: the placement that Ctrl+P moves to next, the corner
//! a picker of a given size takes, and where its content sits inside a larger panel.
use vstd::prelude::*;
use crate::shell::cli::{ShellLayout, ShellPosition};

verus! {

/// Ctrl+P moves the picker clockwise round the monitor, bottom, left, top, right; along a side
/// its cards run down, along the top or bottom across. From the centre it goes to the bottom.
pub open spec fn next_placement_view(position: ShellPosition) -> (ShellPosition, ShellLayout) {
    match position {
        ShellPosition::Bottom => (ShellPosition::Left, ShellLayout::Vertical),
        ShellPosition::Left => (ShellPosition::Top, ShellLayout::Horizontal),
        ShellPosition::Top => (ShellPosition::Right, ShellLayout::Vertical),
        ShellPosition::Right => (ShellPosition::Bottom, ShellLayout::Horizontal),
        ShellPosition::Center => (ShellPosition::Bottom, ShellLayout::Horizontal),
    }
}

pub fn next_picker_placement(position: ShellPosition) -> (r: (ShellPosition, ShellLayout))
    ensures
        r == next_placement_view(position),
        (r.1 is Vertical) <==> (r.0 is Left || r.0 is Right),
{
    match position {
        ShellPosition::Bottom => (ShellPosition::Left, ShellLayout::Vertical),
        ShellPosition::Left => (ShellPosition::Top, ShellLayout::Horizontal),
        ShellPosition::Top => (ShellPosition::Right, ShellLayout::Vertical),
        ShellPosition::Right => (ShellPosition::Bottom, ShellLayout::Horizontal),
        ShellPosition::Center => (ShellPosition::Bottom, ShellLayout::Horizontal),
    }
}

/// Four presses of Ctrl+P bring a picker standing against an edge back where it was, and each
/// press on the way puts it against another edge.
pub proof fn lemma_four_presses_come_back(position: ShellPosition)
    requires
        !(position is Center),
    ensures
        ({
            let p1 = next_placement_view(position).0;
            let p2 = next_placement_view(p1).0;
            let p3 = next_placement_view(p2).0;
            &&& next_placement_view(p3).0 == position
            &&& p1 != position && p2 != position && p3 != position
            &&& p1 != p2 && p2 != p3 && p1 != p3
        }),
{
}

/// The larger of the room left by `panel` along an axis of `surface`, and none.
pub open spec fn room(surface: int, panel: int) -> int {
    if surface - panel > 0 {
        surface - panel
    } else {
        0
    }
}

/// The top-left corner a picker of size `panel` takes on a surface of size `surface`: centred
/// along the edge it stands against, flush with that edge, and centred both ways at the centre.
pub open spec fn picker_position_view(surface: (i32, i32), panel: (i32, i32), position: ShellPosition) -> (
    int,
    int,
) {
    let max_x = room(surface.0 as int, panel.0 as int);
    let max_y = room(surface.1 as int, panel.1 as int);
    match position {
        ShellPosition::Top => (max_x / 2, 0),
        ShellPosition::Bottom => (max_x / 2, max_y),
        ShellPosition::Center => (max_x / 2, max_y / 2),
        ShellPosition::Left => (0, max_y / 2),
        ShellPosition::Right => (max_x, max_y / 2),
    }
}

/// The difference of two sizes fits in an `i32`.
pub open spec fn fits_difference(a: i32, b: i32) -> bool {
    i32::MIN <= a - b <= i32::MAX
}

fn room_exec(surface: i32, panel: i32) -> (r: i32)
    requires
        fits_difference(surface, panel),
    ensures
        r == room(surface as int, panel as int),
{
    let d = surface - panel;
    if d > 0 {
        d
    } else {
        0
    }
}

/// The corner the picker takes.
pub fn picker_position(surface: (i32, i32), panel: (i32, i32), position: ShellPosition) -> (r: (i32, i32))
    requires
        fits_difference(surface.0, panel.0),
        fits_difference(surface.1, panel.1),
    ensures
        (r.0 as int, r.1 as int) == picker_position_view(surface, panel, position),
{
    let max_x = room_exec(surface.0, panel.0);
    let max_y = room_exec(surface.1, panel.1);
    let center_x = max_x / 2;
    let center_y = max_y / 2;
    match position {
        ShellPosition::Top => (center_x, 0),
        ShellPosition::Bottom => (center_x, max_y),
        ShellPosition::Center => (center_x, center_y),
        ShellPosition::Left => (0, center_y),
        ShellPosition::Right => (max_x, center_y),
    }
}

/// Where the picker's content sits inside its panel: against the anchored side for a side
/// position, centred across otherwise; centred down for cards that run across, at the top for
/// cards that run down.
pub open spec fn content_position_view(
    position: ShellPosition,
    layout: ShellLayout,
    panel: (i32, i32),
    content: (i32, i32),
) -> (int, int) {
    let available_x = room(panel.0 as int, content.0 as int);
    let available_y = room(panel.1 as int, content.1 as int);
    let x = match position {
        ShellPosition::Left => 0,
        ShellPosition::Right => available_x,
        _ => available_x / 2,
    };
    let y = match layout {
        ShellLayout::Horizontal => available_y / 2,
        ShellLayout::Vertical => 0,
    };
    (x, y)
}

pub fn content_position(position: ShellPosition, layout: ShellLayout, panel: (i32, i32), content: (i32, i32)) -> (r: (
    i32,
    i32,
))
    requires
        fits_difference(panel.0, content.0),
        fits_difference(panel.1, content.1),
    ensures
        (r.0 as int, r.1 as int) == content_position_view(position, layout, panel, content),
{
    let available_x = room_exec(panel.0, content.0);
    let available_y = room_exec(panel.1, content.1);
    let x = match position {
        ShellPosition::Left => 0,
        ShellPosition::Right => available_x,
        _ => available_x / 2,
    };
    let y = match layout {
        ShellLayout::Horizontal => available_y / 2,
        ShellLayout::Vertical => 0,
    };
    (x, y)
}

/// How a widget lines up along one axis of the space it is given.
#[derive(Debug, Clone, Copy, PartialEq, Eq, Structural)]
pub enum PanelAlign {
    Start,
    Center,
    End,
}

/// How the panel lines up in its window, across and down: against the edge it stands at, and
/// centred along it.
pub open spec fn panel_alignment_view(position: ShellPosition) -> (PanelAlign, PanelAlign) {
    match position {
        ShellPosition::Top => (PanelAlign::Center, PanelAlign::Start),
        ShellPosition::Bottom => (PanelAlign::Center, PanelAlign::End),
        ShellPosition::Center => (PanelAlign::Center, PanelAlign::Center),
        ShellPosition::Left => (PanelAlign::Start, PanelAlign::Center),
        ShellPosition::Right => (PanelAlign::End, PanelAlign::Center),
    }
}

pub fn panel_alignment(position: ShellPosition) -> (r: (PanelAlign, PanelAlign))
    ensures
        r == panel_alignment_view(position),
{
    match position {
        ShellPosition::Top => (PanelAlign::Center, PanelAlign::Start),
        ShellPosition::Bottom => (PanelAlign::Center, PanelAlign::End),
        ShellPosition::Center => (PanelAlign::Center, PanelAlign::Center),
        ShellPosition::Left => (PanelAlign::Start, PanelAlign::Center),
        ShellPosition::Right => (PanelAlign::End, PanelAlign::Center),
    }
}

} // verus!
