//! Where the picker's layer-shell surface is anchored on its monitor and how far it stands in
//! from the anchored edges, and the full-screen surface that catches clicks outside it.
use vstd::prelude::*;
use crate::shell::cli::ShellPosition;
use crate::shell::placement::fits_difference;

verus! {

/// How far a picker placed against an edge stands in from it, in pixels.
pub const EDGE_POSITION_INSET_PX: i32 = 55;

/// The size of a surface in pixels.
#[derive(Debug, Clone, Copy, PartialEq, Eq, Structural)]
pub struct SurfaceDimensions {
    pub width: i32,
    pub height: i32,
}

/// The monitor edges a surface is anchored to.
#[derive(Debug, Clone, Copy, PartialEq, Eq, Structural)]
pub struct AnchorSpec {
    pub top: bool,
    pub bottom: bool,
    pub left: bool,
    pub right: bool,
}

/// The distance of a surface from each monitor edge, in pixels.
#[derive(Debug, Clone, Copy, PartialEq, Eq, Structural)]
pub struct EdgeMargins {
    pub top: i32,
    pub bottom: i32,
    pub left: i32,
    pub right: i32,
}

/// The picker is anchored to the top-left corner, but for the bottom position (bottom-left) and
/// the right one (top-right); never to two opposite edges, so it is never stretched.
pub open spec fn panel_anchor_view(position: ShellPosition) -> AnchorSpec {
    AnchorSpec {
        top: !(position is Bottom),
        bottom: position is Bottom,
        left: !(position is Right),
        right: position is Right,
    }
}

pub fn panel_anchor_spec(position: ShellPosition) -> (r: AnchorSpec)
    ensures
        r == panel_anchor_view(position),
        !(r.top && r.bottom) && !(r.left && r.right),
{
    match position {
        ShellPosition::Top => AnchorSpec { top: true, bottom: false, left: true, right: false },
        ShellPosition::Bottom => AnchorSpec { top: false, bottom: true, left: true, right: false },
        ShellPosition::Center => AnchorSpec { top: true, bottom: false, left: true, right: false },
        ShellPosition::Left => AnchorSpec { top: true, bottom: false, left: true, right: false },
        ShellPosition::Right => AnchorSpec { top: true, bottom: false, left: false, right: true },
    }
}

/// Half of the room the output leaves beside the panel along one axis, none when the panel is
/// the larger.
pub open spec fn centered_offset(output: int, panel: int) -> int {
    if output - panel > 0 {
        (output - panel) / 2
    } else {
        0
    }
}

/// The margins that place the picker: centred along the edge it stands against (across the
/// monitor for the top, bottom and centre positions, down it for the sides), inset from that
/// edge, and centred both ways in the centre position.
pub open spec fn panel_margins_view(
    position: ShellPosition,
    panel: SurfaceDimensions,
    output: SurfaceDimensions,
) -> EdgeMargins {
    let cx = centered_offset(output.width as int, panel.width as int);
    let cy = centered_offset(output.height as int, panel.height as int);
    match position {
        ShellPosition::Top => EdgeMargins { top: EDGE_POSITION_INSET_PX, bottom: 0, left: cx as i32, right: 0 },
        ShellPosition::Bottom => EdgeMargins { top: 0, bottom: 0, left: cx as i32, right: 0 },
        ShellPosition::Center => EdgeMargins { top: cy as i32, bottom: 0, left: cx as i32, right: 0 },
        ShellPosition::Left => EdgeMargins { top: cy as i32, bottom: 0, left: EDGE_POSITION_INSET_PX, right: 0 },
        ShellPosition::Right => EdgeMargins { top: cy as i32, bottom: 0, left: 0, right: EDGE_POSITION_INSET_PX },
    }
}

fn centered_offset_exec(output: i32, panel: i32) -> (r: i32)
    requires
        fits_difference(output, panel),
    ensures
        r == centered_offset(output as int, panel as int),
        0 <= r,
{
    let room = output - panel;
    if room > 0 {
        room / 2
    } else {
        0
    }
}

pub fn panel_margins(position: ShellPosition, panel: SurfaceDimensions, output: SurfaceDimensions) -> (r:
    EdgeMargins)
    requires
        fits_difference(output.width, panel.width),
        fits_difference(output.height, panel.height),
    ensures
        r == panel_margins_view(position, panel, output),
{
    let center_x = centered_offset_exec(output.width, panel.width);
    let center_y = centered_offset_exec(output.height, panel.height);
    match position {
        ShellPosition::Top => EdgeMargins { top: EDGE_POSITION_INSET_PX, bottom: 0, left: center_x, right: 0 },
        ShellPosition::Bottom => EdgeMargins { top: 0, bottom: 0, left: center_x, right: 0 },
        ShellPosition::Center => EdgeMargins { top: center_y, bottom: 0, left: center_x, right: 0 },
        ShellPosition::Left => EdgeMargins { top: center_y, bottom: 0, left: EDGE_POSITION_INSET_PX, right: 0 },
        ShellPosition::Right => EdgeMargins { top: center_y, bottom: 0, left: 0, right: EDGE_POSITION_INSET_PX },
    }
}

/// The surface that catches clicks outside the picker covers the whole monitor.
pub fn dismiss_anchor_spec() -> (r: AnchorSpec)
    ensures
        r == (AnchorSpec { top: true, bottom: true, left: true, right: true }),
{
    AnchorSpec { top: true, bottom: true, left: true, right: true }
}

/// A picker that fits on its monitor stands centred across the monitor when placed at the top,
/// the bottom or the centre: the room left of it and the room right of it differ by at most a
/// pixel; and centred down the monitor when placed at the centre or a side.
pub proof fn lemma_panel_is_centred(position: ShellPosition, panel: SurfaceDimensions, output: SurfaceDimensions)
    requires
        0 <= panel.width <= output.width,
        0 <= panel.height <= output.height,
    ensures
        ({
            let m = panel_margins_view(position, panel, output);
            let right_room = output.width - panel.width - m.left;
            let bottom_room = output.height - panel.height - m.top;
            &&& (position is Top || position is Bottom || position is Center) ==> 0 <= right_room - m.left <= 1
            &&& (position is Center || position is Left || position is Right) ==> 0 <= bottom_room - m.top <= 1
        }),
{
}

} // verus!
