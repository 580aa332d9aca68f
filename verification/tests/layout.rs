use jobowalls::shell::keys::{control_held_after_release, key_pressed, stops_propagation, KeyAction, PickerKey};
use jobowalls::shell::carousel::{
    allocation_dimensions, center_for_slot, image_width_for_resting_slot, role_for_slot, SLOT_IMAGE_OVERLAP,
    STAGE_HEIGHT,
};
use jobowalls::shell::cli::{ShellLayout, ShellPosition};
use jobowalls::shell::layer::{
    dismiss_anchor_spec, panel_anchor_spec, panel_margins, AnchorSpec, EdgeMargins, SurfaceDimensions,
    EDGE_POSITION_INSET_PX,
};
use jobowalls::shell::placement::{content_position, next_picker_placement, panel_alignment, picker_position, PanelAlign};
use jobowalls::shell::thumbnail::{
    dimensions, image_dimensions, ThumbnailRole, SHADOW_PAD_BOTTOM, SHADOW_PAD_TOP, SHADOW_PAD_X,
};

#[test]
fn bottom_panel_uses_layer_shell_bottom_center_placement() {
    assert_eq!(
        panel_anchor_spec(ShellPosition::Bottom),
        AnchorSpec { top: false, bottom: true, left: true, right: false }
    );
}

#[test]
fn left_panel_uses_layer_shell_left_center_placement() {
    assert_eq!(
        panel_anchor_spec(ShellPosition::Left),
        AnchorSpec { top: true, bottom: false, left: true, right: false }
    );
}

#[test]
fn top_panel_uses_layer_shell_top_center_placement() {
    assert_eq!(
        panel_anchor_spec(ShellPosition::Top),
        AnchorSpec { top: true, bottom: false, left: true, right: false }
    );
}

#[test]
fn right_panel_uses_layer_shell_right_center_placement() {
    assert_eq!(
        panel_anchor_spec(ShellPosition::Right),
        AnchorSpec { top: true, bottom: false, left: false, right: true }
    );
}

#[test]
fn bottom_panel_centers_with_left_margin_without_stretching() {
    assert_eq!(
        panel_margins(
            ShellPosition::Bottom,
            SurfaceDimensions { width: 860, height: 340 },
            SurfaceDimensions { width: 2560, height: 1440 },
        ),
        EdgeMargins { top: 0, bottom: 0, left: 850, right: 0 }
    );
}

#[test]
fn left_panel_centers_with_top_margin_without_stretching() {
    assert_eq!(
        panel_margins(
            ShellPosition::Left,
            SurfaceDimensions { width: 340, height: 886 },
            SurfaceDimensions { width: 2560, height: 1440 },
        ),
        EdgeMargins { top: 277, bottom: 0, left: EDGE_POSITION_INSET_PX, right: 0 }
    );
}

#[test]
fn right_panel_is_inset_from_edge_to_mirror_left_panel() {
    assert_eq!(
        panel_margins(
            ShellPosition::Right,
            SurfaceDimensions { width: 340, height: 886 },
            SurfaceDimensions { width: 2560, height: 1440 },
        ),
        EdgeMargins { top: 277, bottom: 0, left: 0, right: EDGE_POSITION_INSET_PX }
    );
}

#[test]
fn top_panel_is_inset_from_edge_to_match_bottom_visual_weight() {
    assert_eq!(
        panel_margins(
            ShellPosition::Top,
            SurfaceDimensions { width: 860, height: 340 },
            SurfaceDimensions { width: 2560, height: 1440 },
        ),
        EdgeMargins { top: EDGE_POSITION_INSET_PX, bottom: 0, left: 850, right: 0 }
    );
}

#[test]
fn dismiss_surface_is_fullscreen_but_separate_from_panel() {
    assert_eq!(dismiss_anchor_spec(), AnchorSpec { top: true, bottom: true, left: true, right: true });
}

#[test]
fn center_panel_is_centred_both_ways_and_never_pushed_off_a_small_output() {
    assert_eq!(
        panel_margins(
            ShellPosition::Center,
            SurfaceDimensions { width: 861, height: 341 },
            SurfaceDimensions { width: 2560, height: 1440 },
        ),
        EdgeMargins { top: 549, bottom: 0, left: 849, right: 0 }
    );
    assert_eq!(
        panel_margins(
            ShellPosition::Center,
            SurfaceDimensions { width: 3000, height: 2000 },
            SurfaceDimensions { width: 2560, height: 1440 },
        ),
        EdgeMargins { top: 0, bottom: 0, left: 0, right: 0 }
    );
}

#[test]
fn selected_thumbnail_keeps_sixteen_by_nine_image_ratio() {
    let (width, height) = image_dimensions(ThumbnailRole::Selected);

    assert_eq!((width, height), (250, 141));
    assert!(((width as f64 / height as f64) - (16.0 / 9.0)).abs() < 0.01);
}

#[test]
fn thumbnail_allocation_reserves_shadow_padding() {
    let (image_width, image_height) = image_dimensions(ThumbnailRole::Selected);
    let (allocation_width, allocation_height) = dimensions(ThumbnailRole::Selected);

    assert_eq!(allocation_width - image_width, SHADOW_PAD_X * 2);
    assert_eq!(allocation_height - image_height, SHADOW_PAD_TOP + SHADOW_PAD_BOTTOM);
    assert!(allocation_height > image_height);
}

#[test]
fn all_thumbnail_roles_use_fixed_image_aspect_without_stretching() {
    for role in [
        ThumbnailRole::Selected,
        ThumbnailRole::Previous,
        ThumbnailRole::Next,
        ThumbnailRole::FarPrevious,
        ThumbnailRole::FarNext,
        ThumbnailRole::OuterPrevious,
        ThumbnailRole::OuterNext,
    ] {
        let (width, height) = image_dimensions(role);

        assert!(((width as f64 / height as f64) - (16.0 / 9.0)).abs() < 0.02);
    }
}

#[test]
fn stage_is_tall_enough_for_selected_card_shadow_allocation() {
    let (_, selected_height) = dimensions(ThumbnailRole::Selected);

    assert!(STAGE_HEIGHT >= selected_height);
}

#[test]
fn resting_slot_images_overlap_evenly() {
    for slot in -3..3 {
        let left_width = f64::from(image_width_for_resting_slot(slot));
        let right_width = f64::from(image_width_for_resting_slot(slot + 1));
        let left_right_edge = f64::from(center_for_slot(slot)) + left_width / 2.0;
        let right_left_edge = f64::from(center_for_slot(slot + 1)) - right_width / 2.0;

        assert_eq!(left_right_edge - right_left_edge, f64::from(SLOT_IMAGE_OVERLAP));
    }
}

#[test]
fn resting_slot_centres_spread_from_the_middle_of_the_stage() {
    assert_eq!(center_for_slot(0), 430);
    assert_eq!(center_for_slot(-1), 248);
    assert_eq!(center_for_slot(1), 612);
    assert_eq!(center_for_slot(-3), 62);
    assert_eq!(center_for_slot(3), 798);
    assert_eq!(center_for_slot(9), 798);
}

#[test]
fn allocation_dimensions_keep_selected_shadow_padding() {
    let (width, height) = allocation_dimensions(200, 113);

    assert_eq!((width, height), (284, 167));
}

#[test]
fn outer_slots_use_outer_thumbnail_roles() {
    assert_eq!(role_for_slot(-3), ThumbnailRole::OuterPrevious);
    assert_eq!(role_for_slot(3), ThumbnailRole::OuterNext);
    assert_eq!(role_for_slot(-2), ThumbnailRole::FarPrevious);
    assert_eq!(role_for_slot(0), ThumbnailRole::Selected);
}

#[test]
fn ctrl_p_cycle_moves_clockwise_and_switches_layout() {
    assert_eq!(next_picker_placement(ShellPosition::Bottom), (ShellPosition::Left, ShellLayout::Vertical));
    assert_eq!(next_picker_placement(ShellPosition::Left), (ShellPosition::Top, ShellLayout::Horizontal));
    assert_eq!(next_picker_placement(ShellPosition::Top), (ShellPosition::Right, ShellLayout::Vertical));
    assert_eq!(next_picker_placement(ShellPosition::Right), (ShellPosition::Bottom, ShellLayout::Horizontal));
}

#[test]
fn four_ctrl_p_presses_return_to_the_starting_edge() {
    for start in [ShellPosition::Bottom, ShellPosition::Left, ShellPosition::Top, ShellPosition::Right] {
        let mut position = start;
        for _ in 0..4 {
            position = next_picker_placement(position).0;
        }
        assert_eq!(position, start);
    }
    assert_eq!(next_picker_placement(ShellPosition::Center), (ShellPosition::Bottom, ShellLayout::Horizontal));
}

#[test]
fn computes_picker_positions_from_surface_and_panel_size() {
    let surface = (2560, 1440);
    let horizontal_panel = (860, 340);
    let vertical_panel = (340, 886);

    assert_eq!(picker_position(surface, horizontal_panel, ShellPosition::Bottom), (850, 1100));
    assert_eq!(picker_position(surface, horizontal_panel, ShellPosition::Top), (850, 0));
    assert_eq!(picker_position(surface, vertical_panel, ShellPosition::Left), (0, 277));
    assert_eq!(picker_position(surface, vertical_panel, ShellPosition::Right), (2220, 277));
}

#[test]
fn side_panels_align_to_their_anchored_edge() {
    assert_eq!(panel_alignment(ShellPosition::Left), (PanelAlign::Start, PanelAlign::Center));
    assert_eq!(panel_alignment(ShellPosition::Right), (PanelAlign::End, PanelAlign::Center));
}

#[test]
fn side_content_is_positioned_against_anchored_edge_when_surface_is_wide() {
    let as_f64 = |(x, y): (i32, i32)| (f64::from(x), f64::from(y));
    assert_eq!(
        as_f64(content_position(ShellPosition::Left, ShellLayout::Vertical, (860, 886), (340, 886))),
        (0.0, 0.0)
    );
    assert_eq!(
        as_f64(content_position(ShellPosition::Right, ShellLayout::Vertical, (860, 886), (340, 886))),
        (520.0, 0.0)
    );
}

#[test]
fn picker_keys_move_apply_cancel_and_cycle() {
    assert_eq!(key_pressed(PickerKey::Left, false), KeyAction::MovePrevious);
    assert_eq!(key_pressed(PickerKey::Char('k'), false), KeyAction::MovePrevious);
    assert_eq!(key_pressed(PickerKey::Down, false), KeyAction::MoveNext);
    assert_eq!(key_pressed(PickerKey::Char('J'), false), KeyAction::MoveNext);
    assert_eq!(key_pressed(PickerKey::KeypadEnter, false), KeyAction::Apply);
    assert_eq!(key_pressed(PickerKey::Escape, false), KeyAction::Cancel);
    assert_eq!(key_pressed(PickerKey::Char('p'), false), KeyAction::Pass);
    assert_eq!(key_pressed(PickerKey::Char('P'), true), KeyAction::CyclePlacement);
    assert_eq!(key_pressed(PickerKey::Char('r'), false), KeyAction::Rescan);
    assert_eq!(key_pressed(PickerKey::Char('S'), false), KeyAction::Shuffle);
    assert_eq!(key_pressed(PickerKey::ControlLeft, false), KeyAction::ControlDown);
    assert!(!stops_propagation(KeyAction::ControlDown));
    assert!(!stops_propagation(key_pressed(PickerKey::Char('x'), true)));
    assert!(stops_propagation(KeyAction::Apply));
    assert!(!control_held_after_release(PickerKey::ControlRight, true));
    assert!(control_held_after_release(PickerKey::Char('p'), true));
}
