use rts_units::math::{Vec2, Vec3};
use rts_units::resources::{BoxSelect, ButtonInput, GameCommands, MouseCoords};
use rts_units::utils::{set_box_coords, set_drag_select, set_mouse_coords, DRAG_THRESHOLD};

const PRESS: ButtonInput = ButtonInput { just_pressed: true, pressed: true, just_released: false };
const HELD: ButtonInput = ButtonInput { just_pressed: false, pressed: true, just_released: false };
const RELEASE: ButtonInput = ButtonInput { just_pressed: false, pressed: false, just_released: true };
const TAP: ButtonInput = ButtonInput { just_pressed: true, pressed: false, just_released: true };
const IDLE: ButtonInput = ButtonInput { just_pressed: false, pressed: false, just_released: false };

fn pointer(x: i32, z: i32) -> MouseCoords {
    MouseCoords { global: Vec3::new(x, 0, z), local: Vec2::new(x / 10, z / 10) }
}

fn region(start: Vec3, end: Vec3) -> BoxSelect {
    BoxSelect { global_start: start, global_end: end, local_start: Vec2::new(0, 0), local_end: Vec2::new(0, 0) }
}

fn frame(area: &mut BoxSelect, flag: &mut GameCommands, input: &ButtonInput, mouse: &MouseCoords) {
    set_box_coords(area, flag, input, mouse);
    set_drag_select(area, flag);
}

#[test]
fn defaults_are_zero() {
    assert_eq!(MouseCoords::default(), MouseCoords { global: Vec3::new(0, 0, 0), local: Vec2::new(0, 0) });
    assert_eq!(BoxSelect::default(), region(Vec3::new(0, 0, 0), Vec3::new(0, 0, 0)));
    assert_eq!(GameCommands::default(), GameCommands { drag_select: false });
    assert_eq!(ButtonInput::default(), IDLE);
}

#[test]
fn set_mouse_coords_writes_both_fields() {
    let mut mouse = pointer(1_000, 2_000);
    set_mouse_coords(&mut mouse, Some(Vec2::new(640_000, 360_000)), Some(Vec3::new(10_000, 0, -4_000)));
    assert_eq!(mouse, MouseCoords { global: Vec3::new(10_000, 0, -4_000), local: Vec2::new(640_000, 360_000) });
}

#[test]
fn set_mouse_coords_without_cursor_keeps_the_previous_state() {
    let mut mouse = pointer(1_000, 2_000);
    set_mouse_coords(&mut mouse, None, Some(Vec3::new(10_000, 0, -4_000)));
    assert_eq!(mouse, pointer(1_000, 2_000));
    set_mouse_coords(&mut mouse, None, None);
    assert_eq!(mouse, pointer(1_000, 2_000));
}

#[test]
fn set_mouse_coords_without_ground_point_keeps_the_previous_state() {
    let mut mouse = pointer(1_000, 2_000);
    set_mouse_coords(&mut mouse, Some(Vec2::new(640_000, 360_000)), None);
    assert_eq!(mouse, pointer(1_000, 2_000));
}

#[test]
fn set_box_coords_press_captures_both_corners() {
    let mut area = BoxSelect::default();
    let mut flag = GameCommands::default();
    let mouse = pointer(3_000, 4_000);
    set_box_coords(&mut area, &mut flag, &PRESS, &mouse);
    assert_eq!(
        area,
        BoxSelect {
            global_start: mouse.global,
            global_end: mouse.global,
            local_start: mouse.local,
            local_end: mouse.local,
        }
    );
    assert!(!flag.drag_select);
}

#[test]
fn set_box_coords_hold_moves_the_end_corner_only() {
    let mut area = BoxSelect::default();
    let mut flag = GameCommands::default();
    let first = pointer(3_000, 4_000);
    let second = pointer(8_000, -1_000);
    set_box_coords(&mut area, &mut flag, &PRESS, &first);
    set_box_coords(&mut area, &mut flag, &HELD, &second);
    assert_eq!(
        area,
        BoxSelect {
            global_start: first.global,
            global_end: second.global,
            local_start: first.local,
            local_end: second.local,
        }
    );
}

#[test]
fn set_box_coords_release_empties_the_region_and_clears_the_flag() {
    let mut area = region(Vec3::new(1, 2, 3), Vec3::new(4, 5, 6));
    area.local_start = Vec2::new(7, 8);
    area.local_end = Vec2::new(9, 10);
    let mut flag = GameCommands { drag_select: true };
    set_box_coords(&mut area, &mut flag, &RELEASE, &pointer(3_000, 4_000));
    assert_eq!(area, BoxSelect::default());
    assert!(!flag.drag_select);
}

#[test]
fn set_box_coords_idle_changes_nothing() {
    let mut area = region(Vec3::new(1, 2, 3), Vec3::new(4, 5, 6));
    let mut flag = GameCommands { drag_select: true };
    set_box_coords(&mut area, &mut flag, &IDLE, &pointer(3_000, 4_000));
    assert_eq!(area, region(Vec3::new(1, 2, 3), Vec3::new(4, 5, 6)));
    assert!(flag.drag_select);
}

#[test]
fn empty_global_resets_all_four_corners() {
    let mut area = region(Vec3::new(1, 2, 3), Vec3::new(4, 5, 6));
    area.local_start = Vec2::new(7, 8);
    area.local_end = Vec2::new(9, 10);
    area.empty_global();
    assert_eq!(area, BoxSelect::default());
}

#[test]
fn press_and_release_within_one_frame_is_a_click() {
    let mut area = BoxSelect::default();
    let mut flag = GameCommands::default();
    frame(&mut area, &mut flag, &TAP, &pointer(90_000, 90_000));
    assert_eq!(area, BoxSelect::default());
    assert!(!flag.drag_select);
}

#[test]
fn drag_threshold_is_two_and_a_half_units() {
    assert_eq!(DRAG_THRESHOLD, 2_500);
}

#[test]
fn set_drag_select_needs_more_than_the_threshold() {
    let mut flag = GameCommands::default();
    set_drag_select(&region(Vec3::new(0, 0, 0), Vec3::new(2_500, 0, 2_500)), &mut flag);
    assert!(!flag.drag_select);
    set_drag_select(&region(Vec3::new(0, 0, 0), Vec3::new(-2_500, 0, -2_500)), &mut flag);
    assert!(!flag.drag_select);
    set_drag_select(&region(Vec3::new(0, 0, 0), Vec3::new(2_501, 0, 0)), &mut flag);
    assert!(flag.drag_select);
}

#[test]
fn set_drag_select_looks_at_either_ground_axis() {
    let mut along_z = GameCommands::default();
    set_drag_select(&region(Vec3::new(5_000, 0, 1_000), Vec3::new(5_000, 0, -1_501)), &mut along_z);
    assert!(along_z.drag_select);
    let mut along_x = GameCommands::default();
    set_drag_select(&region(Vec3::new(-1_000, 0, 0), Vec3::new(-3_501, 0, 0)), &mut along_x);
    assert!(along_x.drag_select);
}

#[test]
fn set_drag_select_ignores_height() {
    let mut flag = GameCommands::default();
    set_drag_select(&region(Vec3::new(0, 0, 0), Vec3::new(0, 900_000, 0)), &mut flag);
    assert!(!flag.drag_select);
}

#[test]
fn set_drag_select_spans_the_whole_coordinate_range() {
    let mut flag = GameCommands::default();
    set_drag_select(&region(Vec3::new(i32::MIN, 0, 0), Vec3::new(i32::MAX, 0, 0)), &mut flag);
    assert!(flag.drag_select);
}

#[test]
fn drag_flag_stays_set_when_the_drag_shrinks() {
    let mut area = BoxSelect::default();
    let mut flag = GameCommands::default();
    frame(&mut area, &mut flag, &PRESS, &pointer(0, 0));
    assert!(!flag.drag_select);
    frame(&mut area, &mut flag, &HELD, &pointer(3_000, 0));
    assert!(flag.drag_select);
    frame(&mut area, &mut flag, &HELD, &pointer(100, 0));
    assert!(flag.drag_select);
    frame(&mut area, &mut flag, &HELD, &pointer(0, 0));
    assert!(flag.drag_select);
    frame(&mut area, &mut flag, &RELEASE, &pointer(0, 0));
    assert!(!flag.drag_select);
    assert_eq!(area, BoxSelect::default());
}

#[test]
fn click_without_movement_is_never_a_drag() {
    let mut area = BoxSelect::default();
    let mut flag = GameCommands::default();
    let at = pointer(40_000, -70_000);
    frame(&mut area, &mut flag, &PRESS, &at);
    assert!(!flag.drag_select);
    assert_eq!(area.global_start, area.global_end);
    frame(&mut area, &mut flag, &HELD, &at);
    assert!(!flag.drag_select);
    frame(&mut area, &mut flag, &HELD, &at);
    assert!(!flag.drag_select);
    frame(&mut area, &mut flag, &RELEASE, &at);
    assert!(!flag.drag_select);
}

#[test]
fn small_movement_below_the_threshold_is_no_drag() {
    let mut area = BoxSelect::default();
    let mut flag = GameCommands::default();
    frame(&mut area, &mut flag, &PRESS, &pointer(1_000, 1_000));
    frame(&mut area, &mut flag, &HELD, &pointer(3_500, -1_500));
    assert!(!flag.drag_select);
}
