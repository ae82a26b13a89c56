use rts_units::frame::{run_frame, FrameInput};
use rts_units::math::{Impulse, Vec2, Vec3};
use rts_units::resources::{BoxSelect, ButtonInput, GameCommands, MouseCoords};
use rts_units::units::{all_orders_fit, set_unit_destination, try_set_unit_destination, Steering, Unit};
use rts_units::utils::set_mouse_coords;

const PRESS: ButtonInput = ButtonInput { just_pressed: true, pressed: true, just_released: false };
const HELD: ButtonInput = ButtonInput { just_pressed: false, pressed: true, just_released: false };
const RELEASE: ButtonInput = ButtonInput { just_pressed: false, pressed: false, just_released: true };
const IDLE: ButtonInput = ButtonInput { just_pressed: false, pressed: false, just_released: false };

struct Scene {
    mouse: MouseCoords,
    area: BoxSelect,
    flag: GameCommands,
    units: Vec<Unit>,
}

fn scene() -> Scene {
    Scene {
        mouse: MouseCoords::default(),
        area: BoxSelect::default(),
        flag: GameCommands::default(),
        units: vec![
            Unit::new(1, Vec3::new(0, 500, 0), 60_000, 1_000),
            Unit::new(2, Vec3::new(2_000, 500, 0), 60_000, 1_000),
            Unit::new(3, Vec3::new(4_000, 500, 0), 60_000, 1_000),
        ],
    }
}

fn step(scene: &mut Scene, at: (i32, i32), left: ButtonInput, right: ButtonInput, hit: Option<u64>) -> Vec<Steering> {
    set_mouse_coords(&mut scene.mouse, Some(Vec2::new(at.0 / 10, at.1 / 10)), Some(Vec3::new(at.0, 0, at.1)));
    let input = FrameInput { left, right, hit, elapsed: 100 };
    let outcome = run_frame(&scene.mouse, &mut scene.area, &mut scene.flag, &mut scene.units, &input);
    assert!(outcome.orders_fit);
    outcome.actions
}

fn selected_of(units: &[Unit]) -> Vec<u64> {
    units.iter().filter(|u| u.selected).map(|u| u.id).collect()
}

#[test]
fn click_selects_and_next_click_sends() {
    let mut s = scene();
    step(&mut s, (2_000, 0), PRESS, IDLE, Some(2));
    assert_eq!(selected_of(&s.units), vec![2]);
    assert!(!s.flag.drag_select);
    let actions = step(&mut s, (2_000, 0), RELEASE, IDLE, Some(2));
    assert_eq!(s.units[1].destination, None);
    assert_eq!(actions, vec![Steering::Idle, Steering::Arrived, Steering::Idle]);
    assert_eq!(s.area, BoxSelect::default());

    step(&mut s, (22_000, 0), PRESS, IDLE, None);
    assert_eq!(selected_of(&s.units), vec![2]);
    let actions = step(&mut s, (22_000, 0), RELEASE, IDLE, None);
    assert_eq!(s.units[1].destination, Some(Vec3::new(22_000, 500, 0)));
    assert_eq!(s.units[0].destination, None);
    assert_eq!(actions, vec![Steering::Idle, Steering::Push(Impulse { x: 6_000, y: 0, z: 0 }), Steering::Idle]);
}

#[test]
fn drag_selects_live_and_its_release_sends_nobody() {
    let mut s = scene();
    step(&mut s, (-1_000, -1_000), PRESS, IDLE, None);
    assert_eq!(selected_of(&s.units), Vec::<u64>::new());
    step(&mut s, (1_000, 1_000), HELD, IDLE, None);
    assert!(!s.flag.drag_select);
    assert_eq!(selected_of(&s.units), Vec::<u64>::new());
    step(&mut s, (5_000, 1_000), HELD, IDLE, None);
    assert!(s.flag.drag_select);
    assert_eq!(selected_of(&s.units), vec![1, 2, 3]);
    step(&mut s, (2_500, 1_000), HELD, IDLE, None);
    assert!(s.flag.drag_select);
    assert_eq!(selected_of(&s.units), vec![1, 2]);
    step(&mut s, (500, 500), HELD, IDLE, None);
    assert!(s.flag.drag_select);
    assert_eq!(selected_of(&s.units), vec![1]);
    let actions = step(&mut s, (500, 500), RELEASE, IDLE, None);
    assert!(!s.flag.drag_select);
    assert_eq!(s.area, BoxSelect::default());
    assert_eq!(selected_of(&s.units), vec![1]);
    assert_eq!(s.units[0].destination, None);
    assert_eq!(actions, vec![Steering::Idle, Steering::Idle, Steering::Idle]);
}

#[test]
fn secondary_button_clears_the_selection_but_not_the_movement() {
    let mut s = scene();
    step(&mut s, (0, 0), PRESS, IDLE, Some(1));
    step(&mut s, (0, 0), RELEASE, IDLE, Some(1));
    step(&mut s, (0, 30_000), PRESS, IDLE, None);
    step(&mut s, (0, 30_000), RELEASE, IDLE, None);
    assert_eq!(s.units[0].destination, Some(Vec3::new(0, 500, 30_000)));
    let actions = step(&mut s, (0, 30_000), IDLE, PRESS, None);
    assert_eq!(selected_of(&s.units), Vec::<u64>::new());
    assert_eq!(s.units[0].destination, Some(Vec3::new(0, 500, 30_000)));
    assert_eq!(actions[0], Steering::Push(Impulse { x: 0, y: 0, z: 6_000 }));
}

#[test]
fn deselection_comes_before_destination_assignment() {
    let mut s = scene();
    step(&mut s, (0, 0), PRESS, IDLE, Some(1));
    assert_eq!(selected_of(&s.units), vec![1]);
    step(&mut s, (0, 30_000), RELEASE, PRESS, None);
    assert_eq!(selected_of(&s.units), Vec::<u64>::new());
    assert_eq!(s.units[0].destination, None);
}

#[test]
fn press_and_release_within_one_frame_selects_and_sends() {
    let mut s = scene();
    let tap = ButtonInput { just_pressed: true, pressed: false, just_released: true };
    let actions = step(&mut s, (4_000, 9_000), tap, IDLE, Some(3));
    assert_eq!(selected_of(&s.units), vec![3]);
    assert_eq!(s.units[2].destination, Some(Vec3::new(4_000, 500, 9_000)));
    assert_eq!(actions[2], Steering::Push(Impulse { x: 0, y: 0, z: 6_000 }));
    assert!(!s.flag.drag_select);
    assert_eq!(s.area, BoxSelect::default());
}

#[test]
fn idle_frame_only_moves_units() {
    let mut s = scene();
    s.units[2].destination = Some(Vec3::new(4_000, 500, 1_000));
    s.units[0].selected = true;
    let actions = step(&mut s, (7_000, 7_000), IDLE, IDLE, Some(2));
    assert_eq!(actions, vec![Steering::Idle, Steering::Idle, Steering::Arrived]);
    assert_eq!(selected_of(&s.units), vec![1]);
    assert_eq!(s.units[2].destination, None);
    assert_eq!(s.area, BoxSelect::default());
}

#[test]
fn order_that_does_not_fit_is_not_issued() {
    let mut s = scene();
    s.units[0].selected = true;
    s.units[1].selected = true;
    s.units[1].height = 3_000;
    s.mouse = MouseCoords { global: Vec3::new(9_000, i32::MAX - 1_000, 9_000), local: Vec2::new(0, 0) };
    let input = FrameInput { left: RELEASE, right: IDLE, hit: None, elapsed: 100 };
    let outcome = run_frame(&s.mouse, &mut s.area, &mut s.flag, &mut s.units, &input);
    assert!(!outcome.orders_fit);
    assert_eq!(s.units[0].destination, None);
    assert_eq!(s.units[1].destination, None);
    assert_eq!(outcome.actions, vec![Steering::Idle, Steering::Idle, Steering::Idle]);
}

#[test]
fn all_orders_fit_looks_at_selected_units_only() {
    let high = Vec3::new(0, i32::MAX - 500, 0);
    let mut units = vec![Unit::new(1, Vec3::new(0, 0, 0), 1, 1_000), Unit::new(2, Vec3::new(0, 0, 0), 1, 1_002)];
    assert!(all_orders_fit(&units, high));
    units[0].selected = true;
    assert!(all_orders_fit(&units, high));
    units[1].selected = true;
    assert!(!all_orders_fit(&units, high));
    units[1].height = 1_001;
    assert!(all_orders_fit(&units, high));
    assert!(all_orders_fit(&units, Vec3::new(0, i32::MIN, 0)));
    units[1].height = u32::MAX;
    assert!(all_orders_fit(&units, Vec3::new(0, 0, 0)));
    assert!(!all_orders_fit(&units, Vec3::new(0, 1, 0)));
    assert!(all_orders_fit(&Vec::new(), Vec3::new(0, i32::MAX, 0)));
}

#[test]
fn try_set_unit_destination_agrees_with_the_plain_one() {
    let click = GameCommands { drag_select: false };
    let mouse = MouseCoords { global: Vec3::new(10_000, 0, 10_000), local: Vec2::new(0, 0) };
    let mut guarded = vec![Unit::new(1, Vec3::new(0, 500, 0), 60_000, 1_000), Unit::new(2, Vec3::new(0, 500, 0), 1, 7)];
    guarded[0].selected = true;
    let mut plain = guarded.clone();
    assert!(try_set_unit_destination(&mut guarded, &mouse, &RELEASE, &click));
    set_unit_destination(&mut plain, &mouse, &RELEASE, &click);
    assert_eq!(guarded, plain);
    assert_eq!(guarded[0].destination, Some(Vec3::new(10_000, 500, 10_000)));
    assert_eq!(guarded[1].destination, None);
}

#[test]
fn try_set_unit_destination_refuses_what_does_not_fit() {
    let click = GameCommands { drag_select: false };
    let drag = GameCommands { drag_select: true };
    let mouse = MouseCoords { global: Vec3::new(10_000, i32::MAX, 10_000), local: Vec2::new(0, 0) };
    let mut units = vec![Unit::new(1, Vec3::new(0, 500, 0), 60_000, 1), Unit::new(2, Vec3::new(0, 500, 0), 1, 2)];
    units[0].selected = true;
    assert!(try_set_unit_destination(&mut units, &mouse, &RELEASE, &click));
    assert_eq!(units[0].destination, Some(Vec3::new(10_000, i32::MAX, 10_000)));
    units[0].destination = None;
    units[1].selected = true;
    let before = units.clone();
    assert!(!try_set_unit_destination(&mut units, &mouse, &RELEASE, &click));
    assert_eq!(units, before);
    assert!(try_set_unit_destination(&mut units, &mouse, &RELEASE, &drag));
    assert_eq!(units, before);
    assert!(try_set_unit_destination(&mut units, &mouse, &HELD, &click));
    assert_eq!(units, before);
}
