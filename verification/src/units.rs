//! Units, their movement orders and their locomotion.

use vstd::prelude::*;
use crate::math::{
    dist_sq, distance_squared, is_sqrt_floor, isqrt, lemma_sqrt_floor_exists, lemma_sqrt_floor_is, sqrt_floor,
    Impulse, Vec3, ONE,
};
use crate::resources::{ButtonInput, GameCommands, MouseCoords};

verus! {

/// One controllable unit.
#[derive(Clone, Copy, Debug, PartialEq, Eq, Structural)]
pub struct Unit {
    /// Identifier of the entity this unit stands for.
    pub id: u64,
    /// Centre of the unit; written by the physics simulation only.
    pub position: Vec3,
    /// Vertical extent of the unit.
    pub height: u32,
    /// Travel speed, per second.
    pub speed: u32,
    /// Where the unit has been ordered to go, if anywhere.
    pub destination: Option<Vec3>,
    /// Whether the unit is part of the current selection.
    pub selected: bool,
}

/// The identifiers of the selected units.
pub open spec fn selected_ids(units: Seq<Unit>) -> Set<u64> {
    Set::new(|id: u64| exists|i: int| 0 <= i < units.len() && #[trigger] units[i].id == id && units[i].selected)
}

/// No two units share an identifier.
pub open spec fn distinct_ids(units: Seq<Unit>) -> bool {
    forall|i: int, j: int|
        0 <= i < units.len() && 0 <= j < units.len() && i != j ==> #[trigger] units[i].id != #[trigger] units[j].id
}

/// Whether some unit carries the identifier `id`.
pub open spec fn has_unit(units: Seq<Unit>, id: u64) -> bool {
    exists|i: int| 0 <= i < units.len() && #[trigger] units[i].id == id
}

/// `point` raised by half of `height`, so that a point on the ground
/// becomes the resting height of a unit's centre.
pub open spec fn lifted(point: Vec3, height: u32) -> Vec3 {
    Vec3 { y: (point.y + height / 2) as i32, ..point }
}

/// Whether `point` raised by half of `height` is still a representable
/// position.
pub open spec fn can_lift(point: Vec3, height: u32) -> bool {
    point.y + height / 2 <= i32::MAX
}

/// Whether this frame issues a movement order: the primary button went up
/// and the gesture it ends was not a drag.
pub open spec fn order_issued(input: ButtonInput, game_cmds: GameCommands) -> bool {
    input.just_released && !game_cmds.drag_select
}

/// The unit after a movement order to the ground point `point`: a selected
/// unit gets a fresh destination, any other unit is untouched.
pub open spec fn ordered_unit(unit: Unit, point: Vec3) -> Unit {
    if unit.selected {
        Unit { destination: Some(lifted(point, unit.height)), ..unit }
    } else {
        unit
    }
}

/// The units after a movement order to the ground point `point`.
pub open spec fn ordered(units: Seq<Unit>, point: Vec3) -> Seq<Unit> {
    Seq::new(units.len(), |i: int| ordered_unit(units[i], point))
}

/// Whether every selected unit can be sent to the ground point `point`.
pub open spec fn orders_fit(units: Seq<Unit>, point: Vec3) -> bool {
    forall|i: int| 0 <= i < units.len() && (#[trigger] units[i]).selected ==> can_lift(point, units[i].height)
}

/// Tells whether every selected unit can be sent to the ground point
/// `point`, that is, whether a movement order to it may be issued.
pub fn all_orders_fit(units: &Vec<Unit>, point: Vec3) -> (fit: bool)
    ensures
        fit == orders_fit(units@, point),
{
    let n: usize = units.len();
    let mut i: usize = 0;
    while i < n
        invariant
            i <= n,
            n == units@.len(),
            forall|j: int| 0 <= j < i && (#[trigger] units@[j]).selected ==> can_lift(point, units@[j].height),
        decreases n - i,
    {
        if units[i].selected && point.y as i64 + (units[i].height / 2) as i64 > i32::MAX as i64 {
            return false;
        }
        i += 1;
    }
    true
}

/// Destination assignment. `input` is the primary button and `game_cmds`
/// the drag flag as the ending gesture left it. When a click (not a drag)
/// is released, every selected unit is sent to the pointer's ground point,
/// raised by half the unit's height; an earlier destination is overwritten.
/// Otherwise nothing changes.
pub fn set_unit_destination(
    units: &mut Vec<Unit>,
    mouse_coords: &MouseCoords,
    input: &ButtonInput,
    game_cmds: &GameCommands,
)
    requires
        order_issued(*input, *game_cmds) ==> orders_fit(old(units)@, mouse_coords.global),
    ensures
        order_issued(*input, *game_cmds) ==> final(units)@ == ordered(old(units)@, mouse_coords.global),
        !order_issued(*input, *game_cmds) ==> final(units)@ == old(units)@,
{
    if !input.just_released || game_cmds.drag_select {
        return;
    }
    let n: usize = units.len();
    let mut i: usize = 0;
    while i < n
        invariant
            i <= n,
            n == units@.len(),
            n == old(units)@.len(),
            orders_fit(old(units)@, mouse_coords.global),
            forall|j: int| 0 <= j < i ==> #[trigger] units@[j] == ordered_unit(old(units)@[j], mouse_coords.global),
            forall|j: int| i <= j < n ==> #[trigger] units@[j] == old(units)@[j],
        decreases n - i,
    {
        if units[i].selected {
            let mut destination: Vec3 = mouse_coords.global;
            let half: i32 = (units[i].height / 2) as i32;
            destination.y = destination.y + half;
            units[i].destination = Some(destination);
        }
        i += 1;
    }
    assert(units@ =~= ordered(old(units)@, mouse_coords.global));
}

/// The units after destination assignment where it is guarded: an order
/// that some selected unit cannot take is not issued at all.
pub open spec fn ordered_if_fit(units: Seq<Unit>, point: Vec3, input: ButtonInput, game_cmds: GameCommands) -> Seq<
    Unit,
> {
    if order_issued(input, game_cmds) && orders_fit(units, point) {
        ordered(units, point)
    } else {
        units
    }
}

/// Destination assignment, guarded. Does what `set_unit_destination` does
/// wherever the order fits every selected unit. Where it does not, no unit
/// is touched and the result is `false`.
pub fn try_set_unit_destination(
    units: &mut Vec<Unit>,
    mouse_coords: &MouseCoords,
    input: &ButtonInput,
    game_cmds: &GameCommands,
) -> (fit: bool)
    ensures
        fit == (order_issued(*input, *game_cmds) ==> orders_fit(old(units)@, mouse_coords.global)),
        final(units)@ == ordered_if_fit(old(units)@, mouse_coords.global, *input, *game_cmds),
{
    if input.just_released && !game_cmds.drag_select && !all_orders_fit(units, mouse_coords.global) {
        return false;
    }
    set_unit_destination(units, mouse_coords, input, game_cmds);
    true
}

/// Slack added to the squared step when testing for arrival.
pub const ARRIVAL_TOLERANCE: u128 = 1;

/// What locomotion does with one unit in one frame.
#[derive(Clone, Copy, Debug, PartialEq, Eq, Structural)]
pub enum Steering {
    /// The unit has no destination and is left alone.
    Idle,
    /// The unit is within one frame's travel of its destination: the
    /// destination is cleared and no impulse is applied.
    Arrived,
    /// The unit is pushed toward its destination by this impulse.
    Push(Impulse),
}

/// Distance a unit of the given speed covers in `elapsed`, rounded down.
pub open spec fn frame_step(speed: u32, elapsed: u32) -> int {
    (speed * elapsed) / (ONE as int)
}

/// Whether a unit at `position` reaches `target` within this frame's step.
pub open spec fn has_arrived(position: Vec3, target: Vec3, speed: u32, elapsed: u32) -> bool {
    dist_sq(target, position) <= frame_step(speed, elapsed) * frame_step(speed, elapsed) + ARRIVAL_TOLERANCE
}

/// One component `d` of a displacement of length `len`, rescaled to length
/// `step` and rounded toward zero.
pub open spec fn rescaled(d: int, step: int, len: int) -> int {
    if d >= 0 {
        (d * step) / len
    } else {
        -(((-d) * step) / len)
    }
}

/// The impulse of one frame's step from `position` straight toward
/// `target`: the displacement, normalized by its rounded-down length and
/// scaled by the step.
pub open spec fn impulse_toward(position: Vec3, target: Vec3, speed: u32, elapsed: u32) -> Impulse {
    let len = sqrt_floor(dist_sq(target, position));
    let step = frame_step(speed, elapsed);
    Impulse {
        x: rescaled(target.x - position.x, step, len) as i64,
        y: rescaled(target.y - position.y, step, len) as i64,
        z: rescaled(target.z - position.z, step, len) as i64,
    }
}

/// What locomotion does with `unit` in a frame of length `elapsed`.
pub open spec fn steering(unit: Unit, elapsed: u32) -> Steering {
    match unit.destination {
        None => Steering::Idle,
        Some(target) => if has_arrived(unit.position, target, unit.speed, elapsed) {
            Steering::Arrived
        } else {
            Steering::Push(impulse_toward(unit.position, target, unit.speed, elapsed))
        },
    }
}

/// The unit after a frame of locomotion: its destination is cleared on
/// arrival and nothing else changes.
pub open spec fn moved_unit(unit: Unit, elapsed: u32) -> Unit {
    if steering(unit, elapsed) == Steering::Arrived {
        Unit { destination: None, ..unit }
    } else {
        unit
    }
}

/// The units after a frame of locomotion.
pub open spec fn moved(units: Seq<Unit>, elapsed: u32) -> Seq<Unit> {
    Seq::new(units.len(), |i: int| moved_unit(units[i], elapsed))
}

/// What locomotion does with each of the units.
pub open spec fn steerings(units: Seq<Unit>, elapsed: u32) -> Seq<Steering> {
    Seq::new(units.len(), |i: int| steering(units[i], elapsed))
}

/// A rescaled component is no longer than the step and keeps its sign.
pub proof fn lemma_rescaled_bounded(d: int, step: int, len: int)
    requires
        0 <= step,
        0 < len,
        -len <= d <= len,
    ensures
        -step <= rescaled(d, step, len) <= step,
        d >= 0 ==> rescaled(d, step, len) >= 0,
        d <= 0 ==> rescaled(d, step, len) <= 0,
{
    let a: int = if d >= 0 { d } else { -d };
    assert(d == 0 ==> d * step == 0) by (nonlinear_arith);
    assert(0 <= (a * step) / len <= step) by (nonlinear_arith)
        requires
            0 <= a <= len,
            0 <= step,
            0 < len,
    ;
}

/// The step of a frame fits well within 64 bits, and so does the product
/// it is computed from.
pub proof fn lemma_step_bounded(speed: u32, elapsed: u32)
    ensures
        0 <= speed * elapsed <= u64::MAX,
        0 <= frame_step(speed, elapsed) <= 0x0080_0000_0000_0000,
        0 <= frame_step(speed, elapsed) * frame_step(speed, elapsed) <= 0x4000_0000_0000_0000_0000_0000_0000,
{
    assert(0 <= speed * elapsed <= 0xFFFF_FFFF * 0xFFFF_FFFF) by (nonlinear_arith)
        requires
            0 <= speed <= 0xFFFF_FFFF,
            0 <= elapsed <= 0xFFFF_FFFF,
    ;
    let step: int = frame_step(speed, elapsed);
    assert(0 <= step * step <= 0x0080_0000_0000_0000 * 0x0080_0000_0000_0000) by (nonlinear_arith)
        requires
            0 <= step <= 0x0080_0000_0000_0000,
    ;
}

/// The rounded-down length `len` of the displacement from `position` to
/// `target` bounds each of its components, and is positive unless the two
/// points are at most one step of the scale apart.
pub proof fn lemma_displacement_length(position: Vec3, target: Vec3, len: int)
    requires
        is_sqrt_floor(len, dist_sq(target, position)),
    ensures
        -len <= target.x - position.x <= len,
        -len <= target.y - position.y <= len,
        -len <= target.z - position.z <= len,
        len < 0x2_0000_0000,
        dist_sq(target, position) > 1 ==> len > 0,
{
    let dx: int = target.x - position.x;
    let dy: int = target.y - position.y;
    let dz: int = target.z - position.z;
    let n: int = dist_sq(target, position);
    assert(0 <= dx * dx < 0x1_0000_0000_0000_0000) by (nonlinear_arith)
        requires
            -0x1_0000_0000 < dx < 0x1_0000_0000,
    ;
    assert(0 <= dy * dy < 0x1_0000_0000_0000_0000) by (nonlinear_arith)
        requires
            -0x1_0000_0000 < dy < 0x1_0000_0000,
    ;
    assert(0 <= dz * dz < 0x1_0000_0000_0000_0000) by (nonlinear_arith)
        requires
            -0x1_0000_0000 < dz < 0x1_0000_0000,
    ;
    assert(-len <= dx <= len) by (nonlinear_arith)
        requires
            0 <= len,
            0 <= dy * dy + dz * dz,
            dx * dx + (dy * dy + dz * dz) < (len + 1) * (len + 1),
    ;
    assert(-len <= dy <= len) by (nonlinear_arith)
        requires
            0 <= len,
            0 <= dx * dx + dz * dz,
            dy * dy + (dx * dx + dz * dz) < (len + 1) * (len + 1),
    ;
    assert(-len <= dz <= len) by (nonlinear_arith)
        requires
            0 <= len,
            0 <= dx * dx + dy * dy,
            dz * dz + (dx * dx + dy * dy) < (len + 1) * (len + 1),
    ;
    assert(len < 0x2_0000_0000) by (nonlinear_arith)
        requires
            0 <= len,
            len * len <= n,
            n < 3 * 0x1_0000_0000_0000_0000,
    ;
    assert(n > 1 ==> len > 0) by (nonlinear_arith)
        requires
            0 <= len,
            n < (len + 1) * (len + 1),
    ;
}

/// A push is never longer than one step on any axis, and on every axis it
/// points the way the destination lies.
pub proof fn lemma_push_within_step(position: Vec3, target: Vec3, speed: u32, elapsed: u32)
    requires
        !has_arrived(position, target, speed, elapsed),
    ensures
        ({
            let push = impulse_toward(position, target, speed, elapsed);
            let step = frame_step(speed, elapsed);
            &&& -step <= push.x <= step
            &&& -step <= push.y <= step
            &&& -step <= push.z <= step
            &&& (target.x >= position.x ==> push.x >= 0) && (target.x <= position.x ==> push.x <= 0)
            &&& (target.y >= position.y ==> push.y >= 0) && (target.y <= position.y ==> push.y <= 0)
            &&& (target.z >= position.z ==> push.z >= 0) && (target.z <= position.z ==> push.z <= 0)
        }),
{
    let step: int = frame_step(speed, elapsed);
    let n: int = dist_sq(target, position);
    lemma_step_bounded(speed, elapsed);
    lemma_sqrt_floor_exists(n);
    let len: int = sqrt_floor(n);
    lemma_displacement_length(position, target, len);
    lemma_rescaled_bounded(target.x - position.x, step, len);
    lemma_rescaled_bounded(target.y - position.y, step, len);
    lemma_rescaled_bounded(target.z - position.z, step, len);
}

/// A push along a single axis is exactly one step long: a unit whose
/// destination lies straight ahead on the x axis is pushed by the step on
/// that axis and not at all on the others.
pub proof fn lemma_push_along_x_is_one_step(position: Vec3, target: Vec3, speed: u32, elapsed: u32)
    requires
        !has_arrived(position, target, speed, elapsed),
        target.y == position.y,
        target.z == position.z,
    ensures
        ({
            let push = impulse_toward(position, target, speed, elapsed);
            let step = frame_step(speed, elapsed);
            &&& push.y == 0
            &&& push.z == 0
            &&& target.x > position.x ==> push.x == step
            &&& target.x < position.x ==> push.x == -step
        }),
{
    let dx: int = target.x - position.x;
    let step: int = frame_step(speed, elapsed);
    let a: int = if dx >= 0 { dx } else { -dx };
    lemma_step_bounded(speed, elapsed);
    assert(dist_sq(target, position) == a * a) by (nonlinear_arith)
        requires
            dist_sq(target, position) == dx * dx + (target.y - position.y) * (target.y - position.y) + (target.z
                - position.z) * (target.z - position.z),
            target.y - position.y == 0,
            target.z - position.z == 0,
            a == dx || a == -dx,
    ;
    assert(is_sqrt_floor(a, a * a)) by (nonlinear_arith)
        requires
            a >= 0,
    ;
    lemma_sqrt_floor_is(a, a * a);
    assert(a > 0) by (nonlinear_arith)
        requires
            a * a > 1,
            a >= 0,
    ;
    assert((a * step) / a == step) by (nonlinear_arith)
        requires
            a > 0,
    ;
    assert((0 * step) / a == 0) by (nonlinear_arith)
        requires
            a > 0,
    ;
}

fn rescale(d: i64, step: u64, len: u64) -> (r: i64)
    requires
        0 < len <= 0x2_0000_0000,
        -len <= d <= len,
        step <= 0x0080_0000_0000_0000,
    ensures
        r == rescaled(d as int, step as int, len as int),
{
    let a: u64 = if d >= 0 { d as u64 } else { (-d) as u64 };
    proof {
        lemma_rescaled_bounded(d as int, step as int, len as int);
        assert(a * step <= 0x2_0000_0000 * 0x0080_0000_0000_0000) by (nonlinear_arith)
            requires
                0 <= a <= 0x2_0000_0000,
                0 <= step <= 0x0080_0000_0000_0000,
        ;
    }
    let scaled: u128 = (a as u128) * (step as u128) / (len as u128);
    if d >= 0 {
        scaled as i64
    } else {
        -(scaled as i64)
    }
}

/// Steers a unit at `position` toward `target` for one frame: `None` when
/// the unit arrives within this frame's step, otherwise the impulse to
/// apply.
pub fn steer(position: Vec3, target: Vec3, speed: u32, elapsed: u32) -> (push: Option<Impulse>)
    ensures
        has_arrived(position, target, speed, elapsed) <==> push.is_none(),
        push.is_some() ==> push.unwrap() == impulse_toward(position, target, speed, elapsed),
{
    proof {
        lemma_step_bounded(speed, elapsed);
    }
    let distance: u128 = distance_squared(target, position);
    let step: u64 = (speed as u64) * (elapsed as u64) / (ONE as u64);
    if distance <= (step as u128) * (step as u128) + ARRIVAL_TOLERANCE {
        return None;
    }
    let len: u64 = isqrt(distance);
    proof {
        lemma_displacement_length(position, target, len as int);
    }
    let dx: i64 = target.x as i64 - position.x as i64;
    let dy: i64 = target.y as i64 - position.y as i64;
    let dz: i64 = target.z as i64 - position.z as i64;
    Some(Impulse { x: rescale(dx, step, len), y: rescale(dy, step, len), z: rescale(dz, step, len) })
}

/// Locomotion. For a frame of length `elapsed`, steers every unit that has a
/// destination: a unit within one step of it arrives and its destination is
/// cleared; any other is pushed straight toward it with an impulse one step
/// long. The result tells, unit by unit, what was done; the impulses are for
/// the physics simulation to apply.
pub fn move_unit(units: &mut Vec<Unit>, elapsed: u32) -> (actions: Vec<Steering>)
    ensures
        final(units)@ == moved(old(units)@, elapsed),
        actions@ == steerings(old(units)@, elapsed),
{
    let mut actions: Vec<Steering> = Vec::new();
    let n: usize = units.len();
    let mut i: usize = 0;
    while i < n
        invariant
            i <= n,
            n == units@.len(),
            n == old(units)@.len(),
            actions@.len() == i,
            forall|j: int| 0 <= j < i ==> #[trigger] units@[j] == moved_unit(old(units)@[j], elapsed),
            forall|j: int| i <= j < n ==> #[trigger] units@[j] == old(units)@[j],
            forall|j: int| 0 <= j < i ==> #[trigger] actions@[j] == steering(old(units)@[j], elapsed),
        decreases n - i,
    {
        let action: Steering = match units[i].destination {
            None => Steering::Idle,
            Some(new_pos) => match steer(units[i].position, new_pos, units[i].speed, elapsed) {
                None => Steering::Arrived,
                Some(impulse) => Steering::Push(impulse),
            },
        };
        if let Steering::Arrived = action {
            units[i].destination = None;
        }
        actions.push(action);
        i += 1;
    }
    assert(units@ =~= moved(old(units)@, elapsed));
    assert(actions@ =~= steerings(old(units)@, elapsed));
    actions
}

/// Distance between two rows of the starting grid (1.5 world units).
pub const ROW_SPACING: i32 = 1500;

/// Distance between two neighbours in a row of the starting grid (2 world
/// units).
pub const COLUMN_SPACING: i32 = 2000;

/// Height of a unit's centre above the ground at the start (0.5 world
/// units).
pub const SPAWN_HEIGHT: i32 = 500;

impl Unit {
    /// A fresh unit: at rest, without a destination, not selected. `size`
    /// is its vertical extent.
    pub fn new(id: u64, position: Vec3, speed: u32, size: u32) -> (unit: Unit)
        ensures
            unit == (Unit { id, position, height: size, speed, destination: None, selected: false }),
    {
        Unit { id, position, height: size, speed, destination: None, selected: false }
    }
}

/// Number of rows in the starting grid for a population of `units`.
pub open spec fn grid_rows(units: u16) -> int {
    units as int / 10
}

/// Number of units in each row of the starting grid: every second place of
/// `units / 5` places, the first one taken.
pub open spec fn grid_columns(units: u16) -> int {
    (units as int / 5 + 1) / 2
}

/// Where the unit in the given row and column of the starting grid stands.
pub open spec fn grid_point(row: int, column: int) -> Vec3 {
    Vec3 { x: (column * COLUMN_SPACING) as i32, y: SPAWN_HEIGHT, z: (row * ROW_SPACING) as i32 }
}

/// The starting positions for a population of `units`, row by row.
pub fn spawn_grid(units: u16) -> (points: Vec<Vec3>)
    ensures
        points@.len() == grid_rows(units) * grid_columns(units),
        forall|row: int, column: int|
            0 <= row < grid_rows(units) && 0 <= column < grid_columns(units) ==> points@[row * grid_columns(units)
                + column] == #[trigger] grid_point(row, column),
{
    let rows: u16 = units / 10;
    let columns: u16 = (units / 5 + 1) / 2;
    let mut points: Vec<Vec3> = Vec::new();
    let mut row: u16 = 0;
    while row < rows
        invariant
            row <= rows,
            rows == grid_rows(units),
            columns == grid_columns(units),
            points@.len() == row * columns,
            forall|r: int, c: int|
                0 <= r < row && 0 <= c < columns ==> points@[r * columns + c] == #[trigger] grid_point(r, c),
        decreases rows - row,
    {
        let offset: i32 = row as i32 * ROW_SPACING;
        let ghost filled: Seq<Vec3> = points@;
        let mut column: u16 = 0;
        while column < columns
            invariant
                row < rows,
                column <= columns,
                rows == grid_rows(units),
                columns == grid_columns(units),
                offset == row * ROW_SPACING,
                points@.len() == row * columns + column,
                filled.len() == row * columns,
                forall|k: int| 0 <= k < filled.len() ==> points@[k] == filled[k],
                forall|c: int| 0 <= c < column ==> points@[row * columns + c] == #[trigger] grid_point(row as int, c),
            decreases columns - column,
        {
            points.push(Vec3::new(column as i32 * COLUMN_SPACING, SPAWN_HEIGHT, offset));
            column += 1;
        }
        proof {
            assert((row + 1) * columns == row * columns + columns) by (nonlinear_arith);
            assert forall|r: int, c: int| 0 <= r < row + 1 && 0 <= c < columns implies points@[r * columns + c]
                == #[trigger] grid_point(r, c) by {
                if r < row {
                    assert(r * columns + c < row * columns) by (nonlinear_arith)
                        requires
                            0 <= r < row,
                            0 <= c < columns,
                    ;
                    assert(0 <= r * columns + c) by (nonlinear_arith)
                        requires
                            0 <= r,
                            0 <= c,
                            0 <= columns,
                    ;
                    assert(filled[r * columns + c] == grid_point(r, c));
                }
            }
        }
        row += 1;
    }
    points
}

} // verus!
