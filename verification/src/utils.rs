//! Pointer tracking, drag classification and selection.

use vstd::prelude::*;
use crate::math::{abs_diff, span, Vec2, Vec3};
use crate::resources::{BoxSelect, ButtonInput, GameCommands, MouseCoords};
use crate::units::{distinct_ids, has_unit, selected_ids, Unit};

verus! {

/// A drag becomes a box selection once it spans more than this on either
/// ground-plane axis (2.5 world units).
pub const DRAG_THRESHOLD: u32 = 2500;

/// Smaller of two coordinates.
pub open spec fn lower(a: i32, b: i32) -> i32 {
    if a <= b {
        a
    } else {
        b
    }
}

/// Larger of two coordinates.
pub open spec fn upper(a: i32, b: i32) -> i32 {
    if a >= b {
        a
    } else {
        b
    }
}

/// Whether `p` lies in the closed ground-plane rectangle spanned by the
/// drag's two world corners. Height plays no part.
pub open spec fn in_box(p: Vec3, region: BoxSelect) -> bool {
    &&& lower(region.global_start.x, region.global_end.x) <= p.x <= upper(region.global_start.x, region.global_end.x)
    &&& lower(region.global_start.z, region.global_end.z) <= p.z <= upper(region.global_start.z, region.global_end.z)
}

/// The unit as box selection leaves it: selected exactly if it stands in the
/// rectangle, otherwise untouched.
pub open spec fn box_marked(unit: Unit, region: BoxSelect) -> Unit {
    Unit { selected: in_box(unit.position, region), ..unit }
}

/// The units as box selection leaves them.
pub open spec fn box_selected(units: Seq<Unit>, region: BoxSelect) -> Seq<Unit> {
    Seq::new(units.len(), |i: int| box_marked(units[i], region))
}

/// Box selection. While a drag is active, selects every unit whose
/// ground-plane position lies within the dragged rectangle and deselects
/// every other unit. Without an active drag it changes nothing.
pub fn drag_select(units: &mut Vec<Unit>, box_coords: &BoxSelect, game_cmds: &GameCommands)
    ensures
        game_cmds.drag_select ==> final(units)@ == box_selected(old(units)@, *box_coords),
        !game_cmds.drag_select ==> final(units)@ == old(units)@,
{
    if !game_cmds.drag_select {
        return;
    }
    let start: Vec3 = box_coords.global_start;
    let end: Vec3 = box_coords.global_end;

    let min_x: i32 = if start.x <= end.x { start.x } else { end.x };
    let max_x: i32 = if start.x >= end.x { start.x } else { end.x };
    let min_z: i32 = if start.z <= end.z { start.z } else { end.z };
    let max_z: i32 = if start.z >= end.z { start.z } else { end.z };

    let n: usize = units.len();
    let mut i: usize = 0;
    while i < n
        invariant
            i <= n,
            n == units@.len(),
            n == old(units)@.len(),
            min_x == lower(box_coords.global_start.x, box_coords.global_end.x),
            max_x == upper(box_coords.global_start.x, box_coords.global_end.x),
            min_z == lower(box_coords.global_start.z, box_coords.global_end.z),
            max_z == upper(box_coords.global_start.z, box_coords.global_end.z),
            forall|j: int| 0 <= j < i ==> #[trigger] units@[j] == box_marked(old(units)@[j], *box_coords),
            forall|j: int| i <= j < n ==> #[trigger] units@[j] == old(units)@[j],
        decreases n - i,
    {
        let unit_pos: Vec3 = units[i].position;
        let in_box_bounds: bool = unit_pos.x >= min_x && unit_pos.x <= max_x && unit_pos.z >= min_z
            && unit_pos.z <= max_z;
        units[i].selected = in_box_bounds;
        i += 1;
    }
    assert(units@ =~= box_selected(old(units)@, *box_coords));
}

/// The unit as a click on the unit `id` leaves it: selected exactly if it
/// is that unit, otherwise untouched.
pub open spec fn single_marked(unit: Unit, id: u64) -> Unit {
    Unit { selected: unit.id == id, ..unit }
}

/// The units as a click on the unit `id` leaves them.
pub open spec fn single_selected(units: Seq<Unit>, id: u64) -> Seq<Unit> {
    Seq::new(units.len(), |i: int| single_marked(units[i], id))
}

/// Whether this frame's click picks a unit: the primary button went down
/// and the ray through the pointer met one of the units.
pub open spec fn click_hits(units: Seq<Unit>, input: ButtonInput, hit: Option<u64>) -> bool {
    input.just_pressed && hit.is_some() && has_unit(units, hit.unwrap())
}

/// Whether one of the units carries the identifier `id`.
pub fn contains_unit(units: &Vec<Unit>, id: u64) -> (found: bool)
    ensures
        found == has_unit(units@, id),
{
    let n: usize = units.len();
    let mut i: usize = 0;
    while i < n
        invariant
            i <= n,
            n == units@.len(),
            forall|j: int| 0 <= j < i ==> (#[trigger] units@[j]).id != id,
        decreases n - i,
    {
        if units[i].id == id {
            return true;
        }
        i += 1;
    }
    false
}

/// Single selection. `input` is the primary button and `hit` the nearest
/// unit on the ray from the camera through the pointer, if the ray met one.
/// On the press edge, a hit clears the whole selection and then selects the
/// hit unit, so that it ends up the only selected one. Without a press edge,
/// or without a hit on a unit, nothing changes.
pub fn single_select(units: &mut Vec<Unit>, input: &ButtonInput, hit: Option<u64>)
    ensures
        click_hits(old(units)@, *input, hit) ==> final(units)@ == single_selected(old(units)@, hit.unwrap()),
        !click_hits(old(units)@, *input, hit) ==> final(units)@ == old(units)@,
{
    if !input.just_pressed {
        return;
    }
    if let Some(ent) = hit {
        if !contains_unit(units, ent) {
            return;
        }
        let n: usize = units.len();
        let mut i: usize = 0;
        while i < n
            invariant
                i <= n,
                n == units@.len(),
                n == old(units)@.len(),
                forall|j: int| 0 <= j < i ==> #[trigger] units@[j] == single_marked(old(units)@[j], ent),
                forall|j: int| i <= j < n ==> #[trigger] units@[j] == old(units)@[j],
            decreases n - i,
        {
            let is_hit: bool = units[i].id == ent;
            units[i].selected = is_hit;
            i += 1;
        }
        assert(units@ =~= single_selected(old(units)@, ent));
    }
}

/// The unit with its selection mark removed.
pub open spec fn unmarked(unit: Unit) -> Unit {
    Unit { selected: false, ..unit }
}

/// The units with every selection mark removed.
pub open spec fn deselected(units: Seq<Unit>) -> Seq<Unit> {
    Seq::new(units.len(), |i: int| unmarked(units[i]))
}

/// Deselection. `input` is the secondary button: on its press edge every
/// unit leaves the selection; otherwise nothing changes. Destinations are
/// kept, so a deselected unit goes on moving.
pub fn deselect_all(units: &mut Vec<Unit>, input: &ButtonInput)
    ensures
        input.just_pressed ==> final(units)@ == deselected(old(units)@),
        !input.just_pressed ==> final(units)@ == old(units)@,
{
    if input.just_pressed {
        let n: usize = units.len();
        let mut i: usize = 0;
        while i < n
            invariant
                i <= n,
                n == units@.len(),
                n == old(units)@.len(),
                forall|j: int| 0 <= j < i ==> #[trigger] units@[j] == unmarked(old(units)@[j]),
                forall|j: int| i <= j < n ==> #[trigger] units@[j] == old(units)@[j],
            decreases n - i,
        {
            units[i].selected = false;
            i += 1;
        }
        assert(units@ =~= deselected(old(units)@));
    }
}

/// The pointer state after a frame's projection. `cursor` is the pointer's
/// window position, absent while it is outside the window; `ground` is the
/// point where the ray through it meets the ground plane, absent when the
/// ray runs parallel to the plane or away from it.
pub open spec fn projected(before: MouseCoords, cursor: Option<Vec2>, ground: Option<Vec3>) -> MouseCoords {
    if cursor.is_some() && ground.is_some() {
        MouseCoords { global: ground.unwrap(), local: cursor.unwrap() }
    } else {
        before
    }
}

/// Pointer projection. Records the pointer's window position together with
/// its ground-plane point. When either is absent the frame is skipped and
/// the previous state stays as it was: both fields change or neither does.
pub fn set_mouse_coords(mouse_coords: &mut MouseCoords, cursor: Option<Vec2>, ground: Option<Vec3>)
    ensures
        *final(mouse_coords) == projected(*old(mouse_coords), cursor, ground),
{
    let Some(local_cursor) = cursor else {
        return;
    };
    let Some(global_cursor) = ground else {
        return;
    };
    mouse_coords.global = global_cursor;
    mouse_coords.local = local_cursor;
}

/// The drag region after one frame of tracking.
pub open spec fn tracked_box(before: BoxSelect, input: ButtonInput, mouse: MouseCoords) -> BoxSelect {
    if input.just_released {
        BoxSelect::empty()
    } else {
        BoxSelect {
            global_start: if input.just_pressed { mouse.global } else { before.global_start },
            local_start: if input.just_pressed { mouse.local } else { before.local_start },
            global_end: if input.pressed { mouse.global } else { before.global_end },
            local_end: if input.pressed { mouse.local } else { before.local_end },
        }
    }
}

/// The drag flag after one frame of tracking: cleared on release, otherwise
/// kept.
pub open spec fn tracked_flag(before: GameCommands, input: ButtonInput) -> GameCommands {
    GameCommands { drag_select: before.drag_select && !input.just_released }
}

/// Drag-region tracking. `input` is the primary button. On the press edge
/// the start corner takes the pointer's position; while the button is down
/// the end corner follows the pointer; on release the region is emptied and
/// the drag flag cleared.
pub fn set_box_coords(
    box_coords: &mut BoxSelect,
    game_cmds: &mut GameCommands,
    input: &ButtonInput,
    mouse_coords: &MouseCoords,
)
    ensures
        *final(box_coords) == tracked_box(*old(box_coords), *input, *mouse_coords),
        *final(game_cmds) == tracked_flag(*old(game_cmds), *input),
{
    if input.just_pressed {
        box_coords.global_start = mouse_coords.global;
        box_coords.local_start = mouse_coords.local;
    }
    if input.pressed {
        box_coords.local_end = mouse_coords.local;
        box_coords.global_end = mouse_coords.global;
    }
    if input.just_released {
        box_coords.empty_global();
        game_cmds.drag_select = false;
    }
}

/// Whether the region spans more than the drag threshold on either
/// ground-plane axis. Height plays no part.
pub open spec fn exceeds_threshold(region: BoxSelect) -> bool {
    ||| span(region.global_start.z as int, region.global_end.z as int) > DRAG_THRESHOLD
    ||| span(region.global_start.x as int, region.global_end.x as int) > DRAG_THRESHOLD
}

/// The drag flag after one frame of classification: set once the region
/// exceeds the threshold, and never cleared here.
pub open spec fn classified(before: GameCommands, region: BoxSelect) -> GameCommands {
    GameCommands { drag_select: before.drag_select || exceeds_threshold(region) }
}

/// Drag classification. Sets the drag flag once the region spans more than
/// the threshold on either ground-plane axis; a flag that is set stays set.
pub fn set_drag_select(box_coords: &BoxSelect, game_cmds: &mut GameCommands)
    ensures
        *final(game_cmds) == classified(*old(game_cmds), *box_coords),
{
    let width_z: u32 = abs_diff(box_coords.global_start.z, box_coords.global_end.z);
    let width_x: u32 = abs_diff(box_coords.global_start.x, box_coords.global_end.x);

    if width_z > DRAG_THRESHOLD || width_x > DRAG_THRESHOLD {
        game_cmds.drag_select = true;
    }
}

/// Whether `p` lies inside the dragged rectangle and off its border.
pub open spec fn strictly_inside(p: Vec3, region: BoxSelect) -> bool {
    &&& lower(region.global_start.x, region.global_end.x) < p.x < upper(region.global_start.x, region.global_end.x)
    &&& lower(region.global_start.z, region.global_end.z) < p.z < upper(region.global_start.z, region.global_end.z)
}

/// Whether `p` lies outside the dragged rectangle and off its border.
pub open spec fn strictly_outside(p: Vec3, region: BoxSelect) -> bool {
    ||| p.x < lower(region.global_start.x, region.global_end.x)
    ||| p.x > upper(region.global_start.x, region.global_end.x)
    ||| p.z < lower(region.global_start.z, region.global_end.z)
    ||| p.z > upper(region.global_start.z, region.global_end.z)
}

/// Box selection is idempotent: selecting again with the same rectangle and
/// the same unit positions changes nothing, so the selected set is the same.
pub proof fn lemma_box_selection_idempotent(units: Seq<Unit>, region: BoxSelect)
    ensures
        box_selected(box_selected(units, region), region) == box_selected(units, region),
        selected_ids(box_selected(box_selected(units, region), region)) == selected_ids(
            box_selected(units, region),
        ),
{
    assert(box_selected(box_selected(units, region), region) =~= box_selected(units, region));
}

/// After box selection every unit strictly inside the rectangle is selected
/// and every unit strictly outside it is not; where identifiers are
/// distinct, the selected set says the same.
pub proof fn lemma_box_selection_membership(units: Seq<Unit>, region: BoxSelect, i: int)
    requires
        0 <= i < units.len(),
    ensures
        strictly_inside(units[i].position, region) ==> box_selected(units, region)[i].selected,
        strictly_outside(units[i].position, region) ==> !box_selected(units, region)[i].selected,
        strictly_inside(units[i].position, region) ==> selected_ids(box_selected(units, region)).contains(
            units[i].id,
        ),
        strictly_outside(units[i].position, region) && distinct_ids(units) ==> !selected_ids(
            box_selected(units, region),
        ).contains(units[i].id),
{
    let after = box_selected(units, region);
    if strictly_inside(units[i].position, region) {
        assert(after[i].id == units[i].id && after[i].selected);
    }
    if strictly_outside(units[i].position, region) && distinct_ids(units) {
        assert forall|j: int| 0 <= j < after.len() && #[trigger] after[j].id == units[i].id implies !after[j].selected by {
            assert(units[j].id == units[i].id);
            assert(j == i);
        }
    }
}

/// A click that hits a unit leaves exactly that unit selected, whatever was
/// selected before: the selected set is the hit unit alone.
pub proof fn lemma_single_selection_exclusive(units: Seq<Unit>, id: u64)
    requires
        has_unit(units, id),
    ensures
        selected_ids(single_selected(units, id)) == set![id],
        selected_ids(single_selected(units, id)).len() == 1,
        exists|k: int| 0 <= k < units.len() && (#[trigger] single_selected(units, id)[k]).selected,
        distinct_ids(units) ==> forall|i: int, j: int|
            0 <= i < units.len() && 0 <= j < units.len() && (#[trigger] single_selected(units, id)[i]).selected
                && (#[trigger] single_selected(units, id)[j]).selected ==> i == j,
{
    let after = single_selected(units, id);
    let k = choose|k: int| 0 <= k < units.len() && #[trigger] units[k].id == id;
    assert(after[k].id == id && after[k].selected);
    assert(selected_ids(after) =~= set![id]);
    if distinct_ids(units) {
        assert forall|i: int, j: int|
            0 <= i < units.len() && 0 <= j < units.len() && (#[trigger] after[i]).selected && (
            #[trigger] after[j]).selected implies i == j by {
            assert(units[i].id == units[j].id);
        }
    }
}

/// A click on the only selected unit leaves the selection as it was.
pub proof fn lemma_single_selection_keeps_sole(units: Seq<Unit>, id: u64)
    requires
        forall|j: int| 0 <= j < units.len() ==> ((#[trigger] units[j]).selected <==> units[j].id == id),
    ensures
        single_selected(units, id) == units,
{
    assert(single_selected(units, id) =~= units);
}

/// Deselection empties the selected set, whatever its size was, and touches
/// nothing but the selection marks.
pub proof fn lemma_deselected_is_empty(units: Seq<Unit>)
    ensures
        selected_ids(deselected(units)) == Set::<u64>::empty(),
        selected_ids(units) == Set::<u64>::empty() ==> deselected(units) == units,
        forall|i: int|
            0 <= i < units.len() ==> (#[trigger] deselected(units)[i]).destination == units[i].destination,
{
    assert(selected_ids(deselected(units)) =~= Set::<u64>::empty());
    if selected_ids(units) == Set::<u64>::empty() {
        assert forall|i: int| 0 <= i < units.len() implies !(#[trigger] units[i]).selected by {
            if units[i].selected {
                assert(selected_ids(units).contains(units[i].id));
            }
        }
        assert(deselected(units) =~= units);
    }
}

/// A region whose two corners coincide is no drag: classification leaves
/// the flag as it finds it.
pub proof fn lemma_point_region_is_no_drag(before: GameCommands, region: BoxSelect)
    requires
        region.global_start == region.global_end,
    ensures
        !exceeds_threshold(region),
        classified(before, region) == before,
{
}

/// The four ground-level edges of the dragged rectangle, each from one
/// corner to the next: the two edges leaving the start corner, then the two
/// edges arriving at the end corner.
pub open spec fn outline(region: BoxSelect) -> Seq<(Vec3, Vec3)> {
    let start = region.global_start;
    let end = region.global_end;
    seq![
        (start, Vec3 { x: end.x, y: 0, z: start.z }),
        (start, Vec3 { x: start.x, y: 0, z: end.z }),
        (Vec3 { x: start.x, y: 0, z: end.z }, end),
        (Vec3 { x: end.x, y: 0, z: start.z }, end),
    ]
}

/// The outline to draw while a drag is active: the four edges of the
/// dragged rectangle, or nothing when no drag is active.
pub fn drag_outline(box_coords: &BoxSelect, game_cmds: &GameCommands) -> (edges: Option<[(Vec3, Vec3); 4]>)
    ensures
        game_cmds.drag_select <==> edges.is_some(),
        edges.is_some() ==> edges.unwrap()@ == outline(*box_coords),
{
    if !game_cmds.drag_select {
        return None;
    }
    let start: Vec3 = box_coords.global_start;
    let end: Vec3 = box_coords.global_end;
    let edges: [(Vec3, Vec3); 4] = [
        (start, Vec3::new(end.x, 0, start.z)),
        (start, Vec3::new(start.x, 0, end.z)),
        (Vec3::new(start.x, 0, end.z), end),
        (Vec3::new(end.x, 0, start.z), end),
    ];
    assert(edges@ =~= outline(*box_coords));
    Some(edges)
}

} // verus!
