//! One simulation frame: the stages in their fixed order.
//!
//! Pointer projection comes first and is run by the caller, because the ray
//! cast that finds the clicked unit needs the pointer it leaves. Everything
//! after it runs here: drag tracking, drag classification, box selection,
//! single selection, deselection, destination assignment, locomotion.

use vstd::prelude::*;
use crate::gesture::{frame_after, DragState, PointerFrame};
use crate::resources::{BoxSelect, ButtonInput, GameCommands, MouseCoords};
use crate::units::{
    move_unit, moved, order_issued, ordered_if_fit, orders_fit, steerings, try_set_unit_destination, Steering, Unit,
};
use crate::utils::{
    box_selected, click_hits, deselect_all, deselected, drag_select, set_box_coords, set_drag_select, single_select,
    single_selected,
};

verus! {

/// What the outside world reports for one frame.
#[derive(Clone, Copy, Debug, PartialEq, Eq, Structural)]
pub struct FrameInput {
    /// Signals of the primary button.
    pub left: ButtonInput,
    /// Signals of the secondary button.
    pub right: ButtonInput,
    /// The nearest unit on the ray from the camera through the pointer, if
    /// the ray meets one.
    pub hit: Option<u64>,
    /// Length of the frame.
    pub elapsed: u32,
}

/// What a frame hands back to the outside world.
#[derive(Debug)]
pub struct FrameOutcome {
    /// False only if a movement order was due and could not be issued
    /// because it does not fit some selected unit.
    pub orders_fit: bool,
    /// What locomotion did, unit by unit.
    pub actions: Vec<Steering>,
}

/// The units after the three selection stages: box selection under the
/// given region and flag, then single selection, then deselection.
pub open spec fn selection_after(
    units: Seq<Unit>,
    region: BoxSelect,
    game_cmds: GameCommands,
    frame: FrameInput,
) -> Seq<Unit> {
    let boxed = if game_cmds.drag_select {
        box_selected(units, region)
    } else {
        units
    };
    let clicked = if click_hits(boxed, frame.left, frame.hit) {
        single_selected(boxed, frame.hit.unwrap())
    } else {
        boxed
    };
    if frame.right.just_pressed {
        deselected(clicked)
    } else {
        clicked
    }
}

/// The units after the selection stages and destination assignment.
/// `before` is the drag state the frame began with and `after` the one that
/// tracking and classification leave. Selection goes by the flag in
/// `after`. Destination assignment goes by the flag in `before`: on a
/// release, that is the flag as the ending gesture left it.
pub open spec fn orders_after(
    units: Seq<Unit>,
    mouse_coords: MouseCoords,
    before: DragState,
    after: DragState,
    frame: FrameInput,
) -> Seq<Unit> {
    ordered_if_fit(
        selection_after(units, after.box_coords, after.game_cmds, frame),
        mouse_coords.global,
        frame.left,
        before.game_cmds,
    )
}

/// Runs the stages after pointer projection, in order, on the pointer state
/// that projection left.
pub fn run_frame(
    mouse_coords: &MouseCoords,
    box_coords: &mut BoxSelect,
    game_cmds: &mut GameCommands,
    units: &mut Vec<Unit>,
    frame: &FrameInput,
) -> (outcome: FrameOutcome)
    ensures
        ({
            let before = DragState { box_coords: *old(box_coords), game_cmds: *old(game_cmds) };
            let after = frame_after(before, PointerFrame { input: frame.left, mouse_coords: *mouse_coords });
            let selection = selection_after(old(units)@, after.box_coords, after.game_cmds, *frame);
            let sent = orders_after(old(units)@, *mouse_coords, before, after, *frame);
            &&& *final(box_coords) == after.box_coords
            &&& *final(game_cmds) == after.game_cmds
            &&& outcome.orders_fit == (order_issued(frame.left, before.game_cmds) ==> orders_fit(
                selection,
                mouse_coords.global,
            ))
            &&& final(units)@ == moved(sent, frame.elapsed)
            &&& outcome.actions@ == steerings(sent, frame.elapsed)
        }),
{
    let gesture: GameCommands = *game_cmds;
    set_box_coords(box_coords, game_cmds, &frame.left, mouse_coords);
    set_drag_select(box_coords, game_cmds);
    drag_select(units, box_coords, game_cmds);
    single_select(units, &frame.left, frame.hit);
    deselect_all(units, &frame.right);
    let orders_fit: bool = try_set_unit_destination(units, mouse_coords, &frame.left, &gesture);
    let actions: Vec<Steering> = move_unit(units, frame.elapsed);
    FrameOutcome { orders_fit, actions }
}

} // verus!
