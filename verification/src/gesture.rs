//! A pointer gesture over several frames: what the drag region and the drag
//! flag come to when tracking and classification run frame after frame.

use vstd::prelude::*;
use crate::math::Vec3;
use crate::resources::{BoxSelect, ButtonInput, GameCommands, MouseCoords};
use crate::utils::{classified, exceeds_threshold, tracked_box, tracked_flag};

verus! {

/// The drag region together with the drag flag.
pub struct DragState {
    pub box_coords: BoxSelect,
    pub game_cmds: GameCommands,
}

/// What one frame feeds into the gesture: the primary button's signals and
/// the pointer state of that frame.
pub struct PointerFrame {
    pub input: ButtonInput,
    pub mouse_coords: MouseCoords,
}

/// The state after one frame: tracking first, then classification of the
/// region that tracking left.
pub open spec fn frame_after(state: DragState, frame: PointerFrame) -> DragState {
    let region = tracked_box(state.box_coords, frame.input, frame.mouse_coords);
    DragState {
        box_coords: region,
        game_cmds: classified(tracked_flag(state.game_cmds, frame.input), region),
    }
}

/// The state after a run of frames, first to last.
pub open spec fn frames_after(state: DragState, frames: Seq<PointerFrame>) -> DragState
    decreases frames.len(),
{
    if frames.len() == 0 {
        state
    } else {
        frame_after(frames_after(state, frames.drop_last()), frames.last())
    }
}

/// The drag flag latches. If the region exceeds the threshold after frame
/// `k`, and the button is not released in any later frame, the flag is set
/// after the last frame, however small the region has become since.
pub proof fn lemma_drag_flag_latches(state: DragState, frames: Seq<PointerFrame>, k: int)
    requires
        0 <= k < frames.len(),
        exceeds_threshold(frames_after(state, frames.take(k + 1)).box_coords),
        forall|j: int| k < j < frames.len() ==> !(#[trigger] frames[j]).input.just_released,
    ensures
        frames_after(state, frames).game_cmds.drag_select,
    decreases frames.len(),
{
    if frames.len() == k + 1 {
        assert(frames.take(k + 1) =~= frames);
    } else {
        let earlier = frames.drop_last();
        assert(earlier.take(k + 1) =~= frames.take(k + 1));
        assert forall|j: int| k < j < earlier.len() implies !(#[trigger] earlier[j]).input.just_released by {
            assert(earlier[j] == frames[j]);
        }
        lemma_drag_flag_latches(state, earlier, k);
        assert(!frames.last().input.just_released);
    }
}

/// Whether the frames are one press of the button with the pointer resting
/// at the ground point `point`: the button goes down in the first frame,
/// stays down until it is released in the last frame at the earliest, and
/// the pointer never leaves `point`.
pub open spec fn is_still_press(frames: Seq<PointerFrame>, point: Vec3) -> bool {
    &&& frames.len() > 0
    &&& frames[0].input.just_pressed
    &&& forall|i: int| 0 <= i < frames.len() ==> (#[trigger] frames[i]).input.well_formed()
    &&& forall|i: int| 0 <= i < frames.len() ==> (#[trigger] frames[i]).input.pressed || frames[i].input.just_released
    &&& forall|i: int| 0 <= i < frames.len() - 1 ==> !(#[trigger] frames[i]).input.just_released
    &&& forall|i: int| 0 <= i < frames.len() ==> (#[trigger] frames[i]).mouse_coords.global == point
}

proof fn lemma_still_press_held(state: DragState, frames: Seq<PointerFrame>, point: Vec3)
    requires
        !state.game_cmds.drag_select,
        is_still_press(frames, point),
        !frames.last().input.just_released,
    ensures
        !frames_after(state, frames).game_cmds.drag_select,
        frames_after(state, frames).box_coords.global_start == point,
        frames_after(state, frames).box_coords.global_end == point,
    decreases frames.len(),
{
    let earlier = frames.drop_last();
    if frames.len() == 1 {
        assert(frames_after(state, earlier) == state);
        assert(frames.last() == frames[0]);
    } else {
        assert(earlier[0] == frames[0]);
        assert forall|i: int| 0 <= i < earlier.len() implies (#[trigger] earlier[i]).input.well_formed() && (
        earlier[i].input.pressed || earlier[i].input.just_released) && !earlier[i].input.just_released
            && earlier[i].mouse_coords.global == point by {
            assert(earlier[i] == frames[i]);
        }
        assert(earlier.last() == earlier[earlier.len() - 1]);
        lemma_still_press_held(state, earlier, point);
    }
}

/// A press without pointer movement is never a drag: starting with the flag
/// clear, the flag is still clear after the last frame, released or not.
pub proof fn lemma_still_press_never_drags(state: DragState, frames: Seq<PointerFrame>, point: Vec3)
    requires
        !state.game_cmds.drag_select,
        is_still_press(frames, point),
    ensures
        !frames_after(state, frames).game_cmds.drag_select,
{
    if !frames.last().input.just_released {
        lemma_still_press_held(state, frames, point);
    }
}

} // verus!
