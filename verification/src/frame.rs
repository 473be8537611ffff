//! One frame of the engine: the pointer tracker first, then the drag
//! controller, then the stamp's countdown.

use crate::desk::Desk;
use crate::model::{DeskView, StampedMark};
use crate::pointer::{Cursor, Mouse, Window};
use vstd::prelude::*;

verus! {

/// What the pointer tracker gets to see in one frame.
#[derive(Clone, Copy, Debug)]
pub struct PointerInput {
    pub window: Window,
    /// This frame's sample of the pointing device, if there is one.
    pub cursor: Option<Cursor>,
}

/// What one frame brings in from outside.
#[derive(Clone, Copy, Debug)]
pub struct FrameInput {
    /// The window and the sample, or `None` where the scene has no camera
    /// that shows the desk: the pointer tracker then rests for this frame.
    pub pointer: Option<PointerInput>,
    /// Whether the pointer's button went down in this frame.
    pub just_pressed: bool,
    /// Whether the pointer's button went up in this frame.
    pub just_released: bool,
    /// How long the frame took, in nanoseconds.
    pub nanos: u64,
}

/// How the pointer should look.
#[derive(Clone, Copy, Debug, PartialEq, Eq, Structural)]
pub enum CursorIcon {
    Default,
    Grabbing,
}

/// What one frame hands back to the outside.
#[derive(Debug)]
pub struct FrameOutput {
    /// The look that the pointer should take, where it should change.
    pub cursor_icon: Option<CursorIcon>,
    /// The marks that were left in this frame.
    pub marks: Vec<StampedMark>,
    /// Whether the stamp's countdown ended in this frame: the sign to leave
    /// the scene.
    pub next_scene: bool,
}

/// The step at which a frame had to stop, because a number that it gives rise
/// to cannot be held, or because a stamp was let go on a desk without a
/// dossier.
#[derive(Clone, Copy, Debug, PartialEq, Eq, Structural)]
pub enum FrameFault {
    /// The pointer's delta or its flipped screen position cannot be held.
    Pointer,
    /// The position of a dragged entity after the move cannot be held.
    Drag,
    /// A stamp was let go and the desk has no dossier, or the position of its
    /// mark cannot be held.
    Release,
}

impl FrameInput {
    /// Whether the pointer tracker can do its work in this frame.
    pub open spec fn track_fits(self, mouse: Mouse) -> bool {
        self.pointer matches Some(sample) ==> mouse.track_fits(sample.window, sample.cursor)
    }

    /// The pointer after the pointer tracker has done its work in this frame.
    pub open spec fn track(self, mouse: Mouse) -> Mouse {
        match self.pointer {
            Some(sample) => mouse.after_frame(sample.window, sample.cursor),
            None => mouse,
        }
    }
}

impl DeskView {
    /// The desk after the drag controller has moved what is being dragged
    /// and has seen the button go down, where it did.
    pub open spec fn after_press(self, mouse: Mouse, input: FrameInput) -> DeskView {
        let moved = self.dragged(mouse.position_delta);
        if input.just_pressed {
            moved.grabbed(mouse.position)
        } else {
            moved
        }
    }

    /// The desk after the drag controller has also seen the button go up,
    /// where it did.
    pub open spec fn after_release(self, mouse: Mouse, input: FrameInput) -> DeskView {
        let pressed = self.after_press(mouse, input);
        if input.just_released {
            pressed.released()
        } else {
            pressed
        }
    }

    /// The step at which the frame stops early, if it does. `mouse` is the
    /// pointer before the frame.
    pub open spec fn frame_fault(self, mouse: Mouse, input: FrameInput) -> Option<FrameFault> {
        let pointer = input.track(mouse);
        if !input.track_fits(mouse) {
            Some(FrameFault::Pointer)
        } else if !self.drag_fits(pointer.position_delta) {
            Some(FrameFault::Drag)
        } else if input.just_released && !self.after_press(pointer, input).release_fits() {
            Some(FrameFault::Release)
        } else {
            None
        }
    }

    /// The desk after a whole frame. `mouse` is the pointer before the frame.
    pub open spec fn after_frame(self, mouse: Mouse, input: FrameInput) -> DeskView {
        let pointer = input.track(mouse);
        self.after_release(pointer, input).ticked(input.nanos)
    }

    /// The look that the pointer should take after a whole frame: the default
    /// one where the button went up, else the grabbing one where something
    /// was picked up.
    pub open spec fn frame_icon(self, mouse: Mouse, input: FrameInput) -> Option<CursorIcon> {
        let pointer = input.track(mouse);
        if input.just_released {
            Some(CursorIcon::Default)
        } else if input.just_pressed && self.dragged(pointer.position_delta).front(
            pointer.position,
        ) is Some {
            Some(CursorIcon::Grabbing)
        } else {
            None
        }
    }

    /// The marks that are left in a whole frame.
    pub open spec fn frame_marks(self, mouse: Mouse, input: FrameInput) -> Seq<StampedMark> {
        let pointer = input.track(mouse);
        if input.just_released {
            self.after_press(pointer, input).stamped_marks()
        } else {
            Seq::empty()
        }
    }
}

impl Desk {
    /// Runs one frame. The pointer takes its sample. What is being dragged
    /// moves by the pointer's delta. Then the button is seen: where it went
    /// down, the object under the pointer is picked up, and where it went up,
    /// everything is let go and the stamps leave their marks. So what is
    /// picked up in a frame first moves in the next, and what is let go has
    /// moved in this one. Last, the stamp's countdown runs on by the length of
    /// the frame.
    ///
    /// A frame that cannot go on stops with the fault that names the step,
    /// with the steps before it done and nothing else changed.
    pub fn frame(&mut self, mouse: &mut Mouse, input: &FrameInput) -> (done: Result<
        FrameOutput,
        FrameFault,
    >)
        requires
            old(self).wf(),
        ensures
            final(self).wf(),
            match done {
                Ok(output) => {
                    &&& old(self)@.frame_fault(*old(mouse), *input) is None
                    &&& *final(mouse) == input.track(*old(mouse))
                    &&& final(self)@ == old(self)@.after_frame(*old(mouse), *input)
                    &&& output.cursor_icon == old(self)@.frame_icon(*old(mouse), *input)
                    &&& output.marks@ == old(self)@.frame_marks(*old(mouse), *input)
                    &&& output.next_scene == old(self)@.after_release(
                        *final(mouse),
                        *input,
                    ).stamp_status.fires(input.nanos)
                },
                Err(fault) => {
                    &&& old(self)@.frame_fault(*old(mouse), *input) == Some(fault)
                    &&& match fault {
                        FrameFault::Pointer => {
                            &&& *final(mouse) == *old(mouse)
                            &&& final(self)@ == old(self)@
                        },
                        FrameFault::Drag => {
                            &&& *final(mouse) == input.track(*old(mouse))
                            &&& final(self)@ == old(self)@
                        },
                        FrameFault::Release => {
                            &&& *final(mouse) == input.track(*old(mouse))
                            &&& final(self)@ == old(self)@.after_press(*final(mouse), *input)
                        },
                    }
                },
            },
    {
        match input.pointer {
            Some(sample) => {
                if !mouse.can_track(&sample.window, sample.cursor) {
                    return Err(FrameFault::Pointer);
                }
                mouse.calc_mouse_pos(&sample.window, sample.cursor);
            },
            None => {},
        }
        if !self.can_drag(mouse) {
            return Err(FrameFault::Drag);
        }
        self.drag(mouse);
        let mut cursor_icon: Option<CursorIcon> = None;
        if input.just_pressed {
            if self.begin_being_dragged(mouse).is_some() {
                cursor_icon = Some(CursorIcon::Grabbing);
            }
        }
        let mut marks: Vec<StampedMark> = Vec::new();
        if input.just_released {
            if !self.can_release() {
                return Err(FrameFault::Release);
            }
            marks = self.stop_being_dragged();
            cursor_icon = Some(CursorIcon::Default);
        }
        let next_scene = self.check_timer(input.nanos);
        Ok(FrameOutput { cursor_icon, marks, next_scene })
    }
}

} // verus!
