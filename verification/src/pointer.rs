//! The pointer tracker: where the pointer is, and how far it moved since the
//! sample before.

use crate::geometry::Vec2;
use vstd::prelude::*;

verus! {

/// The extent of the viewable area, in screen units.
#[derive(Clone, Copy, Debug, PartialEq, Eq, Structural)]
pub struct Window {
    pub width: i64,
    pub height: i64,
}

/// One sample of the pointing device: where it is on the screen, and the point
/// of the desk that the camera shows there.
#[derive(Clone, Copy, Debug, PartialEq, Eq, Structural)]
pub struct Cursor {
    pub screen: Vec2,
    pub world: Vec2,
}

/// The state of the pointer, written once per frame by `calc_mouse_pos`.
#[derive(Clone, Copy, Debug, PartialEq, Eq, Structural)]
pub struct Mouse {
    /// Position in world coordinates.
    pub position: Vec2,
    /// Position in the window.
    pub screen_position: Vec2,
    /// Position in the window, measured from the opposite horizontal edge.
    pub screen_pos_inverted: Vec2,
    pub out_of_bounds: bool,
    /// How far `position` moved when it was last sampled.
    pub position_delta: Vec2,
}

impl Default for Mouse {
    fn default() -> (mouse: Mouse)
        ensures
            mouse == Mouse::at_rest(),
    {
        Mouse {
            position: Vec2 { x: 0, y: 0 },
            screen_position: Vec2 { x: 0, y: 0 },
            screen_pos_inverted: Vec2 { x: 0, y: 0 },
            out_of_bounds: false,
            position_delta: Vec2 { x: 0, y: 0 },
        }
    }
}

/// Whether a screen position lies outside the window. The window's own edges
/// are inside.
pub open spec fn outside(window: Window, screen: Vec2) -> bool {
    ||| screen.x < 0
    ||| screen.x > window.width
    ||| screen.y < 0
    ||| screen.y > window.height
}

impl Mouse {
    /// The pointer before its first sample.
    pub open spec fn at_rest() -> Mouse {
        Mouse {
            position: Vec2::zero(),
            screen_position: Vec2::zero(),
            screen_pos_inverted: Vec2::zero(),
            out_of_bounds: false,
            position_delta: Vec2::zero(),
        }
    }

    /// Whether the numbers that a sample gives rise to can be held: the
    /// distance from the last position, and the flipped screen position.
    pub open spec fn track_fits(self, window: Window, cursor: Option<Cursor>) -> bool {
        cursor matches Some(c) ==> {
            &&& c.world.can_sub(self.position)
            &&& i64::MIN <= window.height - c.screen.y <= i64::MAX
        }
    }

    /// The pointer one frame later. Without a sample the pointer is out of
    /// bounds and keeps everything else, its delta too. With one it moves to
    /// the sample, and its delta is the way from the position it had.
    pub open spec fn after_frame(self, window: Window, cursor: Option<Cursor>) -> Mouse {
        match cursor {
            None => Mouse { out_of_bounds: true, ..self },
            Some(c) => Mouse {
                position: c.world,
                screen_position: c.screen,
                screen_pos_inverted: Vec2 {
                    x: c.screen.x,
                    y: (window.height - c.screen.y) as i64,
                },
                out_of_bounds: outside(window, c.screen),
                position_delta: c.world.minus(self.position),
            },
        }
    }

    /// The pointer after a run of frames, oldest first.
    pub open spec fn after_frames(self, window: Window, cursors: Seq<Option<Cursor>>) -> Mouse
        decreases cursors.len(),
    {
        if cursors.len() == 0 {
            self
        } else {
            self.after_frames(window, cursors.drop_last()).after_frame(window, cursors.last())
        }
    }

    /// Whether `track_fits` holds at every frame of a run.
    pub open spec fn track_fits_all(self, window: Window, cursors: Seq<Option<Cursor>>) -> bool
        decreases cursors.len(),
    {
        cursors.len() > 0 ==> {
            &&& self.track_fits_all(window, cursors.drop_last())
            &&& self.after_frames(window, cursors.drop_last()).track_fits(window, cursors.last())
        }
    }

    /// Whether `calc_mouse_pos` can take this sample.
    pub fn can_track(&self, window: &Window, cursor: Option<Cursor>) -> (ok: bool)
        ensures
            ok == self.track_fits(*window, cursor),
    {
        match cursor {
            None => true,
            Some(c) => {
                let flipped: i128 = window.height as i128 - c.screen.y as i128;
                c.world.checked_sub(self.position).is_some() && -0x8000_0000_0000_0000 <= flipped
                    && flipped <= 0x7fff_ffff_ffff_ffff
            },
        }
    }

    /// Takes this frame's sample of the pointing device, if there is one.
    pub fn calc_mouse_pos(&mut self, window: &Window, cursor: Option<Cursor>)
        requires
            old(self).track_fits(*window, cursor),
        ensures
            *final(self) == old(self).after_frame(*window, cursor),
    {
        match cursor {
            None => {
                self.out_of_bounds = true;
            },
            Some(c) => {
                let old_position = self.position;
                self.position = c.world;
                self.screen_position = c.screen;
                self.screen_pos_inverted = Vec2 { x: c.screen.x, y: window.height - c.screen.y };
                self.out_of_bounds = c.screen.x < 0 || c.screen.x > window.width || c.screen.y < 0
                    || c.screen.y > window.height;
                self.position_delta = Vec2 {
                    x: self.position.x - old_position.x,
                    y: self.position.y - old_position.y,
                };
            },
        }
    }
}

/// The world positions of the samples that a run of frames holds, oldest
/// first. Frames without a sample leave no trace.
pub open spec fn sampled(cursors: Seq<Option<Cursor>>) -> Seq<Vec2>
    decreases cursors.len(),
{
    if cursors.len() == 0 {
        Seq::empty()
    } else {
        match cursors.last() {
            None => sampled(cursors.drop_last()),
            Some(c) => sampled(cursors.drop_last()).push(c.world),
        }
    }
}

/// After any run of frames the pointer stands on the last sample, and its
/// delta is the way there from the sample before it, however many frames
/// without a sample lie between the two or after them. With one sample in the
/// run the way starts at the position the pointer had; with none, position and
/// delta are what they were. A frame without a sample computes nothing: it
/// sets the flag and keeps the rest.
pub proof fn lemma_delta_joins_consecutive_samples(
    start: Mouse,
    window: Window,
    cursors: Seq<Option<Cursor>>,
)
    requires
        start.track_fits_all(window, cursors),
    ensures
        ({
            let end = start.after_frames(window, cursors);
            let seen = sampled(cursors);
            &&& seen.len() == 0 ==> end.position == start.position && end.position_delta
                == start.position_delta
            &&& seen.len() == 1 ==> end.position == seen[0] && end.position_delta == seen[0].minus(
                start.position,
            )
            &&& seen.len() >= 2 ==> end.position == seen[seen.len() - 1] && end.position_delta
                == seen[seen.len() - 1].minus(seen[seen.len() - 2])
            &&& cursors.len() > 0 && cursors.last() is None ==> end == (Mouse {
                out_of_bounds: true,
                ..start.after_frames(window, cursors.drop_last())
            })
        }),
    decreases cursors.len(),
{
    if cursors.len() > 0 {
        lemma_delta_joins_consecutive_samples(start, window, cursors.drop_last());
    }
}

} // verus!
