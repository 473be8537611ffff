//! The stamp and its life: unused, dropped on the dossier, picked up again.

use crate::geometry::{Size, Vec2};
use crate::timer::{timer_just_finished, timer_model, timer_once, timer_tick, TimerModel};
use bevy::time::Timer;
use vstd::prelude::*;

verus! {

/// How long the scene goes on once the used stamp is picked up again: five
/// seconds, in nanoseconds.
pub const COUNTDOWN_NANOS: u64 = 5_000_000_000;

/// What makes an object a stamp: the mark that it leaves where it is let go.
#[derive(Clone, Copy, Debug)]
pub struct Stamp {
    /// Where the mark lies, seen from the stamp.
    pub offset: Vec2,
    /// The depth of the mark; `None` where it has none that can be ordered.
    pub depth: Option<i64>,
    /// The footprint of the mark.
    pub size: Size,
}

/// The life of the stamp.
pub enum StampStatus {
    /// The stamp has left no mark yet.
    Initial,
    /// The stamp has left a mark and lies where it was let go.
    Dropped,
    /// The used stamp was picked up again; the timer runs towards the end of
    /// the scene.
    PickedUp(Timer),
}

/// The life of the stamp, with the timer seen as what it holds.
pub enum StatusView {
    Initial,
    Dropped,
    PickedUp(TimerModel),
}

impl View for StampStatus {
    type V = StatusView;

    open spec fn view(&self) -> StatusView {
        match self {
            StampStatus::Initial => StatusView::Initial,
            StampStatus::Dropped => StatusView::Dropped,
            StampStatus::PickedUp(timer) => StatusView::PickedUp(timer_model(*timer)),
        }
    }
}

impl StatusView {
    /// The timer of a picked-up stamp is one that runs once.
    pub open spec fn wf(self) -> bool {
        self matches StatusView::PickedUp(timer) ==> timer.runs_once()
    }

    /// How far the life of the stamp has come.
    pub open spec fn stage(self) -> nat {
        match self {
            StatusView::Initial => 0,
            StatusView::Dropped => 1,
            StatusView::PickedUp(_) => 2,
        }
    }

    /// The status after a mark was left: the first mark ends `Initial`, and
    /// later ones change nothing.
    pub open spec fn stamped(self) -> StatusView {
        match self {
            StatusView::Initial => StatusView::Dropped,
            _ => self,
        }
    }

    /// The status after the stamp was picked up: a dropped stamp starts the
    /// countdown from zero, and otherwise nothing changes.
    pub open spec fn picked_up(self) -> StatusView {
        match self {
            StatusView::Dropped => StatusView::PickedUp(TimerModel::once(COUNTDOWN_NANOS as nat)),
            _ => self,
        }
    }

    /// The status after `nanos` more nanoseconds.
    pub open spec fn ticked(self, nanos: u64) -> StatusView {
        match self {
            StatusView::PickedUp(timer) => StatusView::PickedUp(timer.tick(nanos as nat)),
            _ => self,
        }
    }

    /// Whether the countdown ends within the next `nanos` nanoseconds.
    pub open spec fn fires(self, nanos: u64) -> bool {
        self matches StatusView::PickedUp(timer) && timer.tick(nanos as nat).just_finished
    }

    /// The status after a run of frames of the given lengths, oldest first.
    pub open spec fn ticked_all(self, frames: Seq<u64>) -> StatusView
        decreases frames.len(),
    {
        if frames.len() == 0 {
            self
        } else {
            self.ticked_all(frames.drop_last()).ticked(frames.last())
        }
    }

    /// In how many frames of a run the countdown ends.
    pub open spec fn signals(self, frames: Seq<u64>) -> nat
        decreases frames.len(),
    {
        if frames.len() == 0 {
            0
        } else {
            let before = self.signals(frames.drop_last());
            if self.ticked_all(frames.drop_last()).fires(frames.last()) {
                before + 1
            } else {
                before
            }
        }
    }
}

/// The time that a run of frames takes.
pub open spec fn total_nanos(frames: Seq<u64>) -> nat
    decreases frames.len(),
{
    if frames.len() == 0 {
        0
    } else {
        total_nanos(frames.drop_last()) + frames.last() as nat
    }
}

impl Default for StampStatus {
    fn default() -> (status: StampStatus)
        ensures
            status@ == StatusView::Initial,
    {
        StampStatus::Initial
    }
}

impl StampStatus {
    /// Records that the stamp has left a mark.
    pub fn leave_mark(&mut self)
        ensures
            final(self)@ == old(self)@.stamped(),
    {
        match self {
            StampStatus::Initial => {
                *self = StampStatus::Dropped;
            },
            _ => {},
        }
    }

    /// Records that the stamp was picked up.
    pub fn pick_up(&mut self)
        ensures
            final(self)@ == old(self)@.picked_up(),
    {
        match self {
            StampStatus::Dropped => {
                *self = StampStatus::PickedUp(timer_once(COUNTDOWN_NANOS));
            },
            _ => {},
        }
    }

    /// Lets `nanos` nanoseconds pass, and says whether the countdown ended in
    /// them: the sign to leave the scene.
    pub fn check_timer(&mut self, nanos: u64) -> (fired: bool)
        requires
            old(self)@.wf(),
        ensures
            final(self)@ == old(self)@.ticked(nanos),
            final(self)@.wf(),
            fired == old(self)@.fires(nanos),
    {
        match self {
            StampStatus::PickedUp(timer) => {
                timer_tick(timer, nanos);
                timer_just_finished(timer)
            },
            _ => false,
        }
    }
}

/// What a run of frames does to a countdown that has not ended: it ends in the
/// first frame that brings the elapsed time up to the duration, and in no
/// other.
proof fn lemma_running_timer_fires_once(timer: TimerModel, frames: Seq<u64>)
    requires
        !timer.finished,
        timer.elapsed < timer.duration,
    ensures
        ({
            let start = StatusView::PickedUp(timer);
            let reached = timer.elapsed + total_nanos(frames) >= timer.duration;
            &&& start.ticked_all(frames) matches StatusView::PickedUp(end) && end.finished
                == reached && end.duration == timer.duration && (!reached ==> end.elapsed
                == timer.elapsed + total_nanos(frames))
            &&& start.signals(frames) == if reached {
                1nat
            } else {
                0nat
            }
        }),
    decreases frames.len(),
{
    if frames.len() > 0 {
        lemma_running_timer_fires_once(timer, frames.drop_last());
    }
}

/// Picking up a dropped stamp starts a countdown of exactly five seconds.
/// However the time that follows is cut into frames, the countdown ends in
/// exactly one of them if they add up to five seconds or more, and in none if
/// they do not.
pub proof fn lemma_countdown_fires_exactly_once(frames: Seq<u64>)
    ensures
        StatusView::Dropped.picked_up() == StatusView::PickedUp(
            TimerModel::once(COUNTDOWN_NANOS as nat),
        ),
        StatusView::Dropped.picked_up().signals(frames) == if total_nanos(frames)
            >= COUNTDOWN_NANOS {
            1nat
        } else {
            0nat
        },
{
    lemma_running_timer_fires_once(TimerModel::once(COUNTDOWN_NANOS as nat), frames);
}

/// The life of the stamp only moves forward: nothing that happens to the
/// status takes it to an earlier stage.
pub proof fn lemma_status_never_goes_back(status: StatusView, nanos: u64)
    ensures
        status.stamped().stage() >= status.stage(),
        status.picked_up().stage() >= status.stage(),
        status.ticked(nanos).stage() == status.stage(),
{
}

} // verus!
