//! The drag, drop and stamp engine of a desk of paper-like objects.
//!
//! A pointer picks up the frontmost object under it, carries the object and
//! its members across the desk, and lets them go. Letting go of a stamp over
//! the dossier leaves a mark on it; picking the used stamp up again starts the
//! countdown that ends the scene.
//!
//! All positions and sizes are whole numbers of a unit that the caller
//! chooses, times are nanoseconds, and an entity is known by its index on the
//! desk. `model` says what each step makes of the desk; `desk` and `frame` do
//! the steps, `pointer` tracks the pointer, and `stamp` holds the life of the
//! stamp, whose countdown is a bevy `Timer` behind the contracts of `timer`.

pub mod desk;
pub mod frame;
pub mod geometry;
pub mod model;
pub mod pointer;
pub mod stamp;
pub mod timer;

pub use desk::{hovers, stamp_fits, Desk, DeskError, DragHitBox, Entity};
pub use frame::{CursorIcon, FrameFault, FrameInput, FrameOutput, PointerInput};
pub use geometry::{fits, Rect, Size, Vec2};
pub use model::StampedMark;
pub use pointer::{Cursor, Mouse, Window};
pub use stamp::{Stamp, StampStatus, COUNTDOWN_NANOS};
