//! A chase toy's world-coordinate system. Entities live at exact `i64` logical
//! positions; render-space positions are derived from them relative to a movable
//! camera, the integer offset first and the division by the scale last. Each frame
//! a leader snaps to the cursor and every follower closes in on its head by a
//! distance-proportional step, with a dead-zone around the head.

pub mod position;
pub mod pursuit;
pub mod world;

pub use position::{WorldPosition, WORLD_SCALE};
pub use world::{DirectionKeys, Entity, EntityId, Role, World};
