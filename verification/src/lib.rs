//! Level streaming, player state machine and collision rules of a 2D side-scrolling platformer.
//!
//! The crate owns no window, no renderer and no physics. A host hands it the camera
//! position, the time step, the jump key and the contacts its physics engine saw; the crate
//! answers with the bodies to create and destroy and with the player's next state.
//!
//! All quantities are integers. Lengths are millionths of a world unit, speeds are
//! thousandths of a unit per second and time steps are milliseconds, so that a speed times a
//! step is a length and an acceleration times a step is a speed, with nothing rounded.

pub mod fixed;
pub mod geometry;
pub mod bundle;
pub mod level;
pub mod world;
pub mod streaming;
pub mod player;
pub mod session;
pub mod collision;
pub mod level_session;
