//! Simulation core of a top-down survival arcade game: enemy kinds, the
//! spawn director and its difficulty feedback, the kinematics step, enemy
//! behaviours, the boundary sweep and the collision that ends a run.
//!
//! Every quantity is an integer: positions in nano-units of the world,
//! velocities in milli-units per second, times in microseconds and
//! probabilities in hundredths.

pub mod geometry;
pub mod enemy;
pub mod timer;
mod random;
pub mod spawning;
pub mod movement;
pub mod world;
pub mod director;
pub mod systems;
pub mod shooting;
pub mod kinematics;

pub use enemy::{Color, Enemy};
pub use geometry::Vec2;
pub use movement::{Acceleration, Velocity};
pub use spawning::SpawnParameters;
pub use timer::{Timer, TimerMode};
pub use kinematics::Smoothing;
pub use world::{Creep, Keys, Player, Score, SpawnHeading, State, World};
