//! A small road network of four-way intersections, the two light policies
//! that steer it, and the turn-by-turn engine that drains its queues.
//!
//! Every turn of a worker or of the light controller is one call on
//! exclusively borrowed state, so whoever holds the state while a turn runs
//! is the only one changing it. Threads, locks, delays and printing belong to
//! the program around this library.

pub mod direction;
pub mod intersection;
pub mod schedule;
pub mod simulation;

pub use direction::{Direction, TrafficLight};
pub use intersection::Intersection;
pub use schedule::{Actor, RunReport};
pub use simulation::{LightPolicy, Simulation, WorkerAction, WorkerTurn};
