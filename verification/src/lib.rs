//! Control logic for a GAN cube robot driven over Bluetooth Low Energy.
//!
//! The crate holds the move vocabulary and its device codes, the packing of
//! moves into the robot's write payload, and the decisions of the connection
//! and dispatch protocols. It performs no I/O itself: a driver carries out the
//! actions that the protocol values name and reports back what happened.

use vstd::prelude::*;

pub mod command;
pub mod dispatch;
pub mod error;
pub mod face_rotation;
pub mod gan_robot_controller;
pub mod text;

pub use command::{Args, Command, Request};
pub use dispatch::{DispatchEvent, DispatchStep};
pub use error::ControllerError;
pub use face_rotation::{Face, FaceRotation, FaceRotationMap, Turn};
pub use gan_robot_controller::{
    ConnectEvent, ConnectStep, Connected, GanRobotController, State, Uninitialized,
};

verus! {

/// The number of move slots in one write to the robot.
pub const MAX_MOVES_PER_WRITE: usize = 36;

/// A move of the robot: another name for a face rotation.
pub type Move = FaceRotation;

/// The table of moves: another name for the table of face rotations.
pub type MoveMap = FaceRotationMap;

} // verus!
