//! The ways in which an operation on the robot can fail.

use vstd::prelude::*;

verus! {

/// Why an operation was given up. Nothing is retried: each of these ends the
/// operation it arose in.
#[derive(Debug, PartialEq, Eq, Hash, Clone, Copy, Structural)]
pub enum ControllerError {
    /// A characteristic identifier is not written as a UUID.
    InvalidUuid,
    /// The machine has no Bluetooth adapter.
    NoAdapter,
    /// The scan ended before a device of the wanted name was seen.
    DeviceNotFound,
    /// The device lacks one of the two characteristics.
    CharacteristicNotFound,
    /// More moves were asked for than one write holds.
    TooManyMoves,
    /// The Bluetooth stack reported a failure.
    Transport,
}

impl ControllerError {
    /// A sentence that tells the failure to a person.
    pub open spec fn message(self) -> Seq<char> {
        match self {
            ControllerError::InvalidUuid => "Characteristic identifier is not a UUID"@,
            ControllerError::NoAdapter => "No Bluetooth adapter found"@,
            ControllerError::DeviceNotFound => "GAN robot not found"@,
            ControllerError::CharacteristicNotFound => "Move characteristic not found"@,
            ControllerError::TooManyMoves => "Too many moves. Can only do 36 moves at a time"@,
            ControllerError::Transport => "Bluetooth transport failed"@,
        }
    }

    /// A sentence that tells the failure to a person.
    pub fn to_string(&self) -> (text: String)
        ensures
            text@ == self.message(),
    {
        match self {
            ControllerError::InvalidUuid => "Characteristic identifier is not a UUID".to_owned(),
            ControllerError::NoAdapter => "No Bluetooth adapter found".to_owned(),
            ControllerError::DeviceNotFound => "GAN robot not found".to_owned(),
            ControllerError::CharacteristicNotFound => "Move characteristic not found".to_owned(),
            ControllerError::TooManyMoves => {
                "Too many moves. Can only do 36 moves at a time".to_owned()
            },
            ControllerError::Transport => "Bluetooth transport failed".to_owned(),
        }
    }
}

} // verus!
