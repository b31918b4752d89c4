//! Errors that the HTTP API answers with.

use vstd::prelude::*;
use vstd::string::*;

verus! {

/// A refused request: the status code and text it is answered with follow
/// from the variant.
#[derive(Debug)]
pub enum ApiError {
    /// A name that is empty once trimmed.
    EmptyName,
    /// A name of more than 60 characters once trimmed.
    NameTooLong,
    /// A room width or depth outside 2 to 60 metres.
    SizeOutOfRange,
    /// A room height outside 2 to 10 metres.
    HeightOutOfRange,
    /// No floor has the requested id.
    FloorNotFound,
    /// No floor holds the requested room.
    RoomNotFound,
    /// A player id that is empty once trimmed.
    EmptyPlayerId,
    /// The room has no actuator of this type.
    UnknownActuator(String),
    /// No floor holds this room (device and configuration endpoints).
    UnknownRoom(String),
    /// No device has the requested id.
    DeviceNotFound,
    /// No blueprint has the requested id.
    BlueprintNotFound,
    /// The id in the URL differs from the id in the body.
    BlueprintIdMismatch,
}

impl ApiError {
    /// The HTTP status code of the error.
    pub open spec fn status_code(&self) -> u16 {
        match self {
            ApiError::EmptyName | ApiError::NameTooLong | ApiError::SizeOutOfRange
            | ApiError::HeightOutOfRange | ApiError::EmptyPlayerId | ApiError::BlueprintIdMismatch => 400,
            _ => 404,
        }
    }

    /// The text the error is answered with.
    pub open spec fn text(&self) -> Seq<char> {
        match self {
            ApiError::EmptyName => "Name must not be empty"@,
            ApiError::NameTooLong => "Name must be 60 characters or fewer"@,
            ApiError::SizeOutOfRange => "Width and depth must be between 2 and 60 metres"@,
            ApiError::HeightOutOfRange => "Height must be between 2 and 10 metres"@,
            ApiError::FloorNotFound => "Floor not found"@,
            ApiError::RoomNotFound => "Room not found"@,
            ApiError::EmptyPlayerId => "player_id must not be empty"@,
            ApiError::UnknownActuator(a) => "Unknown actuator: "@ + a@,
            ApiError::UnknownRoom(r) => "Unknown room: "@ + r@,
            ApiError::DeviceNotFound => "Device not found"@,
            ApiError::BlueprintNotFound => "Blueprint not found"@,
            ApiError::BlueprintIdMismatch => "Blueprint ID in URL does not match JSON body"@,
        }
    }

    /// The HTTP status code: 400 for malformed input, 404 for a missing item.
    pub fn status(&self) -> (r: u16)
        ensures
            r == self.status_code(),
    {
        match self {
            ApiError::EmptyName | ApiError::NameTooLong | ApiError::SizeOutOfRange
            | ApiError::HeightOutOfRange | ApiError::EmptyPlayerId | ApiError::BlueprintIdMismatch => 400,
            _ => 404,
        }
    }

    /// The text of the error.
    pub fn message(&self) -> (r: String)
        ensures
            r@ == self.text(),
    {
        match self {
            ApiError::EmptyName => String::from_str("Name must not be empty"),
            ApiError::NameTooLong => String::from_str("Name must be 60 characters or fewer"),
            ApiError::SizeOutOfRange => String::from_str(
                "Width and depth must be between 2 and 60 metres",
            ),
            ApiError::HeightOutOfRange => String::from_str("Height must be between 2 and 10 metres"),
            ApiError::FloorNotFound => String::from_str("Floor not found"),
            ApiError::RoomNotFound => String::from_str("Room not found"),
            ApiError::EmptyPlayerId => String::from_str("player_id must not be empty"),
            ApiError::UnknownActuator(a) => {
                let mut s = String::from_str("Unknown actuator: ");
                s.append(a.as_str());
                s
            },
            ApiError::UnknownRoom(r) => {
                let mut s = String::from_str("Unknown room: ");
                s.append(r.as_str());
                s
            },
            ApiError::DeviceNotFound => String::from_str("Device not found"),
            ApiError::BlueprintNotFound => String::from_str("Blueprint not found"),
            ApiError::BlueprintIdMismatch => String::from_str(
                "Blueprint ID in URL does not match JSON body",
            ),
        }
    }
}

} // verus!
