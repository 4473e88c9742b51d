use vstd::prelude::*;

verus! {

/// The precise reasons a room or matchmaking operation can be refused.
///
/// The room state machine reports these; `to_app_error` maps them onto the
/// coarser transport-level `AppError` kinds.
#[derive(Clone, Copy, PartialEq, Eq, Structural, Debug)]
pub enum RoomError {
    /// No room carries the requested id.
    UnknownRoom,
    /// Every slot of the room is occupied.
    RoomFull,
    /// The requested team or position lies outside the room's bounds.
    InvalidSlot,
    /// The requested position is occupied by another user.
    SlotTaken,
    /// The room already has an outstanding matchmaking ticket.
    AlreadySearching,
    /// The room has no outstanding matchmaking ticket.
    NotSearching,
    /// The acting user is not the room's owner.
    Forbidden,
    /// The user holds no slot where one is needed.
    NoSuchSlot,
    /// The user already holds a slot and cannot take a second one.
    AlreadyInRoom,
    /// The owner's slot lives as long as the room; it cannot be removed alone.
    OwnerCannotBeRemoved,
    /// No room carries the matchmaking ticket of a notification.
    UnknownTicket,
    /// An occupant has no user record, so no display name can be resolved.
    UnknownUser,
    /// The room parameters do not describe a usable room.
    InvalidRoomSpec,
    /// The supplied matchmaking ticket is already bound to another room.
    TicketInUse,
    /// No fresh identifier can be produced any more.
    IdSpaceExhausted,
    /// A user record with this id already exists.
    UserIdTaken,
}

/// The transport-level error kinds surfaced to callers.
#[derive(Debug)]
pub enum AppError {
    ServiceUnavailable(String),
    InternalServerError(String),
    BadRequest(String),
    Unauthorized,
    Forbidden,
}

pub type AppResult<R> = Result<R, AppError>;

/// How each room error is surfaced to a caller.
pub open spec fn spec_app_error_of(e: RoomError) -> (Seq<char>, Seq<char>) {
    match e {
        RoomError::UnknownRoom => ("BadRequest"@, "Unknown custom room id."@),
        RoomError::RoomFull => ("BadRequest"@, "Can't join, room is full."@),
        RoomError::InvalidSlot => ("BadRequest"@, "Invalid slot position."@),
        RoomError::SlotTaken => ("BadRequest"@, "Slot already taken by someone else"@),
        RoomError::AlreadySearching => ("BadRequest"@, "Matchmaking already started for this room."@),
        RoomError::NotSearching => ("BadRequest"@, "No matchmaking started for this room."@),
        RoomError::Forbidden => ("Forbidden"@, ""@),
        RoomError::NoSuchSlot => ("BadRequest"@, "No slot for this user in this room."@),
        RoomError::AlreadyInRoom => ("BadRequest"@, "User already occupies a slot."@),
        RoomError::OwnerCannotBeRemoved => ("BadRequest"@, "The room owner cannot give up their slot."@),
        RoomError::UnknownTicket => ("InternalServerError"@, "No room matches the matchmaking ticket."@),
        RoomError::UnknownUser => ("InternalServerError"@, "Error in Custom room dtos."@),
        RoomError::InvalidRoomSpec => ("BadRequest"@, "Invalid room configuration."@),
        RoomError::TicketInUse => ("InternalServerError"@, "Matchmaking ticket already in use."@),
        RoomError::IdSpaceExhausted => ("InternalServerError"@, "Identifier space exhausted."@),
        RoomError::UserIdTaken => ("BadRequest"@, "A user with this id already exists."@),
    }
}

/// Whether an `AppError` carries the kind and message prescribed for `e`.
pub open spec fn spec_is_app_error_of(a: AppError, e: RoomError) -> bool {
    match a {
        AppError::BadRequest(m) => spec_app_error_of(e).0 == "BadRequest"@ && m@ == spec_app_error_of(e).1,
        AppError::InternalServerError(m) => spec_app_error_of(e).0 == "InternalServerError"@ && m@
            == spec_app_error_of(e).1,
        AppError::Forbidden => spec_app_error_of(e).0 == "Forbidden"@,
        _ => false,
    }
}

/// Maps a room error onto the transport error that callers see.
pub fn to_app_error(e: RoomError) -> (r: AppError)
    ensures
        spec_is_app_error_of(r, e),
{
    match e {
        RoomError::UnknownRoom => AppError::BadRequest(String::from_str("Unknown custom room id.")),
        RoomError::RoomFull => AppError::BadRequest(String::from_str("Can't join, room is full.")),
        RoomError::InvalidSlot => AppError::BadRequest(String::from_str("Invalid slot position.")),
        RoomError::SlotTaken => AppError::BadRequest(
            String::from_str("Slot already taken by someone else"),
        ),
        RoomError::AlreadySearching => AppError::BadRequest(
            String::from_str("Matchmaking already started for this room."),
        ),
        RoomError::NotSearching => AppError::BadRequest(
            String::from_str("No matchmaking started for this room."),
        ),
        RoomError::Forbidden => AppError::Forbidden,
        RoomError::NoSuchSlot => AppError::BadRequest(
            String::from_str("No slot for this user in this room."),
        ),
        RoomError::AlreadyInRoom => AppError::BadRequest(
            String::from_str("User already occupies a slot."),
        ),
        RoomError::OwnerCannotBeRemoved => AppError::BadRequest(
            String::from_str("The room owner cannot give up their slot."),
        ),
        RoomError::UnknownTicket => AppError::InternalServerError(
            String::from_str("No room matches the matchmaking ticket."),
        ),
        RoomError::UnknownUser => AppError::InternalServerError(
            String::from_str("Error in Custom room dtos."),
        ),
        RoomError::InvalidRoomSpec => AppError::BadRequest(
            String::from_str("Invalid room configuration."),
        ),
        RoomError::TicketInUse => AppError::InternalServerError(
            String::from_str("Matchmaking ticket already in use."),
        ),
        RoomError::IdSpaceExhausted => AppError::InternalServerError(
            String::from_str("Identifier space exhausted."),
        ),
        RoomError::UserIdTaken => AppError::BadRequest(
            String::from_str("A user with this id already exists."),
        ),
    }
}

impl AppError {
    /// The message payload carried by the error, if any.
    pub fn get_message(&self) -> (r: &str)
        ensures
            r@ == match self {
                AppError::ServiceUnavailable(m) => m@,
                AppError::InternalServerError(m) => m@,
                AppError::BadRequest(m) => m@,
                AppError::Unauthorized => "Unauthorized"@,
                AppError::Forbidden => "Forbidden"@,
            },
    {
        match self {
            AppError::ServiceUnavailable(m) => m.as_str(),
            AppError::InternalServerError(m) => m.as_str(),
            AppError::BadRequest(m) => m.as_str(),
            AppError::Unauthorized => "Unauthorized",
            AppError::Forbidden => "Forbidden",
        }
    }
}

} // verus!
