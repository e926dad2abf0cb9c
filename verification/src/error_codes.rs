//! Structured error codes of the signaling protocol.
//!
//! The server reports error conditions as upper-snake strings such as
//! `"ROOM_NOT_FOUND"`; the casing and separators are part of the wire
//! contract.  `code_text` and `code_of_text` convert between a code and its
//! wire string, and `lemma_error_code_round_trip` ties them together.

use crate::wire::str_eq;
use vstd::prelude::*;

verus! {

/// Structured error codes returned by the signaling server.
#[derive(Debug, Clone, Copy, PartialEq, Eq, Structural)]
pub enum ErrorCode {
    Unauthorized,
    InvalidToken,
    AuthenticationRequired,
    InvalidAppId,
    AppIdExpired,
    AppIdRevoked,
    AppIdSuspended,
    MissingAppId,
    AuthenticationTimeout,
    SdkVersionUnsupported,
    UnsupportedGameDataFormat,
    InvalidInput,
    InvalidGameName,
    InvalidRoomCode,
    InvalidPlayerName,
    InvalidMaxPlayers,
    MessageTooLarge,
    RoomNotFound,
    RoomFull,
    AlreadyInRoom,
    NotInRoom,
    RoomCreationFailed,
    MaxRoomsPerGameExceeded,
    InvalidRoomState,
    AuthorityNotSupported,
    AuthorityConflict,
    AuthorityDenied,
    RateLimitExceeded,
    TooManyConnections,
    ReconnectionFailed,
    ReconnectionTokenInvalid,
    ReconnectionExpired,
    PlayerAlreadyConnected,
    SpectatorNotAllowed,
    TooManySpectators,
    NotASpectator,
    SpectatorJoinFailed,
    InternalError,
    StorageError,
    ServiceUnavailable,
}

/// The wire string of a code.
pub open spec fn code_str(c: ErrorCode) -> Seq<char> {
    match c {
        ErrorCode::Unauthorized => "UNAUTHORIZED"@,
        ErrorCode::InvalidToken => "INVALID_TOKEN"@,
        ErrorCode::AuthenticationRequired => "AUTHENTICATION_REQUIRED"@,
        ErrorCode::InvalidAppId => "INVALID_APP_ID"@,
        ErrorCode::AppIdExpired => "APP_ID_EXPIRED"@,
        ErrorCode::AppIdRevoked => "APP_ID_REVOKED"@,
        ErrorCode::AppIdSuspended => "APP_ID_SUSPENDED"@,
        ErrorCode::MissingAppId => "MISSING_APP_ID"@,
        ErrorCode::AuthenticationTimeout => "AUTHENTICATION_TIMEOUT"@,
        ErrorCode::SdkVersionUnsupported => "SDK_VERSION_UNSUPPORTED"@,
        ErrorCode::UnsupportedGameDataFormat => "UNSUPPORTED_GAME_DATA_FORMAT"@,
        ErrorCode::InvalidInput => "INVALID_INPUT"@,
        ErrorCode::InvalidGameName => "INVALID_GAME_NAME"@,
        ErrorCode::InvalidRoomCode => "INVALID_ROOM_CODE"@,
        ErrorCode::InvalidPlayerName => "INVALID_PLAYER_NAME"@,
        ErrorCode::InvalidMaxPlayers => "INVALID_MAX_PLAYERS"@,
        ErrorCode::MessageTooLarge => "MESSAGE_TOO_LARGE"@,
        ErrorCode::RoomNotFound => "ROOM_NOT_FOUND"@,
        ErrorCode::RoomFull => "ROOM_FULL"@,
        ErrorCode::AlreadyInRoom => "ALREADY_IN_ROOM"@,
        ErrorCode::NotInRoom => "NOT_IN_ROOM"@,
        ErrorCode::RoomCreationFailed => "ROOM_CREATION_FAILED"@,
        ErrorCode::MaxRoomsPerGameExceeded => "MAX_ROOMS_PER_GAME_EXCEEDED"@,
        ErrorCode::InvalidRoomState => "INVALID_ROOM_STATE"@,
        ErrorCode::AuthorityNotSupported => "AUTHORITY_NOT_SUPPORTED"@,
        ErrorCode::AuthorityConflict => "AUTHORITY_CONFLICT"@,
        ErrorCode::AuthorityDenied => "AUTHORITY_DENIED"@,
        ErrorCode::RateLimitExceeded => "RATE_LIMIT_EXCEEDED"@,
        ErrorCode::TooManyConnections => "TOO_MANY_CONNECTIONS"@,
        ErrorCode::ReconnectionFailed => "RECONNECTION_FAILED"@,
        ErrorCode::ReconnectionTokenInvalid => "RECONNECTION_TOKEN_INVALID"@,
        ErrorCode::ReconnectionExpired => "RECONNECTION_EXPIRED"@,
        ErrorCode::PlayerAlreadyConnected => "PLAYER_ALREADY_CONNECTED"@,
        ErrorCode::SpectatorNotAllowed => "SPECTATOR_NOT_ALLOWED"@,
        ErrorCode::TooManySpectators => "TOO_MANY_SPECTATORS"@,
        ErrorCode::NotASpectator => "NOT_A_SPECTATOR"@,
        ErrorCode::SpectatorJoinFailed => "SPECTATOR_JOIN_FAILED"@,
        ErrorCode::InternalError => "INTERNAL_ERROR"@,
        ErrorCode::StorageError => "STORAGE_ERROR"@,
        ErrorCode::ServiceUnavailable => "SERVICE_UNAVAILABLE"@,
    }
}

/// The code a wire string stands for, if any.
pub open spec fn code_of(s: Seq<char>) -> Option<ErrorCode> {
    if s == "UNAUTHORIZED"@ {
        Some(ErrorCode::Unauthorized)
    } else if s == "INVALID_TOKEN"@ {
        Some(ErrorCode::InvalidToken)
    } else if s == "AUTHENTICATION_REQUIRED"@ {
        Some(ErrorCode::AuthenticationRequired)
    } else if s == "INVALID_APP_ID"@ {
        Some(ErrorCode::InvalidAppId)
    } else if s == "APP_ID_EXPIRED"@ {
        Some(ErrorCode::AppIdExpired)
    } else if s == "APP_ID_REVOKED"@ {
        Some(ErrorCode::AppIdRevoked)
    } else if s == "APP_ID_SUSPENDED"@ {
        Some(ErrorCode::AppIdSuspended)
    } else if s == "MISSING_APP_ID"@ {
        Some(ErrorCode::MissingAppId)
    } else if s == "AUTHENTICATION_TIMEOUT"@ {
        Some(ErrorCode::AuthenticationTimeout)
    } else if s == "SDK_VERSION_UNSUPPORTED"@ {
        Some(ErrorCode::SdkVersionUnsupported)
    } else if s == "UNSUPPORTED_GAME_DATA_FORMAT"@ {
        Some(ErrorCode::UnsupportedGameDataFormat)
    } else if s == "INVALID_INPUT"@ {
        Some(ErrorCode::InvalidInput)
    } else if s == "INVALID_GAME_NAME"@ {
        Some(ErrorCode::InvalidGameName)
    } else if s == "INVALID_ROOM_CODE"@ {
        Some(ErrorCode::InvalidRoomCode)
    } else if s == "INVALID_PLAYER_NAME"@ {
        Some(ErrorCode::InvalidPlayerName)
    } else if s == "INVALID_MAX_PLAYERS"@ {
        Some(ErrorCode::InvalidMaxPlayers)
    } else if s == "MESSAGE_TOO_LARGE"@ {
        Some(ErrorCode::MessageTooLarge)
    } else if s == "ROOM_NOT_FOUND"@ {
        Some(ErrorCode::RoomNotFound)
    } else if s == "ROOM_FULL"@ {
        Some(ErrorCode::RoomFull)
    } else if s == "ALREADY_IN_ROOM"@ {
        Some(ErrorCode::AlreadyInRoom)
    } else if s == "NOT_IN_ROOM"@ {
        Some(ErrorCode::NotInRoom)
    } else if s == "ROOM_CREATION_FAILED"@ {
        Some(ErrorCode::RoomCreationFailed)
    } else if s == "MAX_ROOMS_PER_GAME_EXCEEDED"@ {
        Some(ErrorCode::MaxRoomsPerGameExceeded)
    } else if s == "INVALID_ROOM_STATE"@ {
        Some(ErrorCode::InvalidRoomState)
    } else if s == "AUTHORITY_NOT_SUPPORTED"@ {
        Some(ErrorCode::AuthorityNotSupported)
    } else if s == "AUTHORITY_CONFLICT"@ {
        Some(ErrorCode::AuthorityConflict)
    } else if s == "AUTHORITY_DENIED"@ {
        Some(ErrorCode::AuthorityDenied)
    } else if s == "RATE_LIMIT_EXCEEDED"@ {
        Some(ErrorCode::RateLimitExceeded)
    } else if s == "TOO_MANY_CONNECTIONS"@ {
        Some(ErrorCode::TooManyConnections)
    } else if s == "RECONNECTION_FAILED"@ {
        Some(ErrorCode::ReconnectionFailed)
    } else if s == "RECONNECTION_TOKEN_INVALID"@ {
        Some(ErrorCode::ReconnectionTokenInvalid)
    } else if s == "RECONNECTION_EXPIRED"@ {
        Some(ErrorCode::ReconnectionExpired)
    } else if s == "PLAYER_ALREADY_CONNECTED"@ {
        Some(ErrorCode::PlayerAlreadyConnected)
    } else if s == "SPECTATOR_NOT_ALLOWED"@ {
        Some(ErrorCode::SpectatorNotAllowed)
    } else if s == "TOO_MANY_SPECTATORS"@ {
        Some(ErrorCode::TooManySpectators)
    } else if s == "NOT_A_SPECTATOR"@ {
        Some(ErrorCode::NotASpectator)
    } else if s == "SPECTATOR_JOIN_FAILED"@ {
        Some(ErrorCode::SpectatorJoinFailed)
    } else if s == "INTERNAL_ERROR"@ {
        Some(ErrorCode::InternalError)
    } else if s == "STORAGE_ERROR"@ {
        Some(ErrorCode::StorageError)
    } else if s == "SERVICE_UNAVAILABLE"@ {
        Some(ErrorCode::ServiceUnavailable)
    } else {
        None
    }
}

impl ErrorCode {
    /// A human-readable description of this error code.
    pub open spec fn desc(self) -> Seq<char> {
        match self {
            ErrorCode::Unauthorized => "Access denied. Authentication credentials are missing or invalid."@,
            ErrorCode::InvalidToken => "The authentication token is invalid, malformed, or has expired. Please obtain a new token."@,
            ErrorCode::AuthenticationRequired => "This operation requires authentication. Please provide valid credentials."@,
            ErrorCode::InvalidAppId => "The provided application ID is not recognized. Verify your app ID is correct."@,
            ErrorCode::AppIdExpired => "The application ID has expired. Please renew your application registration."@,
            ErrorCode::AppIdRevoked => "The application ID has been revoked. Contact the administrator for assistance."@,
            ErrorCode::AppIdSuspended => "The application ID has been suspended. Contact the administrator for assistance."@,
            ErrorCode::MissingAppId => "Application ID is required but was not provided. Include your app ID in the request."@,
            ErrorCode::AuthenticationTimeout => "Authentication took too long to complete. Please try again."@,
            ErrorCode::SdkVersionUnsupported => "The SDK version you are using is no longer supported. Please upgrade to the latest version."@,
            ErrorCode::UnsupportedGameDataFormat => "The requested game data format is not supported by this server. Falling back to JSON encoding."@,
            ErrorCode::InvalidInput => "The provided input is invalid or malformed. Check your request parameters."@,
            ErrorCode::InvalidGameName => "The game name is invalid. Game names must be non-empty and follow naming requirements."@,
            ErrorCode::InvalidRoomCode => "The room code is invalid or malformed. Room codes must follow the required format."@,
            ErrorCode::InvalidPlayerName => "The player name is invalid. Player names must be non-empty and meet length requirements."@,
            ErrorCode::InvalidMaxPlayers => "The maximum player count is invalid. It must be a positive number within allowed limits."@,
            ErrorCode::MessageTooLarge => "The message size exceeds the maximum allowed limit. Please send a smaller message."@,
            ErrorCode::RoomNotFound => "The requested room could not be found. It may have been closed or the code is incorrect."@,
            ErrorCode::RoomFull => "The room has reached its maximum player capacity. Try joining a different room."@,
            ErrorCode::AlreadyInRoom => "You are already in a room. Leave the current room before joining another."@,
            ErrorCode::NotInRoom => "You are not currently in any room. Join a room before performing this action."@,
            ErrorCode::RoomCreationFailed => "Failed to create the room. Please try again or contact support if the issue persists."@,
            ErrorCode::MaxRoomsPerGameExceeded => "The maximum number of rooms for this game has been reached. Please try again later."@,
            ErrorCode::InvalidRoomState => "The room is in an invalid state for this operation. Try refreshing or rejoining the room."@,
            ErrorCode::AuthorityNotSupported => "Authority features are not enabled on this server. Check your server configuration."@,
            ErrorCode::AuthorityConflict => "Another client has already claimed authority. Only one client can have authority at a time."@,
            ErrorCode::AuthorityDenied => "You do not have permission to claim authority in this room."@,
            ErrorCode::RateLimitExceeded => "Too many requests in a short time. Please slow down and try again later."@,
            ErrorCode::TooManyConnections => "You have too many active connections. Close some connections before opening new ones."@,
            ErrorCode::ReconnectionFailed => "Failed to reconnect to the room. The session may have expired or the room may be closed."@,
            ErrorCode::ReconnectionTokenInvalid => "The reconnection token is invalid or malformed. You may need to join the room again."@,
            ErrorCode::ReconnectionExpired => "The reconnection window has expired. You must join the room again as a new player."@,
            ErrorCode::PlayerAlreadyConnected => "This player is already connected to the room from another session."@,
            ErrorCode::SpectatorNotAllowed => "Spectator mode is not enabled for this room. Only players can join."@,
            ErrorCode::TooManySpectators => "The room has reached its maximum spectator capacity. Try again later."@,
            ErrorCode::NotASpectator => "You are not a spectator in this room. This action is only available to spectators."@,
            ErrorCode::SpectatorJoinFailed => "Failed to join as a spectator. The room may be full or spectating may be disabled."@,
            ErrorCode::InternalError => "An internal server error occurred. Please try again or contact support if the issue persists."@,
            ErrorCode::StorageError => "A storage error occurred while processing your request. Please try again later."@,
            ErrorCode::ServiceUnavailable => "The service is temporarily unavailable. Please try again in a few moments."@,
        }
    }

    /// Returns a human-readable description of this error code.
    pub fn description(&self) -> (r: &'static str)
        ensures
            r@ == self.desc(),
    {
        match self {
            ErrorCode::Unauthorized => "Access denied. Authentication credentials are missing or invalid.",
            ErrorCode::InvalidToken => "The authentication token is invalid, malformed, or has expired. Please obtain a new token.",
            ErrorCode::AuthenticationRequired => "This operation requires authentication. Please provide valid credentials.",
            ErrorCode::InvalidAppId => "The provided application ID is not recognized. Verify your app ID is correct.",
            ErrorCode::AppIdExpired => "The application ID has expired. Please renew your application registration.",
            ErrorCode::AppIdRevoked => "The application ID has been revoked. Contact the administrator for assistance.",
            ErrorCode::AppIdSuspended => "The application ID has been suspended. Contact the administrator for assistance.",
            ErrorCode::MissingAppId => "Application ID is required but was not provided. Include your app ID in the request.",
            ErrorCode::AuthenticationTimeout => "Authentication took too long to complete. Please try again.",
            ErrorCode::SdkVersionUnsupported => "The SDK version you are using is no longer supported. Please upgrade to the latest version.",
            ErrorCode::UnsupportedGameDataFormat => "The requested game data format is not supported by this server. Falling back to JSON encoding.",
            ErrorCode::InvalidInput => "The provided input is invalid or malformed. Check your request parameters.",
            ErrorCode::InvalidGameName => "The game name is invalid. Game names must be non-empty and follow naming requirements.",
            ErrorCode::InvalidRoomCode => "The room code is invalid or malformed. Room codes must follow the required format.",
            ErrorCode::InvalidPlayerName => "The player name is invalid. Player names must be non-empty and meet length requirements.",
            ErrorCode::InvalidMaxPlayers => "The maximum player count is invalid. It must be a positive number within allowed limits.",
            ErrorCode::MessageTooLarge => "The message size exceeds the maximum allowed limit. Please send a smaller message.",
            ErrorCode::RoomNotFound => "The requested room could not be found. It may have been closed or the code is incorrect.",
            ErrorCode::RoomFull => "The room has reached its maximum player capacity. Try joining a different room.",
            ErrorCode::AlreadyInRoom => "You are already in a room. Leave the current room before joining another.",
            ErrorCode::NotInRoom => "You are not currently in any room. Join a room before performing this action.",
            ErrorCode::RoomCreationFailed => "Failed to create the room. Please try again or contact support if the issue persists.",
            ErrorCode::MaxRoomsPerGameExceeded => "The maximum number of rooms for this game has been reached. Please try again later.",
            ErrorCode::InvalidRoomState => "The room is in an invalid state for this operation. Try refreshing or rejoining the room.",
            ErrorCode::AuthorityNotSupported => "Authority features are not enabled on this server. Check your server configuration.",
            ErrorCode::AuthorityConflict => "Another client has already claimed authority. Only one client can have authority at a time.",
            ErrorCode::AuthorityDenied => "You do not have permission to claim authority in this room.",
            ErrorCode::RateLimitExceeded => "Too many requests in a short time. Please slow down and try again later.",
            ErrorCode::TooManyConnections => "You have too many active connections. Close some connections before opening new ones.",
            ErrorCode::ReconnectionFailed => "Failed to reconnect to the room. The session may have expired or the room may be closed.",
            ErrorCode::ReconnectionTokenInvalid => "The reconnection token is invalid or malformed. You may need to join the room again.",
            ErrorCode::ReconnectionExpired => "The reconnection window has expired. You must join the room again as a new player.",
            ErrorCode::PlayerAlreadyConnected => "This player is already connected to the room from another session.",
            ErrorCode::SpectatorNotAllowed => "Spectator mode is not enabled for this room. Only players can join.",
            ErrorCode::TooManySpectators => "The room has reached its maximum spectator capacity. Try again later.",
            ErrorCode::NotASpectator => "You are not a spectator in this room. This action is only available to spectators.",
            ErrorCode::SpectatorJoinFailed => "Failed to join as a spectator. The room may be full or spectating may be disabled.",
            ErrorCode::InternalError => "An internal server error occurred. Please try again or contact support if the issue persists.",
            ErrorCode::StorageError => "A storage error occurred while processing your request. Please try again later.",
            ErrorCode::ServiceUnavailable => "The service is temporarily unavailable. Please try again in a few moments.",
        }
    }

    /// The wire string of this code, exactly as `code_str` gives it.
    pub fn code_text(&self) -> (r: &'static str)
        ensures
            r@ == code_str(*self),
    {
        match self {
            ErrorCode::Unauthorized => "UNAUTHORIZED",
            ErrorCode::InvalidToken => "INVALID_TOKEN",
            ErrorCode::AuthenticationRequired => "AUTHENTICATION_REQUIRED",
            ErrorCode::InvalidAppId => "INVALID_APP_ID",
            ErrorCode::AppIdExpired => "APP_ID_EXPIRED",
            ErrorCode::AppIdRevoked => "APP_ID_REVOKED",
            ErrorCode::AppIdSuspended => "APP_ID_SUSPENDED",
            ErrorCode::MissingAppId => "MISSING_APP_ID",
            ErrorCode::AuthenticationTimeout => "AUTHENTICATION_TIMEOUT",
            ErrorCode::SdkVersionUnsupported => "SDK_VERSION_UNSUPPORTED",
            ErrorCode::UnsupportedGameDataFormat => "UNSUPPORTED_GAME_DATA_FORMAT",
            ErrorCode::InvalidInput => "INVALID_INPUT",
            ErrorCode::InvalidGameName => "INVALID_GAME_NAME",
            ErrorCode::InvalidRoomCode => "INVALID_ROOM_CODE",
            ErrorCode::InvalidPlayerName => "INVALID_PLAYER_NAME",
            ErrorCode::InvalidMaxPlayers => "INVALID_MAX_PLAYERS",
            ErrorCode::MessageTooLarge => "MESSAGE_TOO_LARGE",
            ErrorCode::RoomNotFound => "ROOM_NOT_FOUND",
            ErrorCode::RoomFull => "ROOM_FULL",
            ErrorCode::AlreadyInRoom => "ALREADY_IN_ROOM",
            ErrorCode::NotInRoom => "NOT_IN_ROOM",
            ErrorCode::RoomCreationFailed => "ROOM_CREATION_FAILED",
            ErrorCode::MaxRoomsPerGameExceeded => "MAX_ROOMS_PER_GAME_EXCEEDED",
            ErrorCode::InvalidRoomState => "INVALID_ROOM_STATE",
            ErrorCode::AuthorityNotSupported => "AUTHORITY_NOT_SUPPORTED",
            ErrorCode::AuthorityConflict => "AUTHORITY_CONFLICT",
            ErrorCode::AuthorityDenied => "AUTHORITY_DENIED",
            ErrorCode::RateLimitExceeded => "RATE_LIMIT_EXCEEDED",
            ErrorCode::TooManyConnections => "TOO_MANY_CONNECTIONS",
            ErrorCode::ReconnectionFailed => "RECONNECTION_FAILED",
            ErrorCode::ReconnectionTokenInvalid => "RECONNECTION_TOKEN_INVALID",
            ErrorCode::ReconnectionExpired => "RECONNECTION_EXPIRED",
            ErrorCode::PlayerAlreadyConnected => "PLAYER_ALREADY_CONNECTED",
            ErrorCode::SpectatorNotAllowed => "SPECTATOR_NOT_ALLOWED",
            ErrorCode::TooManySpectators => "TOO_MANY_SPECTATORS",
            ErrorCode::NotASpectator => "NOT_A_SPECTATOR",
            ErrorCode::SpectatorJoinFailed => "SPECTATOR_JOIN_FAILED",
            ErrorCode::InternalError => "INTERNAL_ERROR",
            ErrorCode::StorageError => "STORAGE_ERROR",
            ErrorCode::ServiceUnavailable => "SERVICE_UNAVAILABLE",
        }
    }

    /// The code a wire string stands for, exactly as `code_of` gives it.
    pub fn from_text(s: &str) -> (r: Option<ErrorCode>)
        ensures
            r == code_of(s@),
    {
        if str_eq(s, "UNAUTHORIZED") {
            Some(ErrorCode::Unauthorized)
        } else if str_eq(s, "INVALID_TOKEN") {
            Some(ErrorCode::InvalidToken)
        } else if str_eq(s, "AUTHENTICATION_REQUIRED") {
            Some(ErrorCode::AuthenticationRequired)
        } else if str_eq(s, "INVALID_APP_ID") {
            Some(ErrorCode::InvalidAppId)
        } else if str_eq(s, "APP_ID_EXPIRED") {
            Some(ErrorCode::AppIdExpired)
        } else if str_eq(s, "APP_ID_REVOKED") {
            Some(ErrorCode::AppIdRevoked)
        } else if str_eq(s, "APP_ID_SUSPENDED") {
            Some(ErrorCode::AppIdSuspended)
        } else if str_eq(s, "MISSING_APP_ID") {
            Some(ErrorCode::MissingAppId)
        } else if str_eq(s, "AUTHENTICATION_TIMEOUT") {
            Some(ErrorCode::AuthenticationTimeout)
        } else if str_eq(s, "SDK_VERSION_UNSUPPORTED") {
            Some(ErrorCode::SdkVersionUnsupported)
        } else if str_eq(s, "UNSUPPORTED_GAME_DATA_FORMAT") {
            Some(ErrorCode::UnsupportedGameDataFormat)
        } else if str_eq(s, "INVALID_INPUT") {
            Some(ErrorCode::InvalidInput)
        } else if str_eq(s, "INVALID_GAME_NAME") {
            Some(ErrorCode::InvalidGameName)
        } else if str_eq(s, "INVALID_ROOM_CODE") {
            Some(ErrorCode::InvalidRoomCode)
        } else if str_eq(s, "INVALID_PLAYER_NAME") {
            Some(ErrorCode::InvalidPlayerName)
        } else if str_eq(s, "INVALID_MAX_PLAYERS") {
            Some(ErrorCode::InvalidMaxPlayers)
        } else if str_eq(s, "MESSAGE_TOO_LARGE") {
            Some(ErrorCode::MessageTooLarge)
        } else if str_eq(s, "ROOM_NOT_FOUND") {
            Some(ErrorCode::RoomNotFound)
        } else if str_eq(s, "ROOM_FULL") {
            Some(ErrorCode::RoomFull)
        } else if str_eq(s, "ALREADY_IN_ROOM") {
            Some(ErrorCode::AlreadyInRoom)
        } else if str_eq(s, "NOT_IN_ROOM") {
            Some(ErrorCode::NotInRoom)
        } else if str_eq(s, "ROOM_CREATION_FAILED") {
            Some(ErrorCode::RoomCreationFailed)
        } else if str_eq(s, "MAX_ROOMS_PER_GAME_EXCEEDED") {
            Some(ErrorCode::MaxRoomsPerGameExceeded)
        } else if str_eq(s, "INVALID_ROOM_STATE") {
            Some(ErrorCode::InvalidRoomState)
        } else if str_eq(s, "AUTHORITY_NOT_SUPPORTED") {
            Some(ErrorCode::AuthorityNotSupported)
        } else if str_eq(s, "AUTHORITY_CONFLICT") {
            Some(ErrorCode::AuthorityConflict)
        } else if str_eq(s, "AUTHORITY_DENIED") {
            Some(ErrorCode::AuthorityDenied)
        } else if str_eq(s, "RATE_LIMIT_EXCEEDED") {
            Some(ErrorCode::RateLimitExceeded)
        } else if str_eq(s, "TOO_MANY_CONNECTIONS") {
            Some(ErrorCode::TooManyConnections)
        } else if str_eq(s, "RECONNECTION_FAILED") {
            Some(ErrorCode::ReconnectionFailed)
        } else if str_eq(s, "RECONNECTION_TOKEN_INVALID") {
            Some(ErrorCode::ReconnectionTokenInvalid)
        } else if str_eq(s, "RECONNECTION_EXPIRED") {
            Some(ErrorCode::ReconnectionExpired)
        } else if str_eq(s, "PLAYER_ALREADY_CONNECTED") {
            Some(ErrorCode::PlayerAlreadyConnected)
        } else if str_eq(s, "SPECTATOR_NOT_ALLOWED") {
            Some(ErrorCode::SpectatorNotAllowed)
        } else if str_eq(s, "TOO_MANY_SPECTATORS") {
            Some(ErrorCode::TooManySpectators)
        } else if str_eq(s, "NOT_A_SPECTATOR") {
            Some(ErrorCode::NotASpectator)
        } else if str_eq(s, "SPECTATOR_JOIN_FAILED") {
            Some(ErrorCode::SpectatorJoinFailed)
        } else if str_eq(s, "INTERNAL_ERROR") {
            Some(ErrorCode::InternalError)
        } else if str_eq(s, "STORAGE_ERROR") {
            Some(ErrorCode::StorageError)
        } else if str_eq(s, "SERVICE_UNAVAILABLE") {
            Some(ErrorCode::ServiceUnavailable)
        } else {
            None
        }
    }
}

/// Reading back the wire string of a code yields the code.
#[verifier::rlimit(100)]
pub proof fn lemma_error_code_round_trip(c: ErrorCode)
    ensures
        code_of(code_str(c)) == Some(c),
{
    reveal_strlit("UNAUTHORIZED");
    reveal_strlit("INVALID_TOKEN");
    reveal_strlit("AUTHENTICATION_REQUIRED");
    reveal_strlit("INVALID_APP_ID");
    reveal_strlit("APP_ID_EXPIRED");
    reveal_strlit("APP_ID_REVOKED");
    reveal_strlit("APP_ID_SUSPENDED");
    reveal_strlit("MISSING_APP_ID");
    reveal_strlit("AUTHENTICATION_TIMEOUT");
    reveal_strlit("SDK_VERSION_UNSUPPORTED");
    reveal_strlit("UNSUPPORTED_GAME_DATA_FORMAT");
    reveal_strlit("INVALID_INPUT");
    reveal_strlit("INVALID_GAME_NAME");
    reveal_strlit("INVALID_ROOM_CODE");
    reveal_strlit("INVALID_PLAYER_NAME");
    reveal_strlit("INVALID_MAX_PLAYERS");
    reveal_strlit("MESSAGE_TOO_LARGE");
    reveal_strlit("ROOM_NOT_FOUND");
    reveal_strlit("ROOM_FULL");
    reveal_strlit("ALREADY_IN_ROOM");
    reveal_strlit("NOT_IN_ROOM");
    reveal_strlit("ROOM_CREATION_FAILED");
    reveal_strlit("MAX_ROOMS_PER_GAME_EXCEEDED");
    reveal_strlit("INVALID_ROOM_STATE");
    reveal_strlit("AUTHORITY_NOT_SUPPORTED");
    reveal_strlit("AUTHORITY_CONFLICT");
    reveal_strlit("AUTHORITY_DENIED");
    reveal_strlit("RATE_LIMIT_EXCEEDED");
    reveal_strlit("TOO_MANY_CONNECTIONS");
    reveal_strlit("RECONNECTION_FAILED");
    reveal_strlit("RECONNECTION_TOKEN_INVALID");
    reveal_strlit("RECONNECTION_EXPIRED");
    reveal_strlit("PLAYER_ALREADY_CONNECTED");
    reveal_strlit("SPECTATOR_NOT_ALLOWED");
    reveal_strlit("TOO_MANY_SPECTATORS");
    reveal_strlit("NOT_A_SPECTATOR");
    reveal_strlit("SPECTATOR_JOIN_FAILED");
    reveal_strlit("INTERNAL_ERROR");
    reveal_strlit("STORAGE_ERROR");
    reveal_strlit("SERVICE_UNAVAILABLE");
    assert("UNAUTHORIZED"@.len() == 12);
    assert("INVALID_TOKEN"@.len() == 13);
    assert("AUTHENTICATION_REQUIRED"@.len() == 23);
    assert("INVALID_APP_ID"@.len() == 14);
    assert("APP_ID_EXPIRED"@.len() == 14);
    assert("APP_ID_REVOKED"@.len() == 14);
    assert("APP_ID_SUSPENDED"@.len() == 16);
    assert("MISSING_APP_ID"@.len() == 14);
    assert("AUTHENTICATION_TIMEOUT"@.len() == 22);
    assert("SDK_VERSION_UNSUPPORTED"@.len() == 23);
    assert("UNSUPPORTED_GAME_DATA_FORMAT"@.len() == 28);
    assert("INVALID_INPUT"@.len() == 13);
    assert("INVALID_GAME_NAME"@.len() == 17);
    assert("INVALID_ROOM_CODE"@.len() == 17);
    assert("INVALID_PLAYER_NAME"@.len() == 19);
    assert("INVALID_MAX_PLAYERS"@.len() == 19);
    assert("MESSAGE_TOO_LARGE"@.len() == 17);
    assert("ROOM_NOT_FOUND"@.len() == 14);
    assert("ROOM_FULL"@.len() == 9);
    assert("ALREADY_IN_ROOM"@.len() == 15);
    assert("NOT_IN_ROOM"@.len() == 11);
    assert("ROOM_CREATION_FAILED"@.len() == 20);
    assert("MAX_ROOMS_PER_GAME_EXCEEDED"@.len() == 27);
    assert("INVALID_ROOM_STATE"@.len() == 18);
    assert("AUTHORITY_NOT_SUPPORTED"@.len() == 23);
    assert("AUTHORITY_CONFLICT"@.len() == 18);
    assert("AUTHORITY_DENIED"@.len() == 16);
    assert("RATE_LIMIT_EXCEEDED"@.len() == 19);
    assert("TOO_MANY_CONNECTIONS"@.len() == 20);
    assert("RECONNECTION_FAILED"@.len() == 19);
    assert("RECONNECTION_TOKEN_INVALID"@.len() == 26);
    assert("RECONNECTION_EXPIRED"@.len() == 20);
    assert("PLAYER_ALREADY_CONNECTED"@.len() == 24);
    assert("SPECTATOR_NOT_ALLOWED"@.len() == 21);
    assert("TOO_MANY_SPECTATORS"@.len() == 19);
    assert("NOT_A_SPECTATOR"@.len() == 15);
    assert("SPECTATOR_JOIN_FAILED"@.len() == 21);
    assert("INTERNAL_ERROR"@.len() == 14);
    assert("STORAGE_ERROR"@.len() == 13);
    assert("SERVICE_UNAVAILABLE"@.len() == 19);
    assert("ALREADY_IN_ROOM"@[0] == 'A');
    assert("APP_ID_EXPIRED"@[0] == 'A');
    assert("APP_ID_EXPIRED"@[7] == 'E');
    assert("APP_ID_REVOKED"@[0] == 'A');
    assert("APP_ID_REVOKED"@[7] == 'R');
    assert("APP_ID_SUSPENDED"@[1] == 'P');
    assert("AUTHENTICATION_REQUIRED"@[0] == 'A');
    assert("AUTHENTICATION_REQUIRED"@[4] == 'E');
    assert("AUTHORITY_CONFLICT"@[0] == 'A');
    assert("AUTHORITY_DENIED"@[1] == 'U');
    assert("AUTHORITY_NOT_SUPPORTED"@[0] == 'A');
    assert("AUTHORITY_NOT_SUPPORTED"@[4] == 'O');
    assert("INTERNAL_ERROR"@[0] == 'I');
    assert("INTERNAL_ERROR"@[2] == 'T');
    assert("INVALID_APP_ID"@[0] == 'I');
    assert("INVALID_APP_ID"@[2] == 'V');
    assert("INVALID_GAME_NAME"@[0] == 'I');
    assert("INVALID_GAME_NAME"@[8] == 'G');
    assert("INVALID_INPUT"@[0] == 'I');
    assert("INVALID_INPUT"@[8] == 'I');
    assert("INVALID_MAX_PLAYERS"@[0] == 'I');
    assert("INVALID_MAX_PLAYERS"@[8] == 'M');
    assert("INVALID_PLAYER_NAME"@[0] == 'I');
    assert("INVALID_PLAYER_NAME"@[8] == 'P');
    assert("INVALID_ROOM_CODE"@[0] == 'I');
    assert("INVALID_ROOM_CODE"@[8] == 'R');
    assert("INVALID_ROOM_STATE"@[0] == 'I');
    assert("INVALID_TOKEN"@[0] == 'I');
    assert("INVALID_TOKEN"@[8] == 'T');
    assert("MESSAGE_TOO_LARGE"@[0] == 'M');
    assert("MISSING_APP_ID"@[0] == 'M');
    assert("NOT_A_SPECTATOR"@[0] == 'N');
    assert("RATE_LIMIT_EXCEEDED"@[0] == 'R');
    assert("RATE_LIMIT_EXCEEDED"@[1] == 'A');
    assert("RECONNECTION_EXPIRED"@[0] == 'R');
    assert("RECONNECTION_EXPIRED"@[1] == 'E');
    assert("RECONNECTION_FAILED"@[0] == 'R');
    assert("RECONNECTION_FAILED"@[1] == 'E');
    assert("ROOM_CREATION_FAILED"@[0] == 'R');
    assert("ROOM_CREATION_FAILED"@[1] == 'O');
    assert("ROOM_NOT_FOUND"@[0] == 'R');
    assert("SDK_VERSION_UNSUPPORTED"@[0] == 'S');
    assert("SERVICE_UNAVAILABLE"@[0] == 'S');
    assert("SPECTATOR_JOIN_FAILED"@[10] == 'J');
    assert("SPECTATOR_NOT_ALLOWED"@[10] == 'N');
    assert("STORAGE_ERROR"@[0] == 'S');
    assert("TOO_MANY_CONNECTIONS"@[0] == 'T');
    assert("TOO_MANY_SPECTATORS"@[0] == 'T');
    match c {
        ErrorCode::Unauthorized => {
            assert(code_of(code_str(c)) == Some(ErrorCode::Unauthorized));
        }
        ErrorCode::InvalidToken => {
            assert(code_of(code_str(c)) == Some(ErrorCode::InvalidToken));
        }
        ErrorCode::AuthenticationRequired => {
            assert(code_of(code_str(c)) == Some(ErrorCode::AuthenticationRequired));
        }
        ErrorCode::InvalidAppId => {
            assert(code_of(code_str(c)) == Some(ErrorCode::InvalidAppId));
        }
        ErrorCode::AppIdExpired => {
            assert(code_of(code_str(c)) == Some(ErrorCode::AppIdExpired));
        }
        ErrorCode::AppIdRevoked => {
            assert(code_of(code_str(c)) == Some(ErrorCode::AppIdRevoked));
        }
        ErrorCode::AppIdSuspended => {
            assert(code_of(code_str(c)) == Some(ErrorCode::AppIdSuspended));
        }
        ErrorCode::MissingAppId => {
            assert(code_of(code_str(c)) == Some(ErrorCode::MissingAppId));
        }
        ErrorCode::AuthenticationTimeout => {
            assert(code_of(code_str(c)) == Some(ErrorCode::AuthenticationTimeout));
        }
        ErrorCode::SdkVersionUnsupported => {
            assert(code_of(code_str(c)) == Some(ErrorCode::SdkVersionUnsupported));
        }
        ErrorCode::UnsupportedGameDataFormat => {
            assert(code_of(code_str(c)) == Some(ErrorCode::UnsupportedGameDataFormat));
        }
        ErrorCode::InvalidInput => {
            assert(code_of(code_str(c)) == Some(ErrorCode::InvalidInput));
        }
        ErrorCode::InvalidGameName => {
            assert(code_of(code_str(c)) == Some(ErrorCode::InvalidGameName));
        }
        ErrorCode::InvalidRoomCode => {
            assert(code_of(code_str(c)) == Some(ErrorCode::InvalidRoomCode));
        }
        ErrorCode::InvalidPlayerName => {
            assert(code_of(code_str(c)) == Some(ErrorCode::InvalidPlayerName));
        }
        ErrorCode::InvalidMaxPlayers => {
            assert(code_of(code_str(c)) == Some(ErrorCode::InvalidMaxPlayers));
        }
        ErrorCode::MessageTooLarge => {
            assert(code_of(code_str(c)) == Some(ErrorCode::MessageTooLarge));
        }
        ErrorCode::RoomNotFound => {
            assert(code_of(code_str(c)) == Some(ErrorCode::RoomNotFound));
        }
        ErrorCode::RoomFull => {
            assert(code_of(code_str(c)) == Some(ErrorCode::RoomFull));
        }
        ErrorCode::AlreadyInRoom => {
            assert(code_of(code_str(c)) == Some(ErrorCode::AlreadyInRoom));
        }
        ErrorCode::NotInRoom => {
            assert(code_of(code_str(c)) == Some(ErrorCode::NotInRoom));
        }
        ErrorCode::RoomCreationFailed => {
            assert(code_of(code_str(c)) == Some(ErrorCode::RoomCreationFailed));
        }
        ErrorCode::MaxRoomsPerGameExceeded => {
            assert(code_of(code_str(c)) == Some(ErrorCode::MaxRoomsPerGameExceeded));
        }
        ErrorCode::InvalidRoomState => {
            assert(code_of(code_str(c)) == Some(ErrorCode::InvalidRoomState));
        }
        ErrorCode::AuthorityNotSupported => {
            assert(code_of(code_str(c)) == Some(ErrorCode::AuthorityNotSupported));
        }
        ErrorCode::AuthorityConflict => {
            assert(code_of(code_str(c)) == Some(ErrorCode::AuthorityConflict));
        }
        ErrorCode::AuthorityDenied => {
            assert(code_of(code_str(c)) == Some(ErrorCode::AuthorityDenied));
        }
        ErrorCode::RateLimitExceeded => {
            assert(code_of(code_str(c)) == Some(ErrorCode::RateLimitExceeded));
        }
        ErrorCode::TooManyConnections => {
            assert(code_of(code_str(c)) == Some(ErrorCode::TooManyConnections));
        }
        ErrorCode::ReconnectionFailed => {
            assert(code_of(code_str(c)) == Some(ErrorCode::ReconnectionFailed));
        }
        ErrorCode::ReconnectionTokenInvalid => {
            assert(code_of(code_str(c)) == Some(ErrorCode::ReconnectionTokenInvalid));
        }
        ErrorCode::ReconnectionExpired => {
            assert(code_of(code_str(c)) == Some(ErrorCode::ReconnectionExpired));
        }
        ErrorCode::PlayerAlreadyConnected => {
            assert(code_of(code_str(c)) == Some(ErrorCode::PlayerAlreadyConnected));
        }
        ErrorCode::SpectatorNotAllowed => {
            assert(code_of(code_str(c)) == Some(ErrorCode::SpectatorNotAllowed));
        }
        ErrorCode::TooManySpectators => {
            assert(code_of(code_str(c)) == Some(ErrorCode::TooManySpectators));
        }
        ErrorCode::NotASpectator => {
            assert(code_of(code_str(c)) == Some(ErrorCode::NotASpectator));
        }
        ErrorCode::SpectatorJoinFailed => {
            assert(code_of(code_str(c)) == Some(ErrorCode::SpectatorJoinFailed));
        }
        ErrorCode::InternalError => {
            assert(code_of(code_str(c)) == Some(ErrorCode::InternalError));
        }
        ErrorCode::StorageError => {
            assert(code_of(code_str(c)) == Some(ErrorCode::StorageError));
        }
        ErrorCode::ServiceUnavailable => {
            assert(code_of(code_str(c)) == Some(ErrorCode::ServiceUnavailable));
        }
    }
}

} // verus!
