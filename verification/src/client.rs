//! Client configuration, room parameters, and the commands they build.
//!
//! The asynchronous handle around the engine enqueues commands built here;
//! each builder returns the exact message the design prescribes, so the
//! first frame a transport ever sends is the `Authenticate` command built
//! from the configuration.

use crate::ids::{PlayerId, RoomId};
use crate::protocol::{ClientMessage, GameDataEncoding, RelayTransport};
use vstd::prelude::*;

verus! {

/// The span `std::time::Duration::from_secs` stands for: a pure function
/// of its argument, the same span on every call.
pub uninterp spec fn duration_of(secs: u64) -> std::time::Duration;

/// Relies on `std::time::Duration::from_secs`: the span of that many
/// seconds, named by `duration_of`.
pub assume_specification[ std::time::Duration::from_secs ](secs: u64) -> (r: std::time::Duration)
    ensures
        r == duration_of(secs),
;

/// Configuration for a client connection.
#[derive(Debug)]
pub struct SignalFishConfig {
    /// Public application identifier.
    pub app_id: String,
    /// SDK version string sent during authentication.
    pub sdk_version: Option<String>,
    /// Platform identifier.
    pub platform: Option<String>,
    /// Preferred game data encoding format.
    pub game_data_format: Option<GameDataEncoding>,
    /// Capacity of the bounded event channel; values below 1 are clamped.
    pub event_channel_capacity: usize,
    /// Grace period of a cooperative shutdown before the engine is cancelled.
    pub shutdown_timeout: std::time::Duration,
}

impl SignalFishConfig {
    /// A configuration with the given application identifier and defaults:
    /// the library's version string, no platform, no preferred encoding, an
    /// event channel of 256, a shutdown grace of one second.
    pub fn new(app_id: &str) -> (r: SignalFishConfig)
        ensures
            r.app_id@ == app_id@,
            r.sdk_version matches Some(v) && v@ == "0.1.0"@,
            r.platform is None,
            r.game_data_format is None,
            r.event_channel_capacity == 256,
            r.shutdown_timeout == duration_of(1),
    {
        SignalFishConfig {
            app_id: String::from_str(app_id),
            sdk_version: Some(String::from_str("0.1.0")),
            platform: None,
            game_data_format: None,
            event_channel_capacity: 256,
            shutdown_timeout: std::time::Duration::from_secs(1),
        }
    }

    /// Sets the event channel capacity; values below 1 are clamped to 1.
    pub fn with_event_channel_capacity(self, capacity: usize) -> (r: SignalFishConfig)
        ensures
            r == (SignalFishConfig {
                event_channel_capacity: if capacity < 1 {
                    1usize
                } else {
                    capacity
                },
                ..self
            }),
    {
        let c: usize = if capacity < 1 {
            1
        } else {
            capacity
        };
        SignalFishConfig { event_channel_capacity: c, ..self }
    }

    /// Sets the cooperative shutdown grace period.
    pub fn with_shutdown_timeout(self, timeout: std::time::Duration) -> (r: SignalFishConfig)
        ensures
            r == (SignalFishConfig { shutdown_timeout: timeout, ..self }),
    {
        SignalFishConfig { shutdown_timeout: timeout, ..self }
    }
}

/// Parameters for joining (or creating) a room.
#[derive(Debug)]
pub struct JoinRoomParams {
    /// Name of the game to join.
    pub game_name: String,
    /// Display name for the joining player.
    pub player_name: String,
    /// Room code to join; `None` asks for quick-match or a fresh room.
    pub room_code: Option<String>,
    /// Maximum number of players allowed in the room.
    pub max_players: Option<u8>,
    /// Whether the room should support authority delegation.
    pub supports_authority: Option<bool>,
    /// Preferred relay transport protocol.
    pub relay_transport: Option<RelayTransport>,
}

impl JoinRoomParams {
    /// Parameters with the two required fields and nothing else chosen.
    pub fn new(game_name: &str, player_name: &str) -> (r: JoinRoomParams)
        ensures
            r.game_name@ == game_name@,
            r.player_name@ == player_name@,
            r.room_code is None,
            r.max_players is None,
            r.supports_authority is None,
            r.relay_transport is None,
    {
        JoinRoomParams {
            game_name: String::from_str(game_name),
            player_name: String::from_str(player_name),
            room_code: None,
            max_players: None,
            supports_authority: None,
            relay_transport: None,
        }
    }

    /// Chooses an explicit room code to join.
    pub fn with_room_code(self, room_code: &str) -> (r: JoinRoomParams)
        ensures
            r.room_code matches Some(c) && c@ == room_code@,
            r.game_name == self.game_name,
            r.player_name == self.player_name,
            r.max_players == self.max_players,
            r.supports_authority == self.supports_authority,
            r.relay_transport == self.relay_transport,
    {
        JoinRoomParams { room_code: Some(String::from_str(room_code)), ..self }
    }

    /// Chooses the maximum number of players.
    pub fn with_max_players(self, max_players: u8) -> (r: JoinRoomParams)
        ensures
            r == (JoinRoomParams { max_players: Some(max_players), ..self }),
    {
        JoinRoomParams { max_players: Some(max_players), ..self }
    }

    /// Enables or disables authority delegation support.
    pub fn with_supports_authority(self, supports_authority: bool) -> (r: JoinRoomParams)
        ensures
            r == (JoinRoomParams { supports_authority: Some(supports_authority), ..self }),
    {
        JoinRoomParams { supports_authority: Some(supports_authority), ..self }
    }

    /// Chooses the preferred relay transport protocol.
    pub fn with_relay_transport(self, relay_transport: RelayTransport) -> (r: JoinRoomParams)
        ensures
            r == (JoinRoomParams { relay_transport: Some(relay_transport), ..self }),
    {
        JoinRoomParams { relay_transport: Some(relay_transport), ..self }
    }
}

/// The first command an engine ever sends: authentication from the
/// configuration.
pub fn authenticate_message(config: SignalFishConfig) -> (m: ClientMessage)
    ensures
        m == (ClientMessage::Authenticate {
            app_id: config.app_id,
            sdk_version: config.sdk_version,
            platform: config.platform,
            game_data_format: config.game_data_format,
        }),
{
    ClientMessage::Authenticate {
        app_id: config.app_id,
        sdk_version: config.sdk_version,
        platform: config.platform,
        game_data_format: config.game_data_format,
    }
}

/// The command a join-room request enqueues.
pub fn join_room_message(params: JoinRoomParams) -> (m: ClientMessage)
    ensures
        m == (ClientMessage::JoinRoom {
            game_name: params.game_name,
            room_code: params.room_code,
            player_name: params.player_name,
            max_players: params.max_players,
            supports_authority: params.supports_authority,
            relay_transport: params.relay_transport,
        }),
{
    ClientMessage::JoinRoom {
        game_name: params.game_name,
        room_code: params.room_code,
        player_name: params.player_name,
        max_players: params.max_players,
        supports_authority: params.supports_authority,
        relay_transport: params.relay_transport,
    }
}

/// The command a reconnection request enqueues.
pub fn reconnect_message(player_id: PlayerId, room_id: RoomId, auth_token: String) -> (m:
    ClientMessage)
    ensures
        m == (ClientMessage::Reconnect { player_id, room_id, auth_token }),
{
    ClientMessage::Reconnect { player_id, room_id, auth_token }
}

/// The command a spectate request enqueues.
pub fn join_as_spectator_message(game_name: String, room_code: String, spectator_name: String)
    -> (m: ClientMessage)
    ensures
        m == (ClientMessage::JoinAsSpectator { game_name, room_code, spectator_name }),
{
    ClientMessage::JoinAsSpectator { game_name, room_code, spectator_name }
}

} // verus!
