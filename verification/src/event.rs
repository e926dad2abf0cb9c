//! Consumer-visible events.
//!
//! One variant per incoming notification, plus two synthetic variants that
//! never appear on the wire: `Connected`, emitted once when the engine
//! starts, and `Disconnected`, emitted exactly once when it stops.

use crate::error_codes::ErrorCode;
use crate::ids::PlayerId;
use crate::json::Json;
use crate::protocol::{
    GameDataEncoding, LobbyState, PeerConnectionInfo, PlayerInfo, ProtocolInfoPayload,
    RateLimitInfo, ReconnectedPayload, RoomJoinedPayload, ServerMessage, SpectatorInfo,
    SpectatorJoinedPayload, SpectatorStateChangeReason,
};
use vstd::prelude::*;

verus! {

/// An event delivered to the application.
#[derive(Debug)]
pub enum SignalFishEvent {
    /// The engine has started; always the first event.
    Connected,
    /// The engine has stopped; always the last event, delivered exactly once.
    Disconnected { reason: Option<String> },
    Authenticated { app_name: String, organization: Option<String>, rate_limits: RateLimitInfo },
    ProtocolInfo(ProtocolInfoPayload),
    AuthenticationError { error: String, error_code: ErrorCode },
    RoomJoined(Box<RoomJoinedPayload>),
    RoomJoinFailed { reason: String, error_code: Option<ErrorCode> },
    RoomLeft,
    PlayerJoined { player: PlayerInfo },
    PlayerLeft { player_id: PlayerId },
    GameData { from_player: PlayerId, data: Json },
    GameDataBinary { from_player: PlayerId, encoding: GameDataEncoding, payload: Vec<u8> },
    AuthorityChanged { authority_player: Option<PlayerId>, you_are_authority: bool },
    AuthorityResponse { granted: bool, reason: Option<String>, error_code: Option<ErrorCode> },
    LobbyStateChanged { lobby_state: LobbyState, ready_players: Vec<PlayerId>, all_ready: bool },
    GameStarting { peer_connections: Vec<PeerConnectionInfo> },
    Pong,
    Reconnected(Box<ReconnectedPayload>),
    ReconnectionFailed { reason: String, error_code: ErrorCode },
    PlayerReconnected { player_id: PlayerId },
    SpectatorJoined(Box<SpectatorJoinedPayload>),
    SpectatorJoinFailed { reason: String, error_code: Option<ErrorCode> },
    SpectatorLeft {
        room_id: Option<crate::ids::RoomId>,
        room_code: Option<String>,
        reason: Option<SpectatorStateChangeReason>,
        current_spectators: Vec<SpectatorInfo>,
    },
    NewSpectatorJoined {
        spectator: SpectatorInfo,
        current_spectators: Vec<SpectatorInfo>,
        reason: Option<SpectatorStateChangeReason>,
    },
    SpectatorDisconnected {
        spectator_id: PlayerId,
        reason: Option<SpectatorStateChangeReason>,
        current_spectators: Vec<SpectatorInfo>,
    },
    Error { message: String, error_code: Option<ErrorCode> },
}

/// The event a notification is republished as.
pub open spec fn event_of(m: ServerMessage) -> SignalFishEvent {
    match m {
        ServerMessage::Authenticated { app_name, organization, rate_limits } =>
            SignalFishEvent::Authenticated { app_name, organization, rate_limits },
        ServerMessage::ProtocolInfo(p) => SignalFishEvent::ProtocolInfo(p),
        ServerMessage::AuthenticationError { error, error_code } =>
            SignalFishEvent::AuthenticationError { error, error_code },
        ServerMessage::RoomJoined(p) => SignalFishEvent::RoomJoined(p),
        ServerMessage::RoomJoinFailed { reason, error_code } =>
            SignalFishEvent::RoomJoinFailed { reason, error_code },
        ServerMessage::RoomLeft => SignalFishEvent::RoomLeft,
        ServerMessage::PlayerJoined { player } => SignalFishEvent::PlayerJoined { player },
        ServerMessage::PlayerLeft { player_id } => SignalFishEvent::PlayerLeft { player_id },
        ServerMessage::GameData { from_player, data } =>
            SignalFishEvent::GameData { from_player, data },
        ServerMessage::GameDataBinary { from_player, encoding, payload } =>
            SignalFishEvent::GameDataBinary { from_player, encoding, payload },
        ServerMessage::AuthorityChanged { authority_player, you_are_authority } =>
            SignalFishEvent::AuthorityChanged { authority_player, you_are_authority },
        ServerMessage::AuthorityResponse { granted, reason, error_code } =>
            SignalFishEvent::AuthorityResponse { granted, reason, error_code },
        ServerMessage::LobbyStateChanged { lobby_state, ready_players, all_ready } =>
            SignalFishEvent::LobbyStateChanged { lobby_state, ready_players, all_ready },
        ServerMessage::GameStarting { peer_connections } =>
            SignalFishEvent::GameStarting { peer_connections },
        ServerMessage::Pong => SignalFishEvent::Pong,
        ServerMessage::Reconnected(p) => SignalFishEvent::Reconnected(p),
        ServerMessage::ReconnectionFailed { reason, error_code } =>
            SignalFishEvent::ReconnectionFailed { reason, error_code },
        ServerMessage::PlayerReconnected { player_id } =>
            SignalFishEvent::PlayerReconnected { player_id },
        ServerMessage::SpectatorJoined(p) => SignalFishEvent::SpectatorJoined(p),
        ServerMessage::SpectatorJoinFailed { reason, error_code } =>
            SignalFishEvent::SpectatorJoinFailed { reason, error_code },
        ServerMessage::SpectatorLeft { room_id, room_code, reason, current_spectators } =>
            SignalFishEvent::SpectatorLeft { room_id, room_code, reason, current_spectators },
        ServerMessage::NewSpectatorJoined { spectator, current_spectators, reason } =>
            SignalFishEvent::NewSpectatorJoined { spectator, current_spectators, reason },
        ServerMessage::SpectatorDisconnected { spectator_id, reason, current_spectators } =>
            SignalFishEvent::SpectatorDisconnected { spectator_id, reason, current_spectators },
        ServerMessage::Error { message, error_code } =>
            SignalFishEvent::Error { message, error_code },
    }
}

/// No notification republishes as a synthetic event: `Connected` and
/// `Disconnected` never come from the wire.
pub proof fn lemma_event_of_never_synthetic(m: ServerMessage)
    ensures
        !(event_of(m) is Connected),
        !(event_of(m) is Disconnected),
{
    match m {
        ServerMessage::Authenticated { .. } => {}
        ServerMessage::ProtocolInfo(_) => {}
        ServerMessage::AuthenticationError { .. } => {}
        ServerMessage::RoomJoined(_) => {}
        ServerMessage::RoomJoinFailed { .. } => {}
        ServerMessage::RoomLeft => {}
        ServerMessage::PlayerJoined { .. } => {}
        ServerMessage::PlayerLeft { .. } => {}
        ServerMessage::GameData { .. } => {}
        ServerMessage::GameDataBinary { .. } => {}
        ServerMessage::AuthorityChanged { .. } => {}
        ServerMessage::AuthorityResponse { .. } => {}
        ServerMessage::LobbyStateChanged { .. } => {}
        ServerMessage::GameStarting { .. } => {}
        ServerMessage::Pong => {}
        ServerMessage::Reconnected(_) => {}
        ServerMessage::ReconnectionFailed { .. } => {}
        ServerMessage::PlayerReconnected { .. } => {}
        ServerMessage::SpectatorJoined(_) => {}
        ServerMessage::SpectatorJoinFailed { .. } => {}
        ServerMessage::SpectatorLeft { .. } => {}
        ServerMessage::NewSpectatorJoined { .. } => {}
        ServerMessage::SpectatorDisconnected { .. } => {}
        ServerMessage::Error { .. } => {}
    }
}

impl SignalFishEvent {
    /// Republishes a notification as its event, exactly `event_of`.
    pub fn from_message(m: ServerMessage) -> (e: SignalFishEvent)
        ensures
            e == event_of(m),
    {
        match m {
            ServerMessage::Authenticated { app_name, organization, rate_limits } =>
                SignalFishEvent::Authenticated { app_name, organization, rate_limits },
            ServerMessage::ProtocolInfo(p) => SignalFishEvent::ProtocolInfo(p),
            ServerMessage::AuthenticationError { error, error_code } =>
                SignalFishEvent::AuthenticationError { error, error_code },
            ServerMessage::RoomJoined(p) => SignalFishEvent::RoomJoined(p),
            ServerMessage::RoomJoinFailed { reason, error_code } =>
                SignalFishEvent::RoomJoinFailed { reason, error_code },
            ServerMessage::RoomLeft => SignalFishEvent::RoomLeft,
            ServerMessage::PlayerJoined { player } => SignalFishEvent::PlayerJoined { player },
            ServerMessage::PlayerLeft { player_id } => SignalFishEvent::PlayerLeft { player_id },
            ServerMessage::GameData { from_player, data } =>
                SignalFishEvent::GameData { from_player, data },
            ServerMessage::GameDataBinary { from_player, encoding, payload } =>
                SignalFishEvent::GameDataBinary { from_player, encoding, payload },
            ServerMessage::AuthorityChanged { authority_player, you_are_authority } =>
                SignalFishEvent::AuthorityChanged { authority_player, you_are_authority },
            ServerMessage::AuthorityResponse { granted, reason, error_code } =>
                SignalFishEvent::AuthorityResponse { granted, reason, error_code },
            ServerMessage::LobbyStateChanged { lobby_state, ready_players, all_ready } =>
                SignalFishEvent::LobbyStateChanged { lobby_state, ready_players, all_ready },
            ServerMessage::GameStarting { peer_connections } =>
                SignalFishEvent::GameStarting { peer_connections },
            ServerMessage::Pong => SignalFishEvent::Pong,
            ServerMessage::Reconnected(p) => SignalFishEvent::Reconnected(p),
            ServerMessage::ReconnectionFailed { reason, error_code } =>
                SignalFishEvent::ReconnectionFailed { reason, error_code },
            ServerMessage::PlayerReconnected { player_id } =>
                SignalFishEvent::PlayerReconnected { player_id },
            ServerMessage::SpectatorJoined(p) => SignalFishEvent::SpectatorJoined(p),
            ServerMessage::SpectatorJoinFailed { reason, error_code } =>
                SignalFishEvent::SpectatorJoinFailed { reason, error_code },
            ServerMessage::SpectatorLeft { room_id, room_code, reason, current_spectators } =>
                SignalFishEvent::SpectatorLeft {
                    room_id,
                    room_code,
                    reason,
                    current_spectators,
                },
            ServerMessage::NewSpectatorJoined { spectator, current_spectators, reason } =>
                SignalFishEvent::NewSpectatorJoined { spectator, current_spectators, reason },
            ServerMessage::SpectatorDisconnected {
                spectator_id,
                reason,
                current_spectators,
            } => SignalFishEvent::SpectatorDisconnected {
                spectator_id,
                reason,
                current_spectators,
            },
            ServerMessage::Error { message, error_code } =>
                SignalFishEvent::Error { message, error_code },
        }
    }
}

} // verus!
