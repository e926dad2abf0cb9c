//! Shared connection state.
//!
//! A small record mutated only by the engine and read by the handle.  The
//! invariant holds at every observable instant: the room identifier and the
//! room code are set together and cleared together.

use crate::ids::{PlayerId, RoomId};
use crate::protocol::ServerMessage;
use vstd::prelude::*;

verus! {

/// Connectivity, authentication and room identity of one engine instance.
#[derive(Debug)]
pub struct ConnectionState {
    /// True from engine start until the terminal disconnect; then false
    /// forever.
    pub connected: bool,
    /// Set on `Authenticated`, cleared on any disconnect.
    pub authenticated: bool,
    /// The player (or spectator) identity, set on joining.
    pub player_id: Option<PlayerId>,
    /// The current room, set and cleared together with the room code.
    pub room_id: Option<RoomId>,
    /// The current room code.
    pub room_code: Option<String>,
}

/// The state-update rule of one notification: what the state after
/// processing must be, given the state before.  `Authenticated` sets the
/// flag; joining (as player, reconnector or spectator) sets identity and
/// room together; leaving clears the room; everything else changes nothing.
pub open spec fn updated(pre: ConnectionState, m: ServerMessage, post: ConnectionState) -> bool {
    &&& post.connected == pre.connected
    &&& match m {
        ServerMessage::Authenticated { .. } => post == ConnectionState {
            authenticated: true,
            ..pre
        },
        ServerMessage::RoomJoined(p) => {
            &&& post.authenticated == pre.authenticated
            &&& post.player_id == Some(p.player_id)
            &&& post.room_id == Some(p.room_id)
            &&& post.room_code matches Some(rc) && rc@ == p.room_code@
        },
        ServerMessage::Reconnected(p) => {
            &&& post.authenticated == pre.authenticated
            &&& post.player_id == Some(p.player_id)
            &&& post.room_id == Some(p.room_id)
            &&& post.room_code matches Some(rc) && rc@ == p.room_code@
        },
        ServerMessage::SpectatorJoined(p) => {
            &&& post.authenticated == pre.authenticated
            &&& post.player_id == Some(p.spectator_id)
            &&& post.room_id == Some(p.room_id)
            &&& post.room_code matches Some(rc) && rc@ == p.room_code@
        },
        ServerMessage::RoomLeft => post == ConnectionState {
            room_id: None,
            room_code: None,
            ..pre
        },
        ServerMessage::SpectatorLeft { .. } => post == ConnectionState {
            room_id: None,
            room_code: None,
            ..pre
        },
        _ => post == pre,
    }
}

impl ConnectionState {
    /// The state invariant: a room identifier exactly when a room code.
    pub open spec fn inv(self) -> bool {
        self.room_id is Some <==> self.room_code is Some
    }

    /// The initial state of a freshly started engine.
    pub fn new() -> (s: ConnectionState)
        ensures
            s.connected,
            !s.authenticated,
            s.player_id is None,
            s.room_id is None,
            s.room_code is None,
            s.inv(),
    {
        ConnectionState {
            connected: true,
            authenticated: false,
            player_id: None,
            room_id: None,
            room_code: None,
        }
    }

    /// Applies a notification's state-update rule: `Authenticated` sets the
    /// flag; joining (as player, reconnector or spectator) sets identity and
    /// room together; leaving clears the room; everything else changes
    /// nothing.
    pub fn update(&mut self, m: &ServerMessage)
        ensures
            updated(*old(self), *m, *final (self)),
            old(self).inv() ==> final (self).inv(),
    {
        match m {
            ServerMessage::Authenticated { .. } => {
                self.authenticated = true;
            }
            ServerMessage::RoomJoined(p) => {
                self.player_id = Some(p.player_id);
                self.room_id = Some(p.room_id);
                self.room_code = Some(p.room_code.clone());
            }
            ServerMessage::Reconnected(p) => {
                self.player_id = Some(p.player_id);
                self.room_id = Some(p.room_id);
                self.room_code = Some(p.room_code.clone());
            }
            ServerMessage::SpectatorJoined(p) => {
                self.player_id = Some(p.spectator_id);
                self.room_id = Some(p.room_id);
                self.room_code = Some(p.room_code.clone());
            }
            ServerMessage::RoomLeft => {
                self.room_id = None;
                self.room_code = None;
            }
            ServerMessage::SpectatorLeft { .. } => {
                self.room_id = None;
                self.room_code = None;
            }
            _ => {}
        }
    }

    /// The guard every handle operation takes: `Ok` exactly when connected.
    pub fn ensure_connected(&self) -> (r: Result<(), crate::error::SignalFishError>)
        ensures
            r is Ok <==> self.connected,
            r matches Err(e) ==> e is NotConnected,
    {
        if self.connected {
            Ok(())
        } else {
            Err(crate::error::SignalFishError::NotConnected)
        }
    }
}

} // verus!
