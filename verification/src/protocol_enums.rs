//! The wire protocol's enumerated values.
//!
//! Each enum is written on the wire as a fixed lower-snake string; casing
//! and separators are part of the compatibility contract.  For each type,
//! the spec pair (`*_str`, `*_of`) gives the two directions, the methods
//! `wire_text` and `from_text` implement them, and a round-trip lemma ties
//! them together.

use crate::wire::str_eq;
use vstd::prelude::*;

verus! {

/// Relay transport protocol selection.
#[derive(Debug, Clone, Copy, PartialEq, Eq, Structural)]
pub enum RelayTransport {
    Tcp,
    Udp,
    Websocket,
    Auto,
}

/// The wire string of a `RelayTransport`.
pub open spec fn rt_str(v: RelayTransport) -> Seq<char> {
    match v {
        RelayTransport::Tcp => "tcp"@,
        RelayTransport::Udp => "udp"@,
        RelayTransport::Websocket => "websocket"@,
        RelayTransport::Auto => "auto"@,
    }
}

/// The `RelayTransport` a wire string stands for, if any.
pub open spec fn rt_of(s: Seq<char>) -> Option<RelayTransport> {
    if s == "tcp"@ {
        Some(RelayTransport::Tcp)
    } else if s == "udp"@ {
        Some(RelayTransport::Udp)
    } else if s == "websocket"@ {
        Some(RelayTransport::Websocket)
    } else if s == "auto"@ {
        Some(RelayTransport::Auto)
    } else {
        None
    }
}

impl RelayTransport {
    /// The wire string of this value, exactly as `rt_str` gives it.
    pub fn wire_text(&self) -> (r: &'static str)
        ensures
            r@ == rt_str(*self),
    {
        match self {
            RelayTransport::Tcp => "tcp",
            RelayTransport::Udp => "udp",
            RelayTransport::Websocket => "websocket",
            RelayTransport::Auto => "auto",
        }
    }

    /// The value a wire string stands for, exactly as `rt_of` gives it.
    pub fn from_text(s: &str) -> (r: Option<RelayTransport>)
        ensures
            r == rt_of(s@),
    {
        if str_eq(s, "tcp") {
            Some(RelayTransport::Tcp)
        } else if str_eq(s, "udp") {
            Some(RelayTransport::Udp)
        } else if str_eq(s, "websocket") {
            Some(RelayTransport::Websocket)
        } else if str_eq(s, "auto") {
            Some(RelayTransport::Auto)
        } else {
            None
        }
    }
}

impl Default for RelayTransport {
    fn default() -> (r: RelayTransport)
        ensures
            r == RelayTransport::Auto,
    {
        RelayTransport::Auto
    }
}

/// Reading back the wire string of a value yields the value.
pub proof fn lemma_rt_round_trip(v: RelayTransport)
    ensures
        rt_of(rt_str(v)) == Some(v),
{
    reveal_strlit("tcp");
    reveal_strlit("udp");
    reveal_strlit("websocket");
    reveal_strlit("auto");
    assert("tcp"@.len() == 3);
    assert("udp"@.len() == 3);
    assert("websocket"@.len() == 9);
    assert("auto"@.len() == 4);
    assert("tcp"@[0] == 't');
    assert("udp"@[0] == 'u');
    match v {
        RelayTransport::Tcp => {
            assert(rt_of(rt_str(v)) == Some(RelayTransport::Tcp));
        }
        RelayTransport::Udp => {
            assert(rt_of(rt_str(v)) == Some(RelayTransport::Udp));
        }
        RelayTransport::Websocket => {
            assert(rt_of(rt_str(v)) == Some(RelayTransport::Websocket));
        }
        RelayTransport::Auto => {
            assert(rt_of(rt_str(v)) == Some(RelayTransport::Auto));
        }
    }
}

/// Encoding format for sequenced game data payloads.
#[derive(Debug, Clone, Copy, PartialEq, Eq, Structural)]
pub enum GameDataEncoding {
    Json,
    MessagePack,
    Rkyv,
}

/// The wire string of a `GameDataEncoding`.
pub open spec fn gde_str(v: GameDataEncoding) -> Seq<char> {
    match v {
        GameDataEncoding::Json => "json"@,
        GameDataEncoding::MessagePack => "message_pack"@,
        GameDataEncoding::Rkyv => "rkyv"@,
    }
}

/// The `GameDataEncoding` a wire string stands for, if any.
pub open spec fn gde_of(s: Seq<char>) -> Option<GameDataEncoding> {
    if s == "json"@ {
        Some(GameDataEncoding::Json)
    } else if s == "message_pack"@ {
        Some(GameDataEncoding::MessagePack)
    } else if s == "rkyv"@ {
        Some(GameDataEncoding::Rkyv)
    } else {
        None
    }
}

impl GameDataEncoding {
    /// The wire string of this value, exactly as `gde_str` gives it.
    pub fn wire_text(&self) -> (r: &'static str)
        ensures
            r@ == gde_str(*self),
    {
        match self {
            GameDataEncoding::Json => "json",
            GameDataEncoding::MessagePack => "message_pack",
            GameDataEncoding::Rkyv => "rkyv",
        }
    }

    /// The value a wire string stands for, exactly as `gde_of` gives it.
    pub fn from_text(s: &str) -> (r: Option<GameDataEncoding>)
        ensures
            r == gde_of(s@),
    {
        if str_eq(s, "json") {
            Some(GameDataEncoding::Json)
        } else if str_eq(s, "message_pack") {
            Some(GameDataEncoding::MessagePack)
        } else if str_eq(s, "rkyv") {
            Some(GameDataEncoding::Rkyv)
        } else {
            None
        }
    }
}

impl Default for GameDataEncoding {
    fn default() -> (r: GameDataEncoding)
        ensures
            r == GameDataEncoding::Json,
    {
        GameDataEncoding::Json
    }
}

/// Reading back the wire string of a value yields the value.
pub proof fn lemma_gde_round_trip(v: GameDataEncoding)
    ensures
        gde_of(gde_str(v)) == Some(v),
{
    reveal_strlit("json");
    reveal_strlit("message_pack");
    reveal_strlit("rkyv");
    assert("json"@.len() == 4);
    assert("message_pack"@.len() == 12);
    assert("rkyv"@.len() == 4);
    assert("json"@[0] == 'j');
    assert("rkyv"@[0] == 'r');
    match v {
        GameDataEncoding::Json => {
            assert(gde_of(gde_str(v)) == Some(GameDataEncoding::Json));
        }
        GameDataEncoding::MessagePack => {
            assert(gde_of(gde_str(v)) == Some(GameDataEncoding::MessagePack));
        }
        GameDataEncoding::Rkyv => {
            assert(gde_of(gde_str(v)) == Some(GameDataEncoding::Rkyv));
        }
    }
}

/// Describes why a spectator state change occurred.
#[derive(Debug, Clone, Copy, PartialEq, Eq, Structural)]
pub enum SpectatorStateChangeReason {
    Joined,
    VoluntaryLeave,
    Disconnected,
    Removed,
    RoomClosed,
}

/// The wire string of a `SpectatorStateChangeReason`.
pub open spec fn sscr_str(v: SpectatorStateChangeReason) -> Seq<char> {
    match v {
        SpectatorStateChangeReason::Joined => "joined"@,
        SpectatorStateChangeReason::VoluntaryLeave => "voluntary_leave"@,
        SpectatorStateChangeReason::Disconnected => "disconnected"@,
        SpectatorStateChangeReason::Removed => "removed"@,
        SpectatorStateChangeReason::RoomClosed => "room_closed"@,
    }
}

/// The `SpectatorStateChangeReason` a wire string stands for, if any.
pub open spec fn sscr_of(s: Seq<char>) -> Option<SpectatorStateChangeReason> {
    if s == "joined"@ {
        Some(SpectatorStateChangeReason::Joined)
    } else if s == "voluntary_leave"@ {
        Some(SpectatorStateChangeReason::VoluntaryLeave)
    } else if s == "disconnected"@ {
        Some(SpectatorStateChangeReason::Disconnected)
    } else if s == "removed"@ {
        Some(SpectatorStateChangeReason::Removed)
    } else if s == "room_closed"@ {
        Some(SpectatorStateChangeReason::RoomClosed)
    } else {
        None
    }
}

impl SpectatorStateChangeReason {
    /// The wire string of this value, exactly as `sscr_str` gives it.
    pub fn wire_text(&self) -> (r: &'static str)
        ensures
            r@ == sscr_str(*self),
    {
        match self {
            SpectatorStateChangeReason::Joined => "joined",
            SpectatorStateChangeReason::VoluntaryLeave => "voluntary_leave",
            SpectatorStateChangeReason::Disconnected => "disconnected",
            SpectatorStateChangeReason::Removed => "removed",
            SpectatorStateChangeReason::RoomClosed => "room_closed",
        }
    }

    /// The value a wire string stands for, exactly as `sscr_of` gives it.
    pub fn from_text(s: &str) -> (r: Option<SpectatorStateChangeReason>)
        ensures
            r == sscr_of(s@),
    {
        if str_eq(s, "joined") {
            Some(SpectatorStateChangeReason::Joined)
        } else if str_eq(s, "voluntary_leave") {
            Some(SpectatorStateChangeReason::VoluntaryLeave)
        } else if str_eq(s, "disconnected") {
            Some(SpectatorStateChangeReason::Disconnected)
        } else if str_eq(s, "removed") {
            Some(SpectatorStateChangeReason::Removed)
        } else if str_eq(s, "room_closed") {
            Some(SpectatorStateChangeReason::RoomClosed)
        } else {
            None
        }
    }
}

impl Default for SpectatorStateChangeReason {
    fn default() -> (r: SpectatorStateChangeReason)
        ensures
            r == SpectatorStateChangeReason::Joined,
    {
        SpectatorStateChangeReason::Joined
    }
}

/// Reading back the wire string of a value yields the value.
pub proof fn lemma_sscr_round_trip(v: SpectatorStateChangeReason)
    ensures
        sscr_of(sscr_str(v)) == Some(v),
{
    reveal_strlit("joined");
    reveal_strlit("voluntary_leave");
    reveal_strlit("disconnected");
    reveal_strlit("removed");
    reveal_strlit("room_closed");
    assert("joined"@.len() == 6);
    assert("voluntary_leave"@.len() == 15);
    assert("disconnected"@.len() == 12);
    assert("removed"@.len() == 7);
    assert("room_closed"@.len() == 11);
    match v {
        SpectatorStateChangeReason::Joined => {
            assert(sscr_of(sscr_str(v)) == Some(SpectatorStateChangeReason::Joined));
        }
        SpectatorStateChangeReason::VoluntaryLeave => {
            assert(sscr_of(sscr_str(v)) == Some(SpectatorStateChangeReason::VoluntaryLeave));
        }
        SpectatorStateChangeReason::Disconnected => {
            assert(sscr_of(sscr_str(v)) == Some(SpectatorStateChangeReason::Disconnected));
        }
        SpectatorStateChangeReason::Removed => {
            assert(sscr_of(sscr_str(v)) == Some(SpectatorStateChangeReason::Removed));
        }
        SpectatorStateChangeReason::RoomClosed => {
            assert(sscr_of(sscr_str(v)) == Some(SpectatorStateChangeReason::RoomClosed));
        }
    }
}

/// Lobby readiness state.
#[derive(Debug, Clone, Copy, PartialEq, Eq, Structural)]
pub enum LobbyState {
    Waiting,
    Lobby,
    Finalized,
}

/// The wire string of a `LobbyState`.
pub open spec fn ls_str(v: LobbyState) -> Seq<char> {
    match v {
        LobbyState::Waiting => "waiting"@,
        LobbyState::Lobby => "lobby"@,
        LobbyState::Finalized => "finalized"@,
    }
}

/// The `LobbyState` a wire string stands for, if any.
pub open spec fn ls_of(s: Seq<char>) -> Option<LobbyState> {
    if s == "waiting"@ {
        Some(LobbyState::Waiting)
    } else if s == "lobby"@ {
        Some(LobbyState::Lobby)
    } else if s == "finalized"@ {
        Some(LobbyState::Finalized)
    } else {
        None
    }
}

impl LobbyState {
    /// The wire string of this value, exactly as `ls_str` gives it.
    pub fn wire_text(&self) -> (r: &'static str)
        ensures
            r@ == ls_str(*self),
    {
        match self {
            LobbyState::Waiting => "waiting",
            LobbyState::Lobby => "lobby",
            LobbyState::Finalized => "finalized",
        }
    }

    /// The value a wire string stands for, exactly as `ls_of` gives it.
    pub fn from_text(s: &str) -> (r: Option<LobbyState>)
        ensures
            r == ls_of(s@),
    {
        if str_eq(s, "waiting") {
            Some(LobbyState::Waiting)
        } else if str_eq(s, "lobby") {
            Some(LobbyState::Lobby)
        } else if str_eq(s, "finalized") {
            Some(LobbyState::Finalized)
        } else {
            None
        }
    }
}

impl Default for LobbyState {
    fn default() -> (r: LobbyState)
        ensures
            r == LobbyState::Waiting,
    {
        LobbyState::Waiting
    }
}

/// Reading back the wire string of a value yields the value.
pub proof fn lemma_ls_round_trip(v: LobbyState)
    ensures
        ls_of(ls_str(v)) == Some(v),
{
    reveal_strlit("waiting");
    reveal_strlit("lobby");
    reveal_strlit("finalized");
    assert("waiting"@.len() == 7);
    assert("lobby"@.len() == 5);
    assert("finalized"@.len() == 9);
    match v {
        LobbyState::Waiting => {
            assert(ls_of(ls_str(v)) == Some(LobbyState::Waiting));
        }
        LobbyState::Lobby => {
            assert(ls_of(ls_str(v)) == Some(LobbyState::Lobby));
        }
        LobbyState::Finalized => {
            assert(ls_of(ls_str(v)) == Some(LobbyState::Finalized));
        }
    }
}

} // verus!
