//! Scenario tests for the engine's decision core and the shared state.

use signal_fish_client::client::{
    authenticate_message, join_room_message, JoinRoomParams, SignalFishConfig,
};
use signal_fish_client::engine::{Engine, EngineInput, EngineStep};
use signal_fish_client::error::SignalFishError;
use signal_fish_client::event::SignalFishEvent;
use signal_fish_client::ids::Uid;
use signal_fish_client::protocol::ClientMessage;

fn authenticated_text() -> String {
    let mut s = String::from("{\"type\":\"Authenticated\",\"data\":{\"app_name\":\"Test App\",");
    s.push_str("\"rate_limits\":{\"per_minute\":60,\"per_hour\":3600,\"per_day\":86400}}}");
    s
}

fn room_joined_text() -> String {
    let mut s = String::from("{\"type\":\"RoomJoined\",\"data\":{");
    s.push_str("\"room_id\":\"00000000-0000-0000-0000-000000000064\",");
    s.push_str("\"room_code\":\"ABC123\",");
    s.push_str("\"player_id\":\"00000000-0000-0000-0000-0000000000c8\",");
    s.push_str("\"game_name\":\"my-game\",\"max_players\":4,\"supports_authority\":true,");
    s.push_str("\"current_players\":[],\"is_authority\":false,\"lobby_state\":\"waiting\",");
    s.push_str("\"ready_players\":[],\"relay_type\":\"auto\",\"current_spectators\":[]}}");
    s
}

#[test]
fn authentication_flow_emits_connected_then_authenticated() {
    // The config's app id flows into the first frame the transport sends.
    let config = SignalFishConfig::new("mb_app_abc123");
    let first_command = authenticate_message(config);
    let frame = first_command.to_text();
    match ClientMessage::from_text(&frame).unwrap() {
        ClientMessage::Authenticate { app_id, .. } => assert_eq!(app_id, "mb_app_abc123"),
        other => panic!("expected Authenticate, got {other:?}"),
    }

    let mut engine = Engine::start();
    let first_event = Engine::connected_event();
    assert!(matches!(first_event, SignalFishEvent::Connected));

    let step = engine.on_input(EngineInput::Message(authenticated_text()));
    match step.event {
        Some(SignalFishEvent::Authenticated { app_name, .. }) => {
            assert_eq!(app_name, "Test App");
        }
        other => panic!("expected Authenticated event, got {other:?}"),
    }
    assert!(engine.state.authenticated);
    assert!(!step.terminate);
}

#[test]
fn room_join_updates_state() {
    let mut engine = Engine::start();
    let _ = engine.on_input(EngineInput::Message(authenticated_text()));
    let params = JoinRoomParams::new("my-game", "Alice").with_max_players(4);
    let join = join_room_message(params);
    let step = engine.on_input(EngineInput::Command(join));
    assert!(step.send_text.is_some());

    let step = engine.on_input(EngineInput::Message(room_joined_text()));
    assert!(matches!(step.event, Some(SignalFishEvent::RoomJoined(_))));
    assert_eq!(engine.state.room_code.as_deref(), Some("ABC123"));
    assert_eq!(engine.state.player_id, Some(Uid::from_u128(200)));
    assert_eq!(engine.state.room_id, Some(Uid::from_u128(100)));
}

#[test]
fn room_left_clears_room_state() {
    let mut engine = Engine::start();
    let _ = engine.on_input(EngineInput::Message(room_joined_text()));
    let step = engine.on_input(EngineInput::Message("{\"type\":\"RoomLeft\"}".to_string()));
    assert!(matches!(step.event, Some(SignalFishEvent::RoomLeft)));
    assert!(engine.state.room_id.is_none());
    assert!(engine.state.room_code.is_none());
}

#[test]
fn clean_close_emits_disconnected_without_reason() {
    let mut engine = Engine::start();
    let step = engine.on_input(EngineInput::Closed);
    match step.event {
        Some(SignalFishEvent::Disconnected { reason }) => assert!(reason.is_none()),
        other => panic!("expected Disconnected, got {other:?}"),
    }
    assert!(step.terminate);
    assert!(step.must_deliver);
    assert!(!engine.state.connected);
}

#[test]
fn receive_error_reason_carries_the_fault() {
    let mut engine = Engine::start();
    let step = engine.on_input(EngineInput::ReceiveError("boom".to_string()));
    match step.event {
        Some(SignalFishEvent::Disconnected { reason }) => {
            assert!(reason.unwrap().contains("boom"));
        }
        other => panic!("expected Disconnected, got {other:?}"),
    }
    assert!(step.terminate);
}

#[test]
fn operations_after_shutdown_fail_with_not_connected() {
    let mut engine = Engine::start();
    let step = engine.on_input(EngineInput::Shutdown);
    assert!(step.terminate);
    assert!(step.close_transport);
    let guard = engine.state.ensure_connected();
    assert!(matches!(guard, Err(SignalFishError::NotConnected)));
}

#[test]
fn shutdown_twice_is_idempotent() {
    let mut engine = Engine::start();
    let first = engine.on_input(EngineInput::Shutdown);
    assert!(first.terminate);
    let second = engine.on_input(EngineInput::Shutdown);
    assert!(second.event.is_none());
    assert!(!second.terminate);
    assert!(!second.close_transport);
}

#[test]
fn malformed_frame_does_not_kill_the_loop() {
    let mut engine = Engine::start();
    let bad = engine.on_input(EngineInput::Message("{not json".to_string()));
    assert!(bad.event.is_none());
    assert!(!bad.terminate);
    let good = engine.on_input(EngineInput::Message("{\"type\":\"Pong\"}".to_string()));
    assert!(matches!(good.event, Some(SignalFishEvent::Pong)));
    assert!(!good.terminate);
}

#[test]
fn backpressure_drops_events_but_delivers_terminal() {
    // A one-slot queue that drops on overflow, as the loop's non-blocking
    // publication does; the terminal event is delivered blocking.
    let mut engine = Engine::start();
    let capacity = 1usize;
    let mut queue: Vec<SignalFishEvent> = Vec::new();
    let mut sent = 0usize;

    queue.push(Engine::connected_event());
    sent += 1;

    for _ in 0..5 {
        let step = engine.on_input(EngineInput::Message("{\"type\":\"Pong\"}".to_string()));
        sent += 1;
        if let Some(ev) = step.event {
            if step.must_deliver || queue.len() < capacity {
                queue.push(ev);
            }
        }
    }
    let step = engine.on_input(EngineInput::Closed);
    sent += 1;
    let ev = step.event.expect("terminal event");
    assert!(step.must_deliver);
    queue.push(ev);

    assert!(queue.len() >= 2, "at least Connected and Disconnected");
    assert!(queue.len() < sent, "backpressure must drop some events");
    assert!(matches!(queue[0], SignalFishEvent::Connected));
    assert!(matches!(
        queue.last().unwrap(),
        SignalFishEvent::Disconnected { .. }
    ));
}

#[test]
fn commands_are_serialized_in_order() {
    let mut engine = Engine::start();
    let s1 = engine.on_input(EngineInput::Command(ClientMessage::Ping));
    let s2 = engine.on_input(EngineInput::Command(ClientMessage::LeaveRoom));
    assert_eq!(s1.send_text.as_deref(), Some("{\"type\":\"Ping\"}"));
    assert_eq!(s2.send_text.as_deref(), Some("{\"type\":\"LeaveRoom\"}"));
}

#[test]
fn send_failure_terminates_with_reason() {
    let mut engine = Engine::start();
    let step = engine.on_input(EngineInput::SendFailed("pipe closed".to_string()));
    match step.event {
        Some(SignalFishEvent::Disconnected { reason }) => {
            let r = reason.unwrap();
            assert!(r.starts_with("transport send error: "));
            assert!(r.contains("pipe closed"));
        }
        other => panic!("expected Disconnected, got {other:?}"),
    }
}

#[test]
fn no_step_after_termination_emits_events() {
    let mut engine = Engine::start();
    let _ = engine.on_input(EngineInput::Closed);
    for input in [
        EngineInput::Command(ClientMessage::Ping),
        EngineInput::Message("{\"type\":\"Pong\"}".to_string()),
        EngineInput::Shutdown,
        EngineInput::Closed,
    ] {
        let step: EngineStep = engine.on_input(input);
        assert!(step.event.is_none());
        assert!(step.send_text.is_none());
        assert!(!step.terminate);
    }
}

#[test]
fn fractional_frame_is_delivered_not_dropped() {
    let mut engine = Engine::start();
    let mut s = String::from("{\"type\":\"GameData\",\"data\":{");
    s.push_str("\"from_player\":\"00000000-0000-0000-0000-000000000007\",");
    s.push_str("\"data\":{\"x\":1.5}}}");
    let step = engine.on_input(EngineInput::Message(s));
    assert!(matches!(step.event, Some(SignalFishEvent::GameData { .. })));
    assert!(!step.terminate);
}

#[test]
fn error_message_texts_match_the_taxonomy() {
    let e = SignalFishError::TransportReceive("boom".to_string());
    assert_eq!(e.message(), "transport receive error: boom");
    assert_eq!(SignalFishError::NotConnected.message(), "not connected to server");
    assert_eq!(SignalFishError::TransportClosed.message(), "transport connection closed");
}
