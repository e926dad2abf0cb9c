//! Configuration and parameter builders.

use signal_fish_client::client::{JoinRoomParams, SignalFishConfig};

#[test]
fn config_defaults() {
    let config = SignalFishConfig::new("mb_test_defaults");
    assert_eq!(config.app_id, "mb_test_defaults");
    assert!(config.sdk_version.is_some());
    assert!(config.platform.is_none());
    assert!(config.game_data_format.is_none());
    assert_eq!(config.event_channel_capacity, 256);
    assert_eq!(config.shutdown_timeout, std::time::Duration::from_secs(1));
}

#[test]
fn config_builder_methods() {
    let config = SignalFishConfig::new("mb_test")
        .with_event_channel_capacity(512)
        .with_shutdown_timeout(std::time::Duration::from_secs(5));
    assert_eq!(config.event_channel_capacity, 512);
    assert_eq!(config.shutdown_timeout, std::time::Duration::from_secs(5));
}

#[test]
fn event_channel_capacity_is_clamped_to_one() {
    let config = SignalFishConfig::new("mb_test").with_event_channel_capacity(0);
    assert_eq!(config.event_channel_capacity, 1);
}

#[test]
fn join_room_params_default() {
    let params = JoinRoomParams::new("g", "p");
    assert!(params.room_code.is_none());
    assert!(params.max_players.is_none());
    assert!(params.supports_authority.is_none());
    assert!(params.relay_transport.is_none());
}

#[test]
fn join_room_params_builder() {
    let params = JoinRoomParams::new("my-game", "Alice")
        .with_room_code("XYZ")
        .with_max_players(6)
        .with_supports_authority(true);

    assert_eq!(params.game_name, "my-game");
    assert_eq!(params.player_name, "Alice");
    assert_eq!(params.room_code.as_deref(), Some("XYZ"));
    assert_eq!(params.max_players, Some(6));
    assert_eq!(params.supports_authority, Some(true));
    assert!(params.relay_transport.is_none());
}
