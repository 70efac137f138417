use girk::client_monitor::{
    launch_multiplayer_client_wasm, ClientMonitor, ClientMonitorMultiplayerWasm, MultiPlayerLauncherConfigWasm,
};
use girk::client_starter::ClientStarter;
use girk::connect::ServerConnectToken;
use girk::game_instance::{
    process_report_outcome, GameInstanceReport, GameLaunchPack, GameOverReport, GameStartInfo, InstanceResult,
};
use girk::progress::{
    track_connection_state, track_initialization_state, ClientConnectionStatus, ClientFwState, Progress,
    ReplicationTracker,
};

#[test]
fn connection_progress_values() {
    assert_eq!(track_connection_state(ClientConnectionStatus::Disconnected), Progress { done: 0, total: 2 });
    assert_eq!(track_connection_state(ClientConnectionStatus::Connecting), Progress { done: 1, total: 2 });
    assert_eq!(track_connection_state(ClientConnectionStatus::Connected), Progress { done: 2, total: 2 });
}

#[test]
fn initialization_progress_values() {
    assert_eq!(track_initialization_state(ClientFwState::Connecting), Progress { done: 0, total: 2 });
    assert_eq!(track_initialization_state(ClientFwState::Syncing), Progress { done: 1, total: 2 });
    assert_eq!(track_initialization_state(ClientFwState::Init), Progress { done: 2, total: 2 });
    assert_eq!(track_initialization_state(ClientFwState::Game), Progress { done: 2, total: 2 });
    assert_eq!(track_initialization_state(ClientFwState::Setup), Progress { done: 2, total: 2 });
}

#[test]
fn replication_tracker_sets_and_resets() {
    let mut tracker = ReplicationTracker::new();
    let unset = Progress { done: 0, total: 1 };
    let set = Progress { done: 1, total: 1 };
    assert_eq!(tracker.track(false, ClientConnectionStatus::Connecting, true), unset);
    assert_eq!(tracker.track(true, ClientConnectionStatus::Connected, false), unset);
    assert_eq!(tracker.track(false, ClientConnectionStatus::Connected, true), set);
    // stays set while connected, whether or not the tick changes again
    assert_eq!(tracker.track(false, ClientConnectionStatus::Connected, false), set);
    assert_eq!(tracker.track(false, ClientConnectionStatus::Connected, true), set);
    // reset by a disconnect
    assert_eq!(tracker.track(false, ClientConnectionStatus::Disconnected, false), unset);
    // connecting and receiving the first tick in the same update sets it
    assert_eq!(tracker.track(true, ClientConnectionStatus::Connected, true), set);
}

#[test]
fn client_starter_lifecycle() {
    let mut starter = ClientStarter::default();
    assert!(!starter.has_starter());
    assert_eq!(starter.game_id(), None);
    assert!(starter.start(ServerConnectToken::default()).is_err());

    starter.set(4, GameStartInfo::new(4, 10, 1, vec![1, 2]));
    assert!(starter.has_starter());
    assert_eq!(starter.game_id(), Some(4));
    let (token, info) = starter.start(ServerConnectToken::Native { token: vec![9] }).unwrap();
    assert!(matches!(token, ServerConnectToken::Native { token } if token == vec![9]));
    assert_eq!(info.user_id, 10);
    assert_eq!(info.serialized_start_data, vec![1, 2]);

    // clearing another game's starter does nothing
    starter.clear(5);
    assert_eq!(starter.game_id(), Some(4));
    starter.clear(4);
    assert!(!starter.has_starter());

    starter.set(6, GameStartInfo::new_from_id(3));
    starter.force_clear();
    assert_eq!(starter.game_id(), None);
}

#[test]
fn wasm_multiplayer_monitor() {
    let token = ServerConnectToken::default();
    let wasm = launch_multiplayer_client_wasm_default(token);
    let mut monitor: ClientMonitor<ClientMonitorMultiplayerWasm> = ClientMonitor::new();
    assert!(!monitor.has_client());
    assert_eq!(monitor.game_id(), None);
    assert!(!monitor.is_running());
    assert!(monitor.take_result().is_err());
    assert!(monitor.cleanup().is_none());

    monitor.set(wasm);
    assert!(monitor.has_client());
    assert_eq!(monitor.game_id(), Some(u64::MAX));
    assert!(!monitor.is_running());
    monitor.send_token(ServerConnectToken::default());
    monitor.kill(3);
    assert!(monitor.has_client());
    assert!(monitor.take_result().is_err());
    // the wasm monitor never yields a result, so cleanup keeps it
    assert!(monitor.cleanup().is_none());
    assert!(monitor.has_client());
    monitor.clear();
    assert!(!monitor.has_client());
}

fn launch_multiplayer_client_wasm_default(token: ServerConnectToken) -> ClientMonitorMultiplayerWasm {
    let config: MultiPlayerLauncherConfigWasm<()> = MultiPlayerLauncherConfigWasm::new();
    launch_multiplayer_client_wasm(config.clone(), token, GameStartInfo::new_from_id(1))
}

#[test]
fn report_outcomes() {
    let over = GameInstanceReport::GameOver(3, GameOverReport { data: vec![1] });
    let aborted = GameInstanceReport::GameAborted(4, "stopped".to_string());
    assert_eq!(process_report_outcome(&over), Some(true));
    assert_eq!(process_report_outcome(&aborted), Some(false));
    assert_eq!(over.game_id(), 3);
    assert_eq!(aborted.game_id(), 4);
}

#[test]
fn instance_result_is_cached() {
    let mut result = InstanceResult::new();
    assert!(result.is_running());
    assert_eq!(result.try_get(None), None);
    assert_eq!(result.try_get(Some(Err(()))), Some(false));
    assert!(!result.is_running());
    assert_eq!(result.try_get(Some(Ok(true))), Some(false));
    assert_eq!(result.get(), Some(false));

    let mut ok = InstanceResult::new();
    assert_eq!(ok.try_get(Some(Ok(true))), Some(true));
}

#[test]
fn launch_pack_and_start_info_constructors() {
    let pack = GameLaunchPack::new(9, vec![4, 5]);
    assert_eq!(pack.game_id, 9);
    assert_eq!(pack.game_launch_data, vec![4, 5]);
    let info = GameStartInfo::new_from_id(77);
    assert_eq!((info.game_id, info.user_id, info.client_id), (0, 77, 0));
    assert!(info.serialized_start_data.is_empty());
}
