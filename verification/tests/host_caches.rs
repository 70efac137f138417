use std::collections::HashSet;

use girk::connect::{ConnectMetaNative, ConnectMetaWasmWs, ConnectMetas, ServerConnectToken};
use girk::connection::ConnectionType;
use girk::game_instance::GameStartInfo;
use girk::ongoing_games::{OngoingGame, OngoingGamesCache, OngoingGamesCacheConfig};
use girk::span::Span;
use girk::users_cache::{EnvType, UserInfo, UserState, UsersCache};

fn game(game_id: u64, users: &[u128]) -> OngoingGame {
    let mut metas = ConnectMetas::default();
    metas.native = Some(ConnectMetaNative::dummy());
    OngoingGame {
        game_id,
        game_hub_id: 7,
        metas,
        start_infos: users
            .iter()
            .enumerate()
            .map(|(i, u)| GameStartInfo::new(game_id, *u, i as u64, vec![i as u8]))
            .collect(),
    }
}

fn cache(expiry_secs: u64) -> OngoingGamesCache {
    OngoingGamesCache::new(OngoingGamesCacheConfig { expiry_duration: Span::from_secs(expiry_secs) })
}

#[test]
fn users_cache_add_remove_roundtrip() {
    let mut users = UsersCache::new();
    assert!(!users.has_user(1));
    assert_eq!(users.add_user(1, UserInfo::new(EnvType::Wasm, ConnectionType::WasmWt)), Ok(()));
    assert!(users.has_user(1));
    assert_eq!(users.remove_user(1), Ok(()));
    assert!(!users.has_user(1));
    assert_eq!(users.remove_user(1), Err(()));
}

#[test]
fn users_cache_add_existing_is_refused_and_keeps_the_user() {
    let mut users = UsersCache::new();
    assert_eq!(users.add_user(5, UserInfo::test()), Ok(()));
    assert_eq!(users.update_user_state(5, UserState::InLobby(3)), Ok(()));
    assert_eq!(users.add_user(5, UserInfo::new(EnvType::Wasm, ConnectionType::WasmWs)), Err(()));
    let info = users.get_user_info(5).unwrap();
    assert_eq!(info.env_type(), EnvType::Native);
    assert_eq!(info.connection(), ConnectionType::Native);
    assert_eq!(info.user_state(), UserState::InLobby(3));
}

#[test]
fn users_cache_memory_connection_is_served_as_native() {
    let mut users = UsersCache::new();
    assert_eq!(users.add_user(2, UserInfo::new(EnvType::Native, ConnectionType::Memory)), Ok(()));
    assert_eq!(users.get_user_info(2).unwrap().connection(), ConnectionType::Native);
}

#[test]
fn users_cache_update_unknown_user_errs() {
    let mut users = UsersCache::new();
    assert_eq!(users.update_user_state(9, UserState::InGame(1)), Err(()));
    assert_eq!(users.get_user_state(9), None);
    assert!(users.get_user_info(9).is_none());
}

#[test]
fn users_cache_set_user_states_counts_missing() {
    let mut users = UsersCache::new();
    users.add_user(1, UserInfo::test()).unwrap();
    users.add_user(2, UserInfo::test()).unwrap();
    users.add_user(3, UserInfo::test()).unwrap();
    let ids: HashSet<u128> = [1u128, 2, 40, 50].into_iter().collect();
    assert_eq!(users.set_user_states(&ids, UserState::InGame(8)), Err(2));
    assert_eq!(users.get_user_state(1), Some(UserState::InGame(8)));
    assert_eq!(users.get_user_state(2), Some(UserState::InGame(8)));
    assert_eq!(users.get_user_state(3), Some(UserState::Idle));
    assert!(!users.has_user(40));

    let known: HashSet<u128> = [3u128].into_iter().collect();
    assert_eq!(users.set_user_states(&known, UserState::InPendingLobby(2)), Ok(()));
    assert_eq!(users.get_user_state(3), Some(UserState::InPendingLobby(2)));
}

#[test]
fn user_info_test_defaults() {
    let info = UserInfo::test();
    assert_eq!(info.env_type(), EnvType::Native);
    assert_eq!(info.connection(), ConnectionType::Native);
    assert_eq!(info.user_state(), UserState::Idle);
}

#[test]
fn ongoing_games_add_find_remove() {
    let mut games = cache(100);
    assert_eq!(games.add_ongoing_game(game(1, &[10, 11])), Ok(()));
    let (gid, info) = games.find_user_start_info(11).unwrap();
    assert_eq!(gid, 1);
    assert_eq!(info.user_id, 11);
    assert_eq!(info.client_id, 1);
    assert_eq!(games.get_start_infos(1).unwrap().len(), 2);
    assert!(games.get_start_infos(2).is_none());

    let removed = games.remove_ongoing_game(1).unwrap();
    assert_eq!(removed.game_id, 1);
    assert!(games.find_user_start_info(10).is_none());
    assert!(games.find_user_start_info(11).is_none());
    assert!(games.remove_ongoing_game(1).is_err());
}

#[test]
fn ongoing_games_refuse_duplicate_game_id() {
    let mut games = cache(100);
    assert_eq!(games.add_ongoing_game(game(1, &[10])), Ok(()));
    assert_eq!(games.add_ongoing_game(game(1, &[20])), Err(()));
    assert!(games.find_user_start_info(20).is_none());
    assert_eq!(games.find_user_start_info(10).unwrap().0, 1);
}

#[test]
fn ongoing_games_refuse_user_already_playing() {
    let mut games = cache(100);
    assert_eq!(games.add_ongoing_game(game(1, &[10, 11])), Ok(()));
    assert_eq!(games.add_ongoing_game(game(2, &[12, 11, 13])), Err(()));
    // the refused game's users are not registered, and the conflicting user stays in its game
    assert!(games.find_user_start_info(12).is_none());
    assert!(games.find_user_start_info(13).is_none());
    assert_eq!(games.find_user_start_info(11).unwrap().0, 1);
    assert!(games.get_start_infos(2).is_none());
}

#[test]
fn ongoing_games_user_listed_twice_is_refused() {
    let mut games = cache(100);
    assert_eq!(games.add_ongoing_game(game(3, &[4, 5, 5])), Err(()));
    assert!(games.get_start_infos(3).is_none());
    // the refusal leaves no user mapped to the refused game
    assert!(games.find_user_start_info(4).is_none());
    assert!(games.find_user_start_info(5).is_none());
    assert_eq!(games.add_ongoing_game(game(6, &[5, 4])), Ok(()));
    assert_eq!(games.find_user_start_info(5).unwrap().0, 6);
}

#[test]
fn ongoing_games_add_then_remove_restores() {
    let mut games = cache(100);
    games.add_ongoing_game(game(1, &[10])).unwrap();
    games.add_ongoing_game(game(2, &[20, 21])).unwrap();
    games.remove_ongoing_game(2).unwrap();
    assert!(games.find_user_start_info(20).is_none());
    assert!(games.find_user_start_info(21).is_none());
    assert_eq!(games.find_user_start_info(10).unwrap().0, 1);
    // the users of the removed game can join another game again
    assert_eq!(games.add_ongoing_game(game(4, &[20, 21])), Ok(()));
}

#[test]
fn ongoing_games_drain_expired_at() {
    let mut games = cache(10);
    games.add_ongoing_game(game(1, &[10])).unwrap();
    games.add_ongoing_game(game(2, &[20])).unwrap();
    // nothing has expired yet
    assert!(games.drain_expired_at(Span::zero()).is_empty());
    // far in the future, every game has expired
    let drained = games.drain_expired_at(Span::from_secs(1_000_000));
    let mut ids: Vec<u64> = drained.iter().map(|g| g.game_id).collect();
    ids.sort();
    assert_eq!(ids, vec![1, 2]);
    assert!(games.find_user_start_info(10).is_none());
    assert!(games.get_start_infos(2).is_none());
}

#[test]
fn ongoing_games_drain_expired_keeps_fresh_games() {
    let mut games = cache(1_000_000);
    games.add_ongoing_game(game(1, &[10])).unwrap();
    assert!(games.drain_expired().is_empty());
    assert_eq!(games.find_user_start_info(10).unwrap().0, 1);
}

#[test]
fn ongoing_games_user_start_info_gives_native_token() {
    let mut games = cache(100);
    games.add_ongoing_game(game(1, &[10, 11])).unwrap();
    let user = UserInfo::test();
    let (gid, token, info) = games.get_user_start_info(11, &user).unwrap();
    assert_eq!(gid, 1);
    assert_eq!(info.user_id, 11);
    match token {
        ServerConnectToken::Native { token } => assert!(!token.is_empty()),
        other => panic!("unexpected token {:?}", other),
    }
    let (gid, token) = games.get_user_connect_token(10, &user).unwrap();
    assert_eq!(gid, 1);
    assert!(matches!(token, ServerConnectToken::Native { .. }));
    assert!(games.get_user_connect_token(99, &user).is_none());
}

#[test]
fn ongoing_games_wasm_user_without_wasm_meta_gets_nothing() {
    let mut games = cache(100);
    games.add_ongoing_game(game(1, &[10])).unwrap();
    let wasm_user = UserInfo::new(EnvType::Wasm, ConnectionType::WasmWt);
    assert!(games.get_user_start_info(10, &wasm_user).is_none());
}

#[test]
fn ongoing_games_user_start_info_at_given_time() {
    let mut games = cache(100);
    games.add_ongoing_game(game(1, &[10])).unwrap();
    let user = UserInfo::test();
    let (gid, token, info) = games.get_user_start_info_at(10, &user, Span::from_secs(1_000)).unwrap();
    assert_eq!(gid, 1);
    assert_eq!(info.client_id, 0);
    assert!(matches!(token, ServerConnectToken::Native { .. }));
    // a token whose expiry overflows is not made
    assert!(games.get_user_start_info_at(10, &user, Span::from_secs(u64::MAX)).is_none());
    assert!(games.get_user_connect_token_at(11, &user, Span::from_secs(1_000)).is_none());
    assert_eq!(games.get_user_connect_token_at(10, &user, Span::from_secs(5)).unwrap().0, 1);
}

#[test]
fn ongoing_games_token_only_needs_the_users_meta() {
    let mut g = game(1, &[10]);
    let native = ConnectMetaNative::dummy();
    let mut ws_config = native.server_config;
    ws_config.expire_secs = u64::MAX;
    g.metas.wasm_ws = Some(ConnectMetaWasmWs {
        server_config: ws_config,
        server_addresses: native.server_addresses.clone(),
        socket_id: 1,
        auth_key: native.auth_key,
        url: "ws://127.0.0.1:8080".to_string(),
    });
    let mut games = cache(100);
    games.add_ongoing_game(g).unwrap();
    // the websocket meta would overflow at this time, but the native user's token comes from the native meta
    let native_user = UserInfo::test();
    assert!(games.get_user_start_info_at(10, &native_user, Span::from_secs(1_000)).is_some());
    let ws_user = UserInfo::new(EnvType::Wasm, ConnectionType::WasmWs);
    assert!(games.get_user_start_info_at(10, &ws_user, Span::from_secs(1_000)).is_none());
}

#[test]
fn users_cache_update_keeps_env_and_connection() {
    let mut users = UsersCache::new();
    users.add_user(3, UserInfo::new(EnvType::Wasm, ConnectionType::WasmWt)).unwrap();
    users.update_user_state(3, UserState::InGame(2)).unwrap();
    let info = users.get_user_info(3).unwrap();
    assert_eq!(info.env_type(), EnvType::Wasm);
    assert_eq!(info.connection(), ConnectionType::WasmWt);
    assert_eq!(info.user_state(), UserState::InGame(2));
}
