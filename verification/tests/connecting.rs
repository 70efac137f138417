use girk::clock::time_since_epoch;
use girk::connect::{
    connect_token_from_bytes, ClientConnectPack, ConnectMetaNative, ConnectMetaWasmWs, ConnectMetaWasmWt,
    ConnectMetas, GameServerSetupConfig, ServerConnectToken, IPV4_LOCALHOST, IPV6_LOCALHOST,
};
use girk::connection::ConnectionType;
use girk::net::{client_address_from_server_address, NetAddr};
use girk::span::Span;

fn now() -> Span {
    time_since_epoch().unwrap()
}

fn native_token_bytes(meta: &ConnectMetaNative, client_id: u64) -> Vec<u8> {
    match meta.new_connect_token(now(), client_id).unwrap() {
        ServerConnectToken::Native { token } => token,
        other => panic!("unexpected token {:?}", other),
    }
}

#[test]
fn dummy_config_values() {
    let config = GameServerSetupConfig::dummy();
    assert_eq!(config.protocol_id, 0);
    assert_eq!(config.expire_secs, 10);
    assert_eq!(config.timeout_secs, 5);
    assert_eq!(config.server_ip, IPV6_LOCALHOST);
}

#[test]
fn dummy_native_meta_values() {
    let meta = ConnectMetaNative::dummy();
    assert_eq!(meta.server_addresses, vec![NetAddr::V4 { ip: IPV4_LOCALHOST, port: 8080 }]);
    assert_eq!(meta.socket_id, 0);
    assert_eq!(meta.auth_key[0], 1);
    assert!(meta.auth_key[1..].iter().all(|b| *b == 0));
}

#[test]
fn replication_update_timeout_is_capped_at_one_second() {
    let mut config = GameServerSetupConfig::dummy();
    assert_eq!(config.replication_update_timeout(), Span::from_secs(1));
    config.timeout_secs = 0;
    assert_eq!(config.replication_update_timeout(), Span::from_secs(0));
    config.timeout_secs = -1;
    assert_eq!(config.replication_update_timeout().secs(), u64::MAX - 1);
}

#[test]
fn client_address_matches_server_family() {
    let v4 = NetAddr::V4 { ip: IPV4_LOCALHOST, port: 4000 };
    assert_eq!(client_address_from_server_address(&v4), NetAddr::V4 { ip: 0, port: 0 });
    let v6 = NetAddr::V6 { ip: IPV6_LOCALHOST, port: 4000, flowinfo: 3, scope_id: 2 };
    assert_eq!(
        client_address_from_server_address(&v6),
        NetAddr::V6 { ip: 0, port: 0, flowinfo: 0, scope_id: 0 }
    );
}

#[test]
fn inferred_connection_is_native() {
    assert_eq!(ConnectionType::inferred(), ConnectionType::Native);
}

#[test]
fn default_server_token_is_empty_native() {
    match ServerConnectToken::default() {
        ServerConnectToken::Native { token } => assert!(token.is_empty()),
        other => panic!("unexpected token {:?}", other),
    }
}

#[test]
fn native_token_bytes_read_back() {
    let meta = ConnectMetaNative::dummy();
    let bytes = native_token_bytes(&meta, 3);
    let parsed = connect_token_from_bytes(&bytes).unwrap();
    assert_eq!(parsed.protocol_id, 0);
    assert_eq!(parsed.client_id, 3);
    assert_eq!(parsed.server_address, Some(NetAddr::V4 { ip: IPV4_LOCALHOST, port: 8080 }));
    assert!(connect_token_from_bytes(&vec![1, 2, 3]).is_none());
}

#[test]
fn native_token_without_addresses_is_refused() {
    let mut meta = ConnectMetaNative::dummy();
    meta.server_addresses.clear();
    assert!(meta.new_connect_token(now(), 1).is_none());
}

#[test]
fn connect_pack_from_native_token() {
    let meta = ConnectMetaNative::dummy();
    let token = ServerConnectToken::Native { token: native_token_bytes(&meta, 8) };
    match ClientConnectPack::new(0, token).unwrap() {
        ClientConnectPack::Native(_, addr) => assert_eq!(addr, NetAddr::V4 { ip: 0, port: 0 }),
    }
}

#[test]
fn connect_pack_errors() {
    let meta = ConnectMetaNative::dummy();
    let token = ServerConnectToken::Native { token: native_token_bytes(&meta, 8) };
    assert_eq!(ClientConnectPack::new(1, token).unwrap_err(), "protocol id mismatch");
    let garbage = ServerConnectToken::Native { token: vec![0; 4] };
    assert_eq!(ClientConnectPack::new(0, garbage).unwrap_err(), "failed deserializing renet connect token");
}

#[test]
fn metas_pick_token_kind_by_connection() {
    let mut metas = ConnectMetas::default();
    assert_eq!(
        metas.new_connect_token(now(), 1, ConnectionType::Native).unwrap_err(),
        "no native connect meta for native client"
    );
    assert_eq!(
        metas.new_connect_token(now(), 1, ConnectionType::WasmWt).unwrap_err(),
        "no wasm webtransport connect meta for wasm client"
    );
    assert_eq!(
        metas.new_connect_token(now(), 1, ConnectionType::WasmWs).unwrap_err(),
        "no wasm websocket connect meta for wasm client"
    );

    let native = ConnectMetaNative::dummy();
    metas.native = Some(native.clone());
    assert!(matches!(
        metas.new_connect_token(now(), 1, ConnectionType::Memory).unwrap(),
        ServerConnectToken::Native { .. }
    ));

    metas.wasm_ws = Some(ConnectMetaWasmWs {
        server_config: native.server_config,
        server_addresses: native.server_addresses.clone(),
        socket_id: 1,
        auth_key: native.auth_key,
        url: "ws://127.0.0.1:8080".to_string(),
    });
    // webtransport clients fall back to websockets
    match metas.new_connect_token(now(), 1, ConnectionType::WasmWt).unwrap() {
        ServerConnectToken::WasmWs { token, url } => {
            assert!(!token.is_empty());
            assert_eq!(url, "ws://127.0.0.1:8080");
        }
        other => panic!("unexpected token {:?}", other),
    }

    metas.wasm_wt = Some(ConnectMetaWasmWt {
        server_config: native.server_config,
        server_addresses: native.server_addresses.clone(),
        socket_id: 2,
        auth_key: native.auth_key,
        cert_hashes: vec![],
    });
    assert!(matches!(
        metas.new_connect_token(now(), 1, ConnectionType::WasmWt).unwrap(),
        ServerConnectToken::WasmWt { .. }
    ));
}

#[test]
fn span_arithmetic() {
    let a = Span::new(5, 100);
    let b = Span::new(3, 200);
    assert!(a.at_least(&b));
    assert!(!b.at_least(&a));
    assert!(a.at_least(&a));
    let d = a.saturating_sub(&b);
    assert_eq!(d.secs(), 1);
    assert_eq!(d.subsec_nanos(), 999_999_900);
    assert_eq!(b.saturating_sub(&a), Span::zero());
}

#[test]
fn connect_pack_from_parsed_token() {
    assert_eq!(
        ClientConnectPack::from_parsed(0, None).unwrap_err(),
        "failed deserializing renet connect token"
    );
    let meta = ConnectMetaNative::dummy();
    let bytes = native_token_bytes(&meta, 2);
    let mut parsed = connect_token_from_bytes(&bytes).unwrap();
    parsed.server_address = Some(NetAddr::V6 { ip: IPV6_LOCALHOST, port: 9, flowinfo: 0, scope_id: 0 });
    match ClientConnectPack::from_parsed(0, Some(parsed)).unwrap() {
        ClientConnectPack::Native(_, addr) => {
            assert_eq!(addr, NetAddr::V6 { ip: 0, port: 0, flowinfo: 0, scope_id: 0 })
        }
    }
    let mut missing = connect_token_from_bytes(&bytes).unwrap();
    missing.server_address = None;
    assert_eq!(ClientConnectPack::from_parsed(0, Some(missing)).unwrap_err(), "server address is missing");
}

#[test]
fn native_token_with_too_many_addresses_is_refused() {
    let mut meta = ConnectMetaNative::dummy();
    meta.server_addresses = (0..33).map(|p| NetAddr::V4 { ip: IPV4_LOCALHOST, port: 1000 + p }).collect();
    assert!(meta.new_connect_token(now(), 1).is_none());
    meta.server_addresses.truncate(32);
    assert!(meta.new_connect_token(now(), 1).is_some());
    let mut metas = ConnectMetas::default();
    meta.server_addresses.clear();
    metas.native = Some(meta);
    assert_eq!(
        metas.new_connect_token(now(), 1, ConnectionType::Native).unwrap_err(),
        "failed constructing native connect token"
    );
}

#[test]
fn ipv6_token_address_reads_back_without_flow_info() {
    let mut meta = ConnectMetaNative::dummy();
    meta.server_config.protocol_id = 42;
    meta.server_addresses = vec![NetAddr::V6 { ip: IPV6_LOCALHOST, port: 9000, flowinfo: 5, scope_id: 6 }];
    let bytes = native_token_bytes(&meta, 11);
    let parsed = connect_token_from_bytes(&bytes).unwrap();
    assert_eq!(parsed.protocol_id, 42);
    assert_eq!(parsed.client_id, 11);
    assert_eq!(parsed.server_address, Some(NetAddr::V6 { ip: IPV6_LOCALHOST, port: 9000, flowinfo: 0, scope_id: 0 }));
    let token = ServerConnectToken::Native { token: bytes };
    match ClientConnectPack::new(42, token).unwrap() {
        ClientConnectPack::Native(_, addr) => {
            assert_eq!(addr, NetAddr::V6 { ip: 0, port: 0, flowinfo: 0, scope_id: 0 })
        }
    }
}

#[test]
fn metas_report_a_refused_wasm_meta() {
    let native = ConnectMetaNative::dummy();
    let mut metas = ConnectMetas::default();
    metas.wasm_ws = Some(ConnectMetaWasmWs {
        server_config: native.server_config,
        server_addresses: vec![],
        socket_id: 1,
        auth_key: native.auth_key,
        url: "ws://127.0.0.1:8080".to_string(),
    });
    assert_eq!(
        metas.new_connect_token(now(), 1, ConnectionType::WasmWs).unwrap_err(),
        "failed constructing wasm ws connect token for wasm client"
    );
}
