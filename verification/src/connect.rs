use vstd::prelude::*;
use crate::connection::ConnectionType;
use crate::net::{NetAddr, address_as_read_back, spec_client_address, client_address_from_server_address};
use crate::span::{Span, NANOS_PER_SEC};

verus! {

#[verifier::external_type_specification]
#[verifier::external_body]
pub struct ExConnectToken(renet2_netcode::ConnectToken);

/// Most server addresses a renet2 connect token can hold.
pub const MAX_TOKEN_ADDRESSES: usize = 32;

/// Calls `renet2_netcode::ConnectToken::generate` with no user data, the addresses converted one for one to
/// `core::net::SocketAddr` (an IPv6 address keeps its flow info and scope id), then `ConnectToken::write` into
/// a new `Vec<u8>`.
/// What the source shows:
/// - `PrivateConnectToken::generate` refuses an empty address list or more than 32 addresses, and nothing
///   else fails (the private token, at most 945 bytes, always fits its 1024-byte buffer; XChaCha20-Poly1305
///   refuses only buffers of gigabytes; writing into a `Vec` does not fail).
/// - `write` puts in clear the client id, the version info, the protocol id, the create timestamp (the
///   whole seconds of `now`), the expire timestamp (`create + expire_secs`), the timeout, the socket id and
///   every server address (IP octets and port); `ConnectToken::read` reads them back unchanged, an IPv6
///   address losing its flow info and scope id.
/// - The private part is `PrivateConnectToken` (client id, timeout, socket id, addresses, fresh keys)
///   encrypted under `auth_key` with the protocol id and expire timestamp as associated data; decrypting it
///   under `auth_key` (`PrivateConnectToken::decode`) gives those fields back.
/// The keys and nonce are random, so nothing more is claimed of the bytes.
/// `requires` rules out the overflow of `secs + expire_secs`, on which `generate` panics.
#[verifier::external_body]
fn generate_token_bytes(
    current_secs: u64,
    current_nanos: u32,
    protocol_id: u64,
    expire_secs: u64,
    client_id: u64,
    timeout_secs: i32,
    socket_id: u8,
    server_addresses: &Vec<NetAddr>,
    auth_key: &[u8; 32],
) -> (r: Option<Vec<u8>>)
    requires
        current_nanos < NANOS_PER_SEC,
        current_secs + expire_secs <= u64::MAX,
    ensures
        r is Some <==> 1 <= server_addresses@.len() <= MAX_TOKEN_ADDRESSES,
        r is Some ==> decoded_token_header(r.unwrap()@) == Some(
            (
                protocol_id,
                client_id,
                current_secs,
                (current_secs + expire_secs) as u64,
                timeout_secs,
                socket_id,
                read_back_addresses(server_addresses@),
            ),
        ),
        r is Some ==> decrypted_token_private(r.unwrap()@, auth_key@) == Some(
            (client_id, timeout_secs, socket_id, read_back_addresses(server_addresses@)),
        ),
{
    let addrs = server_addresses.iter().map(|a| match *a {
        NetAddr::V4 { ip, port } => core::net::SocketAddr::from((core::net::Ipv4Addr::from(ip), port)),
        NetAddr::V6 { ip, port, flowinfo, scope_id } => core::net::SocketAddr::V6(
            core::net::SocketAddrV6::new(core::net::Ipv6Addr::from(ip), port, flowinfo, scope_id)),
    }).collect();
    let now = std::time::Duration::new(current_secs, current_nanos);
    let token = renet2_netcode::ConnectToken::generate(
        now, protocol_id, expire_secs, client_id, timeout_secs, socket_id, addrs, None, auth_key).ok()?;
    let mut bytes = Vec::<u8>::new();
    token.write(&mut bytes).ok()?;
    Some(bytes)
}

/// What `renet2_netcode::ConnectToken::read` finds in `bytes`: `None` when it refuses them, else the
/// token's protocol id, client id, create timestamp, expire timestamp, timeout (seconds), socket id and its
/// server addresses (the first `count` of its 32 slots, `None` for a slot it leaves empty).
pub uninterp spec fn decoded_token_header(bytes: Seq<u8>) -> Option<(u64, u64, u64, u64, i32, u8, Seq<Option<NetAddr>>)>;

/// What a renet2 server finds when it decrypts the private part of the token in `bytes` under `key`
/// (`ConnectToken::read`, then `PrivateConnectToken::decode` with the token's protocol id, expire timestamp
/// and nonce, as `NetcodeServer` does on a connection request): `None` when reading or decryption fails,
/// else the client id, timeout, socket id and server addresses it holds.
pub uninterp spec fn decrypted_token_private(bytes: Seq<u8>, key: Seq<u8>) -> Option<(u64, i32, u8, Seq<Option<NetAddr>>)>;

/// Addresses as they come back from a token's bytes.
pub open spec fn read_back_addresses(addresses: Seq<NetAddr>) -> Seq<Option<NetAddr>> {
    addresses.map_values(|a: NetAddr| Some(address_as_read_back(a)))
}

/// The protocol id, client id and first server address of a read token header.
pub open spec fn header_summary(header: Option<(u64, u64, u64, u64, i32, u8, Seq<Option<NetAddr>>)>) -> Option<
    (u64, u64, Option<NetAddr>),
> {
    match header {
        None => None,
        Some(h) => Some((h.0, h.1, if h.6.len() > 0 { h.6[0] } else { None })),
    }
}

/// A connect token read back from bytes, with the fields that clients check.
#[derive(Debug)]
pub struct ParsedConnectToken {
    /// The renet2 token.
    pub token: renet2_netcode::ConnectToken,
    /// The token's protocol id.
    pub protocol_id: u64,
    /// The client id the token was made for.
    pub client_id: u64,
    /// The token's first server address, if it has one.
    pub server_address: Option<NetAddr>,
}

/// Calls `renet2_netcode::ConnectToken::read` on `bytes` and picks out the protocol id, the client id and
/// the first server address of the token read. The claim is that the outcome is `decoded_token_header(bytes)`
/// (summarised by `header_summary`),
/// a function of the bytes alone (reading does no I/O beyond the slice and uses no randomness).
#[verifier::external_body]
pub fn connect_token_from_bytes(connect_token_bytes: &Vec<u8>) -> (r: Option<ParsedConnectToken>)
    ensures
        match (r, header_summary(decoded_token_header(connect_token_bytes@))) {
            (Some(p), Some((protocol_id, client_id, addr))) => p.protocol_id == protocol_id && p.client_id == client_id
                && p.server_address == addr,
            (None, None) => true,
            _ => false,
        },
{
    let token = renet2_netcode::ConnectToken::read(&mut &connect_token_bytes[..]).ok()?;
    let server_address = match token.server_addresses[0] {
        Some(core::net::SocketAddr::V4(a)) => Some(NetAddr::V4 { ip: u32::from(*a.ip()), port: a.port() }),
        Some(core::net::SocketAddr::V6(a)) => Some(NetAddr::V6 {
            ip: u128::from(*a.ip()), port: a.port(), flowinfo: a.flowinfo(), scope_id: a.scope_id() }),
        None => None,
    };
    Some(ParsedConnectToken { protocol_id: token.protocol_id, client_id: token.client_id, server_address, token })
}

/// Configuration details for setting up a renet server.
#[derive(Debug, Clone, Copy, PartialEq, Eq, Structural)]
pub struct GameServerSetupConfig {
    /// Protocol id for server/client compatibility.
    pub protocol_id: u64,
    /// How long connect tokens should live before expiring.
    pub expire_secs: u64,
    /// Internal connection timeout for clients and servers.
    pub timeout_secs: i32,
    /// The server's IPv6 address (octets read as a big-endian number). The server port is auto-selected.
    pub server_ip: u128,
}

/// The IPv6 loopback address `::1`.
pub const IPV6_LOCALHOST: u128 = 1;

/// The IPv4 loopback address `127.0.0.1`.
pub const IPV4_LOCALHOST: u32 = 0x7f00_0001;

/// The dummy server setup config.
pub open spec fn spec_dummy_config() -> GameServerSetupConfig {
    GameServerSetupConfig { protocol_id: 0, expire_secs: 10, timeout_secs: 5, server_ip: IPV6_LOCALHOST }
}

impl GameServerSetupConfig {
    /// Make a dummy config.
    ///
    /// Should not be used to connect to a real renet server.
    pub fn dummy() -> (r: Self)
        ensures
            r == spec_dummy_config(),
    {
        GameServerSetupConfig { protocol_id: 0u64, expire_secs: 10u64, timeout_secs: 5i32, server_ip: IPV6_LOCALHOST }
    }

    /// Time after which a game app's replication update times out: `min(2 * timeout_secs, 1)` seconds, the
    /// minimum read as an unsigned number of seconds (a zero or negative minimum is taken modulo `2^64`).
    pub fn replication_update_timeout(&self) -> (r: Span)
        requires
            i32::MIN <= 2 * self.timeout_secs <= i32::MAX,
        ensures
            r.spec_secs() == spec_update_timeout_secs(self.timeout_secs),
            r.spec_nanos() == 0,
    {
        let doubled: i32 = self.timeout_secs * 2;
        let capped: i32 = if doubled < 1 { doubled } else { 1 };
        let secs: u64 = capped as u64;
        proof {
            assert(capped < 0 ==> secs == capped + 0x1_0000_0000_0000_0000) by (bit_vector)
                requires
                    secs == capped as u64;
            assert(capped >= 0 ==> secs == capped) by (bit_vector)
                requires
                    secs == capped as u64;
        }
        Span::from_secs(secs)
    }
}

/// Seconds of `replication_update_timeout`: the smaller of twice the connection timeout and one, as a `u64`.
pub open spec fn spec_update_timeout_secs(timeout_secs: i32) -> int {
    let doubled = 2 * timeout_secs;
    let capped = if doubled < 1 { doubled } else { 1 };
    if capped < 0 { capped + 0x1_0000_0000_0000_0000 } else { capped }
}

/// SHA-256 hash of a DER-encoded certificate, for connecting to self-signed webtransport servers.
#[derive(Debug, Clone, Copy)]
pub struct CertHash {
    pub hash: [u8; 32],
}

/// A token that a client can use to connect to a renet2 server.
#[derive(Debug, Clone)]
pub enum ServerConnectToken {
    /// Native transport: a renet2 connect token in bytes.
    Native { token: Vec<u8> },
    /// WebTransport: token bytes and the cert hashes for connecting to self-signed servers.
    WasmWt { token: Vec<u8>, cert_hashes: Vec<CertHash> },
    /// WebSocket: token bytes and the url of the websocket server.
    WasmWs { token: Vec<u8>, url: String },
}

/// The renet2 token bytes a server connect token carries.
pub open spec fn token_bytes_of(t: ServerConnectToken) -> Seq<u8> {
    match t {
        ServerConnectToken::Native { token } => token@,
        ServerConnectToken::WasmWt { token, .. } => token@,
        ServerConnectToken::WasmWs { token, .. } => token@,
    }
}

impl Default for ServerConnectToken {
    /// The default token: native, with no bytes.
    fn default() -> (r: Self)
        ensures
            r matches ServerConnectToken::Native { token } && token@.len() == 0,
    {
        ServerConnectToken::Native { token: Vec::new() }
    }
}

/// Metadata required to generate connect tokens for in-memory clients (this build has no
/// in-memory transport, so it carries nothing).
#[derive(Debug, Clone, Copy)]
pub struct ConnectMetaMemory;

/// Metadata required to generate connect tokens for native-target clients.
#[derive(Debug, Clone)]
pub struct ConnectMetaNative {
    pub server_config: GameServerSetupConfig,
    pub server_addresses: Vec<NetAddr>,
    pub socket_id: u8,
    pub auth_key: [u8; 32],
}

/// Whether renet2 makes a connect token for `addresses` with `config`: the token needs one to 32 addresses.
pub open spec fn token_inputs_ok(config: GameServerSetupConfig, addresses: Seq<NetAddr>) -> bool {
    1 <= addresses.len() <= MAX_TOKEN_ADDRESSES
}

/// The expiry of a token made at `now` with `config` fits in a `u64`.
pub open spec fn expiry_fits(config: GameServerSetupConfig, now: Span) -> bool {
    now.spec_secs() + config.expire_secs <= u64::MAX
}

/// `bytes` are a token made at `now` with `config` for `client_id`, for server socket `socket_id` at
/// `addresses`, under the auth key `key`: what its clear part reads back as, and what its private part
/// decrypts to under `key`.
pub open spec fn token_made_by(
    bytes: Seq<u8>,
    config: GameServerSetupConfig,
    now: Span,
    client_id: u64,
    socket_id: u8,
    addresses: Seq<NetAddr>,
    key: Seq<u8>,
) -> bool {
    &&& decoded_token_header(bytes) == Some(
        (
            config.protocol_id,
            client_id,
            now.spec_secs(),
            (now.spec_secs() + config.expire_secs) as u64,
            config.timeout_secs,
            socket_id,
            read_back_addresses(addresses),
        ),
    )
    &&& decrypted_token_private(bytes, key) == Some(
        (client_id, config.timeout_secs, socket_id, read_back_addresses(addresses)),
    )
}

/// Generates token bytes with `config` for `client_id` at `current_time`.
fn token_bytes(
    config: &GameServerSetupConfig,
    socket_id: u8,
    server_addresses: &Vec<NetAddr>,
    auth_key: &[u8; 32],
    current_time: &Span,
    client_id: u64,
) -> (r: Option<Vec<u8>>)
    requires
        expiry_fits(*config, *current_time),
    ensures
        r is Some <==> token_inputs_ok(*config, server_addresses@),
        r matches Some(bytes) ==> token_made_by(
            bytes@,
            *config,
            *current_time,
            client_id,
            socket_id,
            server_addresses@,
            auth_key@,
        ),
{
    generate_token_bytes(
        current_time.secs(),
        current_time.subsec_nanos(),
        config.protocol_id,
        config.expire_secs,
        client_id,
        config.timeout_secs,
        socket_id,
        server_addresses,
        auth_key,
    )
}

impl ConnectMetaNative {
    /// A dummy native meta: the dummy config, one server address `127.0.0.1:8080`, socket 0 and an auth
    /// key whose first byte is 1 and the rest 0.
    pub fn dummy() -> (r: Self)
        ensures
            r.server_config == spec_dummy_config(),
            r.server_addresses@ == seq![NetAddr::V4 { ip: IPV4_LOCALHOST, port: 8080 }],
            r.socket_id == 0,
            r.auth_key@[0] == 1,
            forall|i: int| 1 <= i < 32 ==> r.auth_key@[i] == 0,
    {
        let mut auth_key = [0u8; 32];
        auth_key[0] = 1;
        let mut server_addresses = Vec::new();
        server_addresses.push(NetAddr::V4 { ip: IPV4_LOCALHOST, port: 8080u16 });
        ConnectMetaNative {
            server_config: GameServerSetupConfig::dummy(),
            server_addresses,
            socket_id: 0,
            auth_key,
        }
    }

    /// Generates a new connect token for a native client.
    /// - Returns `None` exactly when renet2 refuses the server addresses (none, or more than 32).
    pub fn new_connect_token(&self, current_time: Span, client_id: u64) -> (r: Option<ServerConnectToken>)
        requires
            expiry_fits(self.server_config, current_time),
        ensures
            r is Some <==> token_inputs_ok(self.server_config, self.server_addresses@),
            r matches Some(t) ==> t is Native,
            r matches Some(t) ==> token_made_by(
                token_bytes_of(t),
                self.server_config,
                current_time,
                client_id,
                self.socket_id,
                self.server_addresses@,
                self.auth_key@,
            ),
    {
        match token_bytes(&self.server_config, self.socket_id, &self.server_addresses, &self.auth_key, &current_time, client_id) {
            Some(token) => Some(ServerConnectToken::Native { token }),
            None => None,
        }
    }
}

/// Metadata required to generate connect tokens for wasm-target webtransport clients.
#[derive(Debug, Clone)]
pub struct ConnectMetaWasmWt {
    pub server_config: GameServerSetupConfig,
    pub server_addresses: Vec<NetAddr>,
    pub socket_id: u8,
    pub auth_key: [u8; 32],
    pub cert_hashes: Vec<CertHash>,
}

impl ConnectMetaWasmWt {
    /// Generates a new connect token for a wasm webtransport client, carrying this meta's cert hashes.
    /// - Returns `None` exactly when renet2 refuses the server addresses (none, or more than 32).
    pub fn new_connect_token(&self, current_time: Span, client_id: u64) -> (r: Option<ServerConnectToken>)
        requires
            expiry_fits(self.server_config, current_time),
        ensures
            r is Some <==> token_inputs_ok(self.server_config, self.server_addresses@),
            r matches Some(t) ==> t matches ServerConnectToken::WasmWt { cert_hashes, .. } && cert_hashes@ == self.cert_hashes@,
            r matches Some(t) ==> token_made_by(
                token_bytes_of(t),
                self.server_config,
                current_time,
                client_id,
                self.socket_id,
                self.server_addresses@,
                self.auth_key@,
            ),
    {
        match token_bytes(&self.server_config, self.socket_id, &self.server_addresses, &self.auth_key, &current_time, client_id) {
            Some(token) => Some(ServerConnectToken::WasmWt { token, cert_hashes: self.cert_hashes.clone() }),
            None => None,
        }
    }
}

/// Metadata required to generate connect tokens for wasm-target websocket clients.
#[derive(Debug, Clone)]
pub struct ConnectMetaWasmWs {
    pub server_config: GameServerSetupConfig,
    pub server_addresses: Vec<NetAddr>,
    pub socket_id: u8,
    pub auth_key: [u8; 32],
    /// Url of the websocket server.
    pub url: String,
}

impl ConnectMetaWasmWs {
    /// Generates a new connect token for a wasm websocket client, carrying this meta's url.
    /// - Returns `None` exactly when renet2 refuses the server addresses (none, or more than 32).
    pub fn new_connect_token(&self, current_time: Span, client_id: u64) -> (r: Option<ServerConnectToken>)
        requires
            expiry_fits(self.server_config, current_time),
        ensures
            r is Some <==> token_inputs_ok(self.server_config, self.server_addresses@),
            r matches Some(t) ==> t matches ServerConnectToken::WasmWs { url, .. } && url@ == self.url@,
            r matches Some(t) ==> token_made_by(
                token_bytes_of(t),
                self.server_config,
                current_time,
                client_id,
                self.socket_id,
                self.server_addresses@,
                self.auth_key@,
            ),
    {
        match token_bytes(&self.server_config, self.socket_id, &self.server_addresses, &self.auth_key, &current_time, client_id) {
            Some(token) => Some(ServerConnectToken::WasmWs { token, url: self.url.clone() }),
            None => None,
        }
    }
}

/// Metadata required to generate connect tokens for girk clients.
#[derive(Debug, Clone)]
pub struct ConnectMetas {
    pub memory: Option<ConnectMetaMemory>,
    pub native: Option<ConnectMetaNative>,
    pub wasm_wt: Option<ConnectMetaWasmWt>,
    pub wasm_ws: Option<ConnectMetaWasmWs>,
}

/// Which meta a connect token is made from.
#[derive(Debug, Copy, Clone, PartialEq, Eq, Structural)]
pub enum TokenSource {
    Native,
    WasmWt,
    WasmWs,
}

/// The meta used for a client of `connection` type: in-memory and native clients get native tokens;
/// webtransport clients fall back to websockets when there is no webtransport meta.
pub open spec fn token_source(metas: ConnectMetas, connection: ConnectionType) -> Option<TokenSource> {
    match connection {
        ConnectionType::Memory | ConnectionType::Native => if metas.native is Some {
            Some(TokenSource::Native)
        } else {
            None
        },
        ConnectionType::WasmWt => if metas.wasm_wt is Some {
            Some(TokenSource::WasmWt)
        } else if metas.wasm_ws is Some {
            Some(TokenSource::WasmWs)
        } else {
            None
        },
        ConnectionType::WasmWs => if metas.wasm_ws is Some {
            Some(TokenSource::WasmWs)
        } else {
            None
        },
    }
}

/// The error reported when no meta serves a client of `connection` type.
pub open spec fn missing_meta_error(connection: ConnectionType) -> Seq<char> {
    match connection {
        ConnectionType::Memory | ConnectionType::Native => "no native connect meta for native client"@,
        ConnectionType::WasmWt => "no wasm webtransport connect meta for wasm client"@,
        ConnectionType::WasmWs => "no wasm websocket connect meta for wasm client"@,
    }
}

/// The error reported when the meta that `source` names refuses its server addresses.
pub open spec fn refused_token_error(source: TokenSource) -> Seq<char> {
    match source {
        TokenSource::Native => "failed constructing native connect token"@,
        TokenSource::WasmWt => "failed constructing wasm wt connect token for wasm client"@,
        TokenSource::WasmWs => "failed constructing wasm ws connect token for wasm client"@,
    }
}

/// The server socket id of the meta that `source` names.
pub open spec fn source_socket_id(metas: ConnectMetas, source: TokenSource) -> u8 {
    match source {
        TokenSource::Native => metas.native->0.socket_id,
        TokenSource::WasmWt => metas.wasm_wt->0.socket_id,
        TokenSource::WasmWs => metas.wasm_ws->0.socket_id,
    }
}

/// The auth key of the meta that `source` names.
pub open spec fn source_auth_key(metas: ConnectMetas, source: TokenSource) -> Seq<u8> {
    match source {
        TokenSource::Native => metas.native->0.auth_key@,
        TokenSource::WasmWt => metas.wasm_wt->0.auth_key@,
        TokenSource::WasmWs => metas.wasm_ws->0.auth_key@,
    }
}

/// `bytes` are a token made at `now` for `client_id` by the meta that `source` names.
pub open spec fn token_from_source(metas: ConnectMetas, source: TokenSource, now: Span, client_id: u64, bytes: Seq<u8>) -> bool {
    token_made_by(
        bytes,
        source_config(metas, source),
        now,
        client_id,
        source_socket_id(metas, source),
        source_addresses(metas, source),
        source_auth_key(metas, source),
    )
}

/// The server setup config of the meta that `source` names.
pub open spec fn source_config(metas: ConnectMetas, source: TokenSource) -> GameServerSetupConfig {
    match source {
        TokenSource::Native => metas.native->0.server_config,
        TokenSource::WasmWt => metas.wasm_wt->0.server_config,
        TokenSource::WasmWs => metas.wasm_ws->0.server_config,
    }
}

/// The meta that serves `connection` (if any) can make a token at `now` without its expiry time
/// overflowing.
pub open spec fn source_expiry_fits(metas: ConnectMetas, connection: ConnectionType, now: Span) -> bool {
    token_source(metas, connection) matches Some(src) ==> expiry_fits(source_config(metas, src), now)
}

/// The server addresses of the meta that `source` names.
pub open spec fn source_addresses(metas: ConnectMetas, source: TokenSource) -> Seq<NetAddr> {
    match source {
        TokenSource::Native => metas.native->0.server_addresses@,
        TokenSource::WasmWt => metas.wasm_wt->0.server_addresses@,
        TokenSource::WasmWs => metas.wasm_ws->0.server_addresses@,
    }
}

/// `token` is of the kind that `source` makes, carrying that meta's cert hashes or url.
pub open spec fn token_matches_source(metas: ConnectMetas, source: TokenSource, token: ServerConnectToken) -> bool {
    match source {
        TokenSource::Native => token is Native,
        TokenSource::WasmWt => token matches ServerConnectToken::WasmWt { cert_hashes, .. }
            && cert_hashes@ == metas.wasm_wt->0.cert_hashes@,
        TokenSource::WasmWs => token matches ServerConnectToken::WasmWs { url, .. }
            && url@ == metas.wasm_ws->0.url@,
    }
}

impl Default for ConnectMetas {
    /// No metas at all.
    fn default() -> (r: Self)
        ensures
            r.memory is None,
            r.native is None,
            r.wasm_wt is None,
            r.wasm_ws is None,
    {
        ConnectMetas { memory: None, native: None, wasm_wt: None, wasm_ws: None }
    }
}

impl ConnectMetas {
    /// Generates a connect token for a client that connects with `connection_type`.
    /// - Returns `Err` when no meta serves that connection type, or when its meta has no server address or
    ///   more than 32.
    pub fn new_connect_token(
        &self,
        current_time: Span,
        client_id: u64,
        connection_type: ConnectionType,
    ) -> (r: Result<ServerConnectToken, String>)
        requires
            source_expiry_fits(*self, connection_type, current_time),
        ensures
            token_source(*self, connection_type) is None ==> (r matches Err(e) && e@ == missing_meta_error(connection_type)),
            token_source(*self, connection_type) matches Some(src) ==> {
                &&& r is Ok <==> 1 <= source_addresses(*self, src).len() <= MAX_TOKEN_ADDRESSES
                &&& r matches Err(e) ==> e@ == refused_token_error(src)
                &&& r matches Ok(t) ==> token_matches_source(*self, src, t)
                &&& r matches Ok(t) ==> token_from_source(*self, src, current_time, client_id, token_bytes_of(t))
            },
    {
        match connection_type {
            ConnectionType::Memory | ConnectionType::Native => {
                match &self.native {
                    Some(meta) => match meta.new_connect_token(current_time, client_id) {
                        Some(t) => Ok(t),
                        None => Err("failed constructing native connect token".to_owned()),
                    },
                    None => Err("no native connect meta for native client".to_owned()),
                }
            },
            ConnectionType::WasmWt => {
                if let Some(meta) = &self.wasm_wt {
                    match meta.new_connect_token(current_time, client_id) {
                        Some(t) => Ok(t),
                        None => Err("failed constructing wasm wt connect token for wasm client".to_owned()),
                    }
                } else if let Some(meta) = &self.wasm_ws {
                    match meta.new_connect_token(current_time, client_id) {
                        Some(t) => Ok(t),
                        None => Err("failed constructing wasm ws connect token for wasm client".to_owned()),
                    }
                } else {
                    Err("no wasm webtransport connect meta for wasm client".to_owned())
                }
            },
            ConnectionType::WasmWs => {
                match &self.wasm_ws {
                    Some(meta) => match meta.new_connect_token(current_time, client_id) {
                        Some(t) => Ok(t),
                        None => Err("failed constructing wasm ws connect token for wasm client".to_owned()),
                    },
                    None => Err("no wasm websocket connect meta for wasm client".to_owned()),
                }
            },
        }
    }
}

/// Information needed to connect a renet client to a renet server: the client's connect token and
/// the client address to bind, tailored to the server address type (Ipv4/Ipv6).
///
/// Connect packs are single-use: reconnecting takes a new pack with fresh authentication.
#[derive(Debug)]
pub enum ClientConnectPack {
    /// Connection information for native transports.
    Native(renet2_netcode::ConnectToken, NetAddr),
}

/// What a connect pack made from a token read as `parsed` must be: the error, or the client address.
pub open spec fn spec_pack_from_parsed(expected_protocol_id: u64, parsed: Option<(u64, u64, Option<NetAddr>)>) -> Result<
    NetAddr,
    Seq<char>,
> {
    match parsed {
        None => Err("failed deserializing renet connect token"@),
        Some((protocol_id, _, addr)) => if protocol_id != expected_protocol_id {
            Err("protocol id mismatch"@)
        } else {
            match addr {
                None => Err("server address is missing"@),
                Some(server_addr) => Ok(spec_client_address(server_addr)),
            }
        },
    }
}

/// The protocol id, client id and first server address of a parsed token.
pub open spec fn parsed_header(parsed: Option<ParsedConnectToken>) -> Option<(u64, u64, Option<NetAddr>)> {
    match parsed {
        None => None,
        Some(p) => Some((p.protocol_id, p.client_id, p.server_address)),
    }
}

impl ClientConnectPack {
    /// Makes a connect pack from a token read back from bytes (`None` when reading failed): the token must
    /// carry the expected protocol id and a server address; the client binds the unspecified address of
    /// that address's family.
    pub fn from_parsed(expected_protocol_id: u64, parsed: Option<ParsedConnectToken>) -> (r: Result<Self, String>)
        ensures
            match (r, spec_pack_from_parsed(expected_protocol_id, parsed_header(parsed))) {
                (Ok(ClientConnectPack::Native(_, addr)), Ok(expected)) => addr == expected,
                (Err(e), Err(msg)) => e@ == msg,
                _ => false,
            },
            r matches Ok(ClientConnectPack::Native(t, _)) ==> parsed matches Some(p) && t == p.token,
    {
        let parsed = match parsed {
            Some(p) => p,
            None => { return Err("failed deserializing renet connect token".to_owned()); },
        };
        if parsed.protocol_id != expected_protocol_id {
            return Err("protocol id mismatch".to_owned());
        }
        let server_addr = match parsed.server_address {
            Some(a) => a,
            None => { return Err("server address is missing".to_owned()); },
        };
        let client_address = client_address_from_server_address(&server_addr);
        Ok(ClientConnectPack::Native(parsed.token, client_address))
    }

    /// Make a new connect pack from a server connect token.
    ///
    /// Only native tokens can be turned into packs on native targets (the wasm kinds are for WASM
    /// builds), so `requires` asks for a native token.
    pub fn new(expected_protocol_id: u64, token: ServerConnectToken) -> (r: Result<Self, String>)
        requires
            token is Native,
        ensures
            match (r, spec_pack_from_parsed(expected_protocol_id, header_summary(decoded_token_header(token->Native_token@)))) {
                (Ok(ClientConnectPack::Native(_, addr)), Ok(expected)) => addr == expected,
                (Err(e), Err(msg)) => e@ == msg,
                _ => false,
            },
    {
        match token {
            ServerConnectToken::Native { token } => {
                let parsed = connect_token_from_bytes(&token);
                ClientConnectPack::from_parsed(expected_protocol_id, parsed)
            },
            ServerConnectToken::WasmWt { .. } => {
                Err("ServerConnectToken::WasmWt can only be converted to ClientConnectPack in WASM".to_owned())
            },
            ServerConnectToken::WasmWs { .. } => {
                Err("ServerConnectToken::WasmWs can only be converted to ClientConnectPack in WASM".to_owned())
            },
        }
    }
}

/// A connect token made by a meta, read back into a client connect pack: the pack is made exactly when the
/// client expects the meta's protocol id, and the client then binds the unspecified address of the family of
/// the meta's first server address; otherwise it is refused with "protocol id mismatch". The token read
/// carries the client id it was made for.
pub proof fn lemma_made_token_connects(
    bytes: Seq<u8>,
    config: GameServerSetupConfig,
    now: Span,
    client_id: u64,
    socket_id: u8,
    addresses: Seq<NetAddr>,
    key: Seq<u8>,
    expected_protocol_id: u64,
)
    requires
        token_made_by(bytes, config, now, client_id, socket_id, addresses, key),
        addresses.len() > 0,
    ensures
        header_summary(decoded_token_header(bytes)) matches Some((_, read_client_id, _)) && read_client_id == client_id,
        spec_pack_from_parsed(expected_protocol_id, header_summary(decoded_token_header(bytes))) == if expected_protocol_id
            == config.protocol_id {
            Ok(spec_client_address(addresses[0]))
        } else {
            Err("protocol id mismatch"@)
        },
{
    assert(read_back_addresses(addresses)[0] == Some(address_as_read_back(addresses[0])));
}

} // verus!
