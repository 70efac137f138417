use vstd::prelude::*;

verus! {

/// The type of connection a client wants to make with game servers.
#[derive(Debug, Copy, Clone, PartialEq, Eq, Structural)]
pub enum ConnectionType {
    /// The client and server are in the same binary (e.g. local-player).
    Memory,
    /// The client is non-WASM.
    Native,
    /// The client is WASM and webtransport with cert hashes is supported.
    WasmWt,
    /// The client is WASM and webtransport is not supported.
    WasmWs,
}

impl ConnectionType {
    /// Infers the connection type from the environment.
    ///
    /// This library is built for non-WASM targets, where the inferred type is always `Native`.
    pub fn inferred() -> (r: Self)
        ensures
            r == ConnectionType::Native,
    {
        ConnectionType::Native
    }
}

} // verus!
