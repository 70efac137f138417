//! Game-hosting framework logic: user and game caches of a host server, connect-token handling,
//! packet channel bookkeeping and client-side helpers, each with a verified contract.

pub mod client_monitor;
pub mod client_starter;
pub mod clock;
pub mod connect;
pub mod connection;
pub mod game_instance;
pub mod net;
pub mod ongoing_games;
pub mod packet_queue;
pub mod packets;
pub mod progress;
pub mod rand64;
pub mod span;
pub mod ticks;
pub mod users_cache;
