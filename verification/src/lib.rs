//! A verified core for a block-world multiplayer game server speaking
//! wire-protocol 767: the framed variable-integer codec, the per-phase
//! packet model, the per-connection protocol state machine, and the
//! decision logic of the server core.

pub mod block_registry;
pub mod blockpos;
pub mod codec;
pub mod command;
pub mod datatypes;
pub mod error;
pub mod packet;
pub mod packet_builder;
pub mod server;
pub mod server_connection;
pub mod resource_manager;
pub mod server_util;
