//! Local-first synchronisation of documents between a user's devices.
//!
//! - Shared data: `ids`, `model`, `event`, `error`, `config`, `version`, `hlc`, `frontier`,
//!   `presence`, `telemetry`.
//! - Documents: `loro_doc`, `converter`, `block_record`, `meta_doc`, `block_doc`, `block_cache`.
//! - Keys and handshakes: `signing`, `identity`, `signature`, `noise`, `replay`,
//!   `secure_session`, `secret_storage`, `foreign_storage`, `pairing`.
//! - Exchange with peers: `frame`, `codec`, `messages`, `session`, `loopback`, `ble`.
//! - Storage: `compression`, `dao`, `peer_row`, `snapshot_install`.
//! - The engine and its platform: `command_bus`, `event_bus`, `listener`, `doc_executor`,
//!   `runtime`, `engine`, `view`, `ffi_error`, `language`.
//! - Below all of these: `octets`, `text`, `text_map`, `json`, `digest`, `clock`, `channel`.

pub mod ble;
pub mod block_cache;
pub mod block_doc;
pub mod block_record;
pub mod channel;
pub mod clock;
pub mod codec;
pub mod command_bus;
pub mod compression;
pub mod config;
pub mod converter;
pub mod dao;
pub mod digest;
pub mod doc_executor;
pub mod engine;
pub mod error;
pub mod event;
pub mod event_bus;
pub mod ffi_error;
pub mod foreign_storage;
pub mod frame;
pub mod frontier;
pub mod hlc;
pub mod identity;
pub mod ids;
pub mod json;
pub mod language;
pub mod listener;
pub mod loopback;
pub mod loro_doc;
pub mod messages;
pub mod meta_doc;
pub mod model;
pub mod noise;
pub mod octets;
pub mod pairing;
pub mod peer_row;
pub mod presence;
pub mod replay;
pub mod rows;
pub mod runtime;
pub mod secret_storage;
pub mod secure_session;
pub mod session;
pub mod signature;
pub mod signing;
pub mod snapshot_install;
pub mod telemetry;
pub mod text;
pub mod text_map;
pub mod version;
pub mod view;
