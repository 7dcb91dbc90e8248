//! A proxy over KCP and QUIC.
//!
//! A proxy client takes TCP connections and carries each over a transport to a
//! proxy server, which forwards it to a TCP address or echoes it. The transports
//! are KCP, QUIC by quinn, and QUIC by the picoquic C library.
//!
//! This crate is what client and server compute and decide; sockets, tasks,
//! threads and the calls into picoquic are left to the program around it. Where
//! the program acts and the crate decides in turn, a type of the crate is told
//! what came of a step and says what to do next.
//!
//! - `transport`: the transports and their names.
//! - `kcp`: the KCP configuration.
//! - `quic`: the QUIC configurations, with their certificates and keys.
//! - `relay`: copying and echoing a byte stream.
//! - `accept`: the accept loops of servers and client, and their shutdown.
//! - `load`: the load test.
//! - `picoquic`: what picoquic's callbacks are told and answer.
//! - `client_bridge`, `server_bridge`: what the callbacks decide, between
//!   picoquic and the reader and writer of a stream.
//! - `recv_half`, `send_half`: the reader's and the writer's side of a bridged
//!   stream.
//! - `setup`: how picoquic is set up and taken down.
//! - `paths`: the paths of the files that picoquic reads.
//! - `text`: functions on texts.

pub mod accept;
pub mod client_bridge;
pub mod kcp;
pub mod load;
pub mod paths;
pub mod picoquic;
pub mod quic;
pub mod recv_half;
pub mod relay;
pub mod send_half;
pub mod server_bridge;
pub mod setup;
pub mod text;
pub mod transport;

pub use kcp::{default_kcp_config, kcp_config_with};
