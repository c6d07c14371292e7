//! A peer-to-peer networking core: stream identifiers and headers, the
//! close protocol of paired streams, pending-stream pairing, proofs of
//! representation, the bootstrap server's route cache, and the echo codec's
//! framing, each with its contract.
pub mod encoding;
pub mod types;
pub mod header;
pub mod stream_state;
pub mod pending;
pub mod por;
pub mod routes;
pub mod bootstrap;
pub mod codec;
pub mod peer_map;
pub mod xauth;
pub mod node_state;
pub mod por_auth;
pub mod xstream_handler;
pub mod xstream_behaviour;
pub mod stream_manager;
pub mod processor;
pub mod search;
pub mod connect;
