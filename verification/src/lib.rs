//! The rules of a peer-to-peer gossip node, apart from its transport.
//!
//! A node joins a mesh through one bootstrap peer, learns of the other
//! members from the peer lists that its peers advertise, keeps one live
//! connection to each member, and sends every member a random message at a
//! fixed interval. This crate holds what the node decides and what it
//! computes: the peer table, the steps of the connection manager, the codec
//! of the peer list, the messages, and the lines that the node logs. Dialling,
//! accepting, reading and writing streams, sleeping and printing are left to
//! the program around it, which hands in what the transport reports and does
//! what a step asks for.

pub mod addr;
pub mod codec;
pub mod config;
pub mod error;
pub mod lines;
pub mod log;
pub mod manager;
pub mod message;
pub mod table;
pub mod text;
