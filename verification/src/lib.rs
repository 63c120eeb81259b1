//! Decision logic of a peer-to-peer gossip node and of the record store it
//! talks to. Everything here works on plain values; sockets, the database and
//! the HTTP server live with the caller.
//!
//! The modules `gossip`, `seen`, `mesh`, `message` and `discovery` decide for
//! a node that carries its own messages: what is proved of messages in
//! `delivery` is proved of that overlay. A program that hands gossip to the
//! behaviour of `behaviour::init_gossipsub` gets signing, validation,
//! deduplication and forwarding from `libp2p`, by `libp2p`'s rules, and
//! nothing here is proved of them. Such a program still takes from this
//! library its identity, its addresses, its connection table and the states
//! of its event loop.

pub mod behaviour;
pub mod bytes;
pub mod config;
pub mod connections;
pub mod decimal;
pub mod delivery;
pub mod discovery;
pub mod gossip;
pub mod identity;
pub mod mesh;
pub mod message;
pub mod node;
pub mod routes;
pub mod seen;
pub mod store;
pub mod transport;
