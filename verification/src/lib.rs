//! Decision logic of a caching reverse proxy.
//!
//! A request payload is hashed to a 64-bit key. A hit in the in-memory cache is
//! answered at once; a miss is fetched upstream, cached and handed to a
//! single-writer store actor that keeps a durable shadow of the cache. The
//! library holds every rule of that coordination as plain functions from state
//! and event to next state and action; the program around it performs the
//! actions (network, disk, timers) and reports what came of them.

pub mod key;
pub mod shutdown;
pub mod leveldb;
pub mod types;
pub mod config;
pub mod http;
pub mod durability;
