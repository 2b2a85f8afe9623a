//! A concurrent, in-process key-value store partitioned into independently
//! lockable shards, together with the decision logic for serving GET/SET
//! commands over many connections and for multiplexing requests from many
//! callers onto a single owned connection through a bounded queue.

pub mod command;
pub mod mux;
pub mod routing;
pub mod server;
pub mod store;
