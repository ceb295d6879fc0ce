//! Process configuration: where the store lives, where the message bus and the
//! RPC endpoint are. It is built once at startup and handed to each part.
use vstd::prelude::*;

verus! {

/// Location of the key-value store on disk.
#[derive(Debug)]
pub struct Database {
    pub path: String,
}

/// Address the RPC service binds to.
#[derive(Debug)]
pub struct Grpc {
    pub socket_address: String,
}

/// Message-bus endpoint and the topic to consume.
#[derive(Debug)]
pub struct Kafka {
    pub bootstrap_server: String,
    pub topic: String,
}

/// The whole configuration.
#[derive(Debug)]
pub struct Settings {
    pub database: Database,
    pub grpc: Grpc,
    pub kafka: Kafka,
}

} // verus!
