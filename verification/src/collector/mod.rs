pub mod routes;
pub mod ports;
pub mod interface;
pub mod stats;
pub mod system;
pub mod connections;
pub mod snapshot;
