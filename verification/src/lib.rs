//! A sans-I/O core for a metrics aggregation daemon.

pub mod addr;
pub mod backend;
pub mod buckets;
pub mod connection;
pub mod graphite;
pub mod laws;
pub mod management;
pub mod metric;
pub mod number;
pub mod server;
pub mod summary;
pub mod table;
pub mod text;
