pub mod checksum;
pub mod config;
pub mod connect;
pub mod envelope;
pub mod errors;
pub mod ingest;
pub mod link;
pub mod store;
