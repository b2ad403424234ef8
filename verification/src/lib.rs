pub mod batch;
pub mod codec;
pub mod error;
pub mod history;
pub mod keys;
pub mod laws;
pub mod messages;
pub mod network;
pub mod network_laws;
pub mod plain_laws;
pub mod read_laws;
pub mod reader;
pub mod records;
pub mod size;
pub mod storage;
pub mod transaction;
