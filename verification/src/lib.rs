pub mod channel;
pub mod clipboard;
pub mod codec;
pub mod crypto;
pub mod device_table;
pub mod discovery;
pub mod facade;
pub mod handshake;
pub mod message;
pub mod model;
pub mod session;
pub mod text;
pub mod trust_store;
