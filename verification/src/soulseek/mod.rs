//! The Soulseek peer-to-peer protocol: messages, peers, the server connection
//! and the bookkeeping of searches and downloads.
pub mod actor;
pub mod answer_laws;
pub mod client;
pub mod download_peer;
pub mod error;
pub mod fetch;
pub mod handlers;
pub mod listen;
pub mod message;
pub mod message_laws;
pub mod path;
pub mod peer;
pub mod request;
pub mod server_address;
pub mod token;
pub mod transfer_laws;
pub mod types;
pub mod wire_laws;
