//! The client: searches and downloads over a connection to the server.
pub mod caller_laws;
pub mod context;
pub mod counted;
pub mod counted_laws;
pub mod handle;
pub mod limiter;
pub mod operation;
pub mod operation_laws;
pub mod session;
pub mod session_laws;
pub mod settings;
pub mod slot_client;
pub mod slot_laws;
pub mod slots;
pub mod worker_laws;
