//! Song search on top of file search: what is asked for, what a shared path
//! says about a track, and how candidates are ranked.
pub mod client;
pub mod error;
pub mod offer_laws;
pub mod parser;
pub mod parser_laws;
pub mod ranker;
pub mod ranking_laws;
pub mod types;
