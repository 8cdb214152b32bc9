//! Cleaning a music collection: files are checked, identified, tagged and put in
//! their place.
pub mod art;
pub mod bad_file;
pub mod bad_file_laws;
pub mod cli;
pub mod error;
pub mod file_laws;
pub mod metadata;
pub mod process_laws;
pub mod processor;
pub mod tag_laws;
pub mod template;
pub mod template_laws;
pub mod track;
