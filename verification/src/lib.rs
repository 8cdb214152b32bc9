//! Finding music on the Soulseek network, fetching it, and cleaning a collection of
//! it.
//!
//! The network's protocol, the client, its workers and actors are in [`soulseek`];
//! [`song`] looks for songs and ranks what is offered; [`downloader`] fetches a list
//! of tracks; [`musicbrainz`] and [`cover_art`] identify tracks and find their
//! covers; [`cleaner`] checks, tags and files a collection. What talks to sockets,
//! files and the terminal performs the steps that these modules decide on, and
//! reports back what came of them.
pub mod cleaner;
pub mod cover_art;
pub mod cover_laws;
pub mod downloader;
pub mod edit_distance;
pub mod lists;
pub mod match_laws;
pub mod md5;
pub mod musicbrainz;
pub mod punctuation;
pub mod run_laws;
pub mod song;
pub mod soulseek;
pub mod text;
pub mod text_laws;
pub mod text_match;
pub mod time;
pub mod words_laws;
