//! The media library as the playlist tools see it: the records it lists, and
//! the addresses under which it serves them.

pub mod deserializer;
pub mod playlist;
pub mod plex_client;
pub mod track;
