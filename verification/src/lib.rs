pub mod export;
pub mod lines;
pub mod m3u;
pub mod number;
pub mod plex_client;
pub mod reconcile;
pub mod rewrite;
pub mod text;
