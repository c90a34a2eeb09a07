//! The addresses under which the library serves what the playlist tools ask
//! of it.

use crate::text::option_view;
use vstd::prelude::*;

verus! {

/// A library: where it is, and the token that it asks for, if any.
pub struct PlexClient {
    pub server: String,
    token: Option<String>,
}

/// The mathematical value of a `PlexClient`.
pub struct PlexClientView {
    pub server: Seq<char>,
    pub token: Option<Seq<char>>,
}

impl View for PlexClient {
    type V = PlexClientView;

    closed spec fn view(&self) -> PlexClientView {
        PlexClientView { server: self.server@, token: option_view(self.token) }
    }
}

/// The address of `path` on a library: the server, the path, and the token
/// as a query where there is one.
pub open spec fn url_of(client: PlexClientView, path: Seq<char>) -> Seq<char> {
    client.server + path + match client.token {
        Some(token) => "?X-Plex-Token="@ + token,
        None => Seq::empty(),
    }
}

impl PlexClient {
    /// The library at `server`, with `token` where it asks for one.
    pub fn new(server: String, token: Option<String>) -> (client: PlexClient)
        ensures
            client@ == (PlexClientView { server: server@, token: option_view(token) }),
    {
        PlexClient { server, token }
    }

    /// The address of `path` on the library.
    pub fn client_url(&self, path: String) -> (url: String)
        ensures
            url@ == url_of(self@, path@),
    {
        let mut url = self.server.clone();
        url.append(path.as_str());
        if let Some(token) = &self.token {
            url.append("?X-Plex-Token=");
            url.append(token.as_str());
        }
        url
    }

    /// The address of the list of playlists.
    pub fn playlists_url(&self) -> (url: String)
        ensures
            url@ == url_of(self@, "/playlists"@),
    {
        self.client_url(String::from_str("/playlists"))
    }

    /// The address of the records of the playlist `rating_key`.
    pub fn playlist_items_url(&self, rating_key: &str) -> (url: String)
        ensures
            url@ == url_of(self@, "/playlists/"@ + rating_key@ + "/items"@),
    {
        let mut path = String::from_str("/playlists/");
        path.append(rating_key);
        path.append("/items");
        self.client_url(path)
    }

    /// The address of the part that the library serves under `part_key`.
    pub fn part_url(&self, part_key: String) -> (url: String)
        ensures
            url@ == url_of(self@, part_key@),
    {
        self.client_url(part_key)
    }
}

} // verus!
