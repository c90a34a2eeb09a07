use plex_m3u::plex_client::deserializer::deserialize_integer_bool;
use plex_m3u::plex_client::playlist::{
    to_playlist_filter, MediaContainer, Playlist, PlaylistFilter,
};
use plex_m3u::plex_client::plex_client::PlexClient;

fn playlist(rating_key: &str, title: &str, kind: &str, smart: bool, leaf_count: u32) -> Playlist {
    Playlist {
        rating_key: rating_key.to_string(),
        title: title.to_string(),
        key: format!("/playlists/{}/items", rating_key),
        summary: String::new(),
        smart,
        playlist_type: kind.to_string(),
        leaf_count,
        added_at: 1735592208,
        updated_at: 1740942826,
    }
}

fn only(kind: &str) -> PlaylistFilter {
    PlaylistFilter {
        only_playlist_type: Some(kind.to_string()),
    }
}

fn everything() -> PlaylistFilter {
    PlaylistFilter {
        only_playlist_type: None,
    }
}

#[test]
fn playlist_to_string() {
    assert_eq!(
        playlist("135542", "Best Albums", "audio", true, 1589).to_string(),
        "135542: Best Albums [audio] [Smart] [1589 tracks]"
    );
    assert_eq!(
        playlist("7", "Films", "video", false, 0).to_string(),
        "7: Films [video] [0 tracks]"
    );
    assert_eq!(
        playlist("", "", "", false, u32::MAX).to_string(),
        ":  [] [4294967295 tracks]"
    );
}

#[test]
fn playlist_matches() {
    let audio = playlist("1", "A", "audio", false, 1);
    assert!(audio.matches(&everything()));
    assert!(audio.matches(&only("audio")));
    assert!(!audio.matches(&only("video")));
    assert!(!audio.matches(&only("Audio")));
    assert!(!audio.matches(&only("")));
    assert!(!audio.matches(&only("audio ")));
}

#[test]
fn playlist_filter_from_an_argument() {
    assert_eq!(to_playlist_filter(&None).only_playlist_type, None);
    assert_eq!(
        to_playlist_filter(&Some("audio".to_string())).only_playlist_type,
        Some("audio".to_string())
    );
}

#[test]
fn listing_of_the_playlists() {
    let container = MediaContainer {
        size: 3,
        playlists: vec![
            playlist("1", "A", "audio", false, 10),
            playlist("2", "V", "video", true, 2),
            playlist("3", "B", "audio", true, 1),
        ],
    };
    assert_eq!(
        container.listing(&everything()),
        "Found 3 playlists\n1: A [audio] [10 tracks]\n2: V [video] [Smart] [2 tracks]\n3: B [audio] [Smart] [1 tracks]\n"
    );
    assert_eq!(
        container.listing(&only("audio")),
        "Found 3 playlists\n1: A [audio] [10 tracks]\n3: B [audio] [Smart] [1 tracks]\n"
    );
    assert_eq!(container.listing(&only("photo")), "Found 3 playlists\n");
    let none = MediaContainer {
        size: 0,
        playlists: vec![],
    };
    assert_eq!(none.listing(&everything()), "Found 0 playlists\n");
}

#[test]
fn client_url_without_a_token() {
    let client = PlexClient::new("http://host:32400".to_string(), None);
    assert_eq!(client.server, "http://host:32400");
    assert_eq!(
        client.client_url("/playlists".to_string()),
        "http://host:32400/playlists"
    );
    assert_eq!(client.client_url(String::new()), "http://host:32400");
    assert_eq!(client.playlists_url(), "http://host:32400/playlists");
    assert_eq!(
        client.playlist_items_url("135542"),
        "http://host:32400/playlists/135542/items"
    );
    assert_eq!(
        client.part_url("/library/parts/1/file.mp3".to_string()),
        "http://host:32400/library/parts/1/file.mp3"
    );
}

#[test]
fn client_url_with_a_token() {
    let client = PlexClient::new("http://host:32400".to_string(), Some("t0ken".to_string()));
    assert_eq!(
        client.client_url("/playlists".to_string()),
        "http://host:32400/playlists?X-Plex-Token=t0ken"
    );
    assert_eq!(
        client.playlists_url(),
        "http://host:32400/playlists?X-Plex-Token=t0ken"
    );
    assert_eq!(
        client.playlist_items_url("42"),
        "http://host:32400/playlists/42/items?X-Plex-Token=t0ken"
    );
    assert_eq!(
        client.part_url("/library/parts/1/file.mp3".to_string()),
        "http://host:32400/library/parts/1/file.mp3?X-Plex-Token=t0ken"
    );
    let empty = PlexClient::new(String::new(), Some(String::new()));
    assert_eq!(empty.client_url("/x".to_string()), "/x?X-Plex-Token=");
}

#[test]
fn integer_bool() {
    assert!(deserialize_integer_bool(Some("1")));
    assert!(!deserialize_integer_bool(Some("0")));
    assert!(!deserialize_integer_bool(Some("")));
    assert!(!deserialize_integer_bool(Some("true")));
    assert!(!deserialize_integer_bool(Some("11")));
    assert!(!deserialize_integer_bool(Some(" 1")));
    assert!(!deserialize_integer_bool(None));
}
