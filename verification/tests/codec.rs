use plex_m3u::m3u;
use plex_m3u::m3u::{Item, M3UAttribute, Metadata, MetadataKind, ReadError, TrackData, M3U};

fn item(path: &str, metadata: Vec<TrackData>) -> Item {
    Item::new(path.to_string(), metadata)
}

fn key(value: &str) -> TrackData {
    TrackData::Key(value.to_string())
}

fn file_path(value: &str) -> TrackData {
    TrackData::FilePath(value.to_string())
}

fn label(name: &str, value: &str) -> TrackData {
    TrackData::ExtM3u(name.to_string(), value.to_string())
}

fn road_trip() -> M3U {
    M3U::new(
        vec![item("songs/a.mp3", vec![key("k1")])],
        vec![
            Metadata::RatingKey(42),
            Metadata::Title("Road Trip".to_string()),
        ],
    )
}

const ROAD_TRIP: &str = "#EXTM3U\n#PLEXM3U_RATING_KEY:42\n#PLEXM3U_TITLE:Road Trip\n#PLAYLIST:Road Trip\n#PLEXM3U_TRACK_KEY:k1\nsongs/a.mp3\n";

#[test]
fn end_to_end_example() {
    let text = m3u::write(&road_trip());
    assert_eq!(text, ROAD_TRIP);
    assert_eq!(m3u::read(&text), Ok(road_trip()));
}

#[test]
fn write_is_stable() {
    assert_eq!(m3u::write(&road_trip()), m3u::write(&road_trip()));
}

#[test]
fn write_of_an_empty_playlist_is_the_header() {
    let document = M3U::new(vec![], vec![]);
    assert_eq!(m3u::write(&document), "#EXTM3U\n");
    assert_eq!(m3u::read("#EXTM3U\n"), Ok(M3U::new(vec![], vec![])));
}

#[test]
fn write_has_no_playlist_line_without_a_title() {
    let document = M3U::new(
        vec![item("a.mp3", vec![])],
        vec![Metadata::RatingKey(7)],
    );
    assert_eq!(
        m3u::write(&document),
        "#EXTM3U\n#PLEXM3U_RATING_KEY:7\na.mp3\n"
    );
}

#[test]
fn write_shows_the_first_title_only() {
    let document = M3U::new(
        vec![],
        vec![
            Metadata::RewriteFrom("/old/".to_string()),
            Metadata::Title("First".to_string()),
            Metadata::Title("Second".to_string()),
        ],
    );
    assert_eq!(
        m3u::write(&document),
        "#EXTM3U\n#PLEXM3U_REWRITE_FROM:/old/\n#PLEXM3U_TITLE:First\n#PLEXM3U_TITLE:Second\n#PLAYLIST:First\n"
    );
    assert_eq!(document.title(), Some("First".to_string()));
}

#[test]
fn write_keeps_the_order_of_tags_and_entries() {
    let document = M3U::new(
        vec![
            item(
                "b/two.flac",
                vec![
                    label("EXTART", "Artist"),
                    file_path("/library/b/two.flac"),
                    key("/library/parts/2/file.flac"),
                ],
            ),
            item("a/one.flac", vec![]),
        ],
        vec![
            Metadata::RewriteTo("".to_string()),
            Metadata::RewriteFrom("/library/".to_string()),
            Metadata::RatingKey(0),
        ],
    );
    let text = m3u::write(&document);
    assert_eq!(
        text,
        "#EXTM3U\n#PLEXM3U_REWRITE_TO:\n#PLEXM3U_REWRITE_FROM:/library/\n#PLEXM3U_RATING_KEY:0\n#PLEXM3U_EXTART:Artist\n#PLEXM3U_FILE_PATH:/library/b/two.flac\n#PLEXM3U_TRACK_KEY:/library/parts/2/file.flac\nb/two.flac\na/one.flac\n"
    );
    assert_eq!(m3u::read(&text), Ok(document));
}

#[test]
fn round_trip_of_every_kind_of_tag() {
    let document = M3U::new(
        vec![
            item(
                "/new/music/song.mp3",
                vec![
                    key("/library/parts/1/123/file.mp3"),
                    file_path("/old/music/song.mp3"),
                    label("EXTART", "Some: Artist"),
                    label("EXTALB", ""),
                    label("EXTGENRE", "#calm"),
                ],
            ),
            item("", vec![key("empty path")]),
            item("second entry with spaces.ogg", vec![]),
            item("tab\there\rmiddle", vec![label("EXT", "a\rb"), label("EXT \r", "")]),
        ],
        vec![
            Metadata::RatingKey(u32::MAX),
            Metadata::Title("Title: with #PLEXM3U_ inside".to_string()),
            Metadata::RewriteFrom("/old/".to_string()),
            Metadata::RewriteTo("/new/".to_string()),
        ],
    );
    let text = m3u::write(&document);
    assert_eq!(m3u::read(&text), Ok(document));
}

#[test]
fn round_trip_fails_for_a_label_named_like_a_key_of_the_format() {
    let document = M3U::new(vec![item("a.mp3", vec![label("TITLE", "x")])], vec![]);
    let text = m3u::write(&document);
    assert_eq!(text, "#EXTM3U\n#PLEXM3U_TITLE:x\na.mp3\n");
    assert_eq!(
        m3u::read(&text),
        Ok(M3U::new(
            vec![item("a.mp3", vec![])],
            vec![Metadata::Title("x".to_string())]
        ))
    );
}

#[test]
fn lossy_unknown_tag() {
    let with = "#EXTM3U\n#PLEXM3U_RATING_KEY:42\n#PLEXM3U_TITLE:Road Trip\n#PLAYLIST:Road Trip\n#PLEXM3U_TRACK_KEY:k1\n#PLEXM3U_BITRATE:320\nsongs/a.mp3\n";
    assert_eq!(m3u::read(with), Ok(road_trip()));
    assert_eq!(m3u::write(&road_trip()), with.replace("#PLEXM3U_BITRATE:320\n", ""));
}

#[test]
fn round_trip_loses_a_label_under_an_unknown_name() {
    let document = M3U::new(
        vec![item(
            "a.mp3",
            vec![key("k"), label("mood", "calm"), label("EXTART", "Artist")],
        )],
        vec![],
    );
    let text = m3u::write(&document);
    assert_eq!(
        text,
        "#EXTM3U\n#PLEXM3U_TRACK_KEY:k\n#PLEXM3U_mood:calm\n#PLEXM3U_EXTART:Artist\na.mp3\n"
    );
    assert_eq!(
        m3u::read(&text),
        Ok(M3U::new(
            vec![item("a.mp3", vec![key("k"), label("EXTART", "Artist")])],
            vec![]
        ))
    );
}

#[test]
fn lines_that_are_passed_over() {
    for line in [
        "#PLEXM3U_:no key",
        "#PLEXM3U_FOO:bar",
        "#PLEXM3U_ext:lower case",
        "#PLEXM3U_ EXTART:after a space",
        "#PLEXM3U_EX:too short",
        "#PLEXM3U_TITLE :x",
        "#PLEXM3U_#PLEXM3U_TITLE:x",
        "#PLEXM3U_NOCOLON",
        "#PLEXM3U_",
        "#PLEXM3U_RATING_KEY:forty-two",
        "#PLEXM3U_RATING_KEY:",
        "#PLEXM3U_RATING_KEY:4294967296",
        "#PLEXM3U_RATING_KEY:-1",
        "#PLEXM3U_RATING_KEY: 7",
        "#",
        "# a comment",
        "#plexm3u_title:lower case",
        "#EXTART:Artist",
    ] {
        let with = format!(
            "#EXTM3U\n#PLEXM3U_RATING_KEY:42\n{}\n#PLEXM3U_TITLE:Road Trip\n#PLEXM3U_TRACK_KEY:k1\n{}\nsongs/a.mp3\n{}\n",
            line, line, line
        );
        assert_eq!(m3u::read(&with), Ok(road_trip()), "{:?}", line);
        assert_eq!(Metadata::parse(line.to_string()), None, "{:?}", line);
    }
}

#[test]
fn header_enforcement() {
    for text in [
        "",
        "\n#EXTM3U\n",
        "#EXTM3U \nsongs/a.mp3\n",
        " #EXTM3U\n",
        "#extm3u\n",
        "#EXTM3U8\n",
        "#EXTM3",
        "songs/a.mp3\n#EXTM3U\n",
        "#PLEXM3U_TITLE:t\n",
        "\r\n",
        "#EXTM3U\r",
    ] {
        assert_eq!(
            m3u::read(text),
            Err(ReadError::MalformedDocument),
            "{:?}",
            text
        );
    }
}

#[test]
fn header_alone_is_a_playlist() {
    for text in ["#EXTM3U", "#EXTM3U\n", "#EXTM3U\r\n"] {
        assert_eq!(m3u::read(text), Ok(M3U::new(vec![], vec![])), "{:?}", text);
    }
}

#[test]
fn read_takes_carriage_returns_off_line_ends() {
    let text = "#EXTM3U\r\n#PLEXM3U_RATING_KEY:42\r\n#PLEXM3U_TITLE:Road Trip\r\n#PLAYLIST:Road Trip\r\n#PLEXM3U_TRACK_KEY:k1\r\nsongs/a.mp3\r\n";
    assert_eq!(m3u::read(text), Ok(road_trip()));
}

#[test]
fn read_takes_one_carriage_return_only() {
    let text = "#EXTM3U\na.mp3\r\r\nb.mp3\r";
    assert_eq!(
        m3u::read(text),
        Ok(M3U::new(
            vec![item("a.mp3\r", vec![]), item("b.mp3\r", vec![])],
            vec![]
        ))
    );
}

#[test]
fn read_takes_a_last_line_without_a_line_feed() {
    let text = "#EXTM3U\n#PLEXM3U_TRACK_KEY:k1\nsongs/a.mp3";
    assert_eq!(
        m3u::read(text),
        Ok(M3U::new(vec![item("songs/a.mp3", vec![key("k1")])], vec![]))
    );
}

#[test]
fn read_takes_playlist_tags_between_entries() {
    let text = "#EXTM3U\n#PLEXM3U_TRACK_KEY:k1\n#PLEXM3U_TITLE:Late\na.mp3\n#PLEXM3U_RATING_KEY:5\nb.mp3\n#PLEXM3U_REWRITE_TO:x\n";
    assert_eq!(
        m3u::read(text),
        Ok(M3U::new(
            vec![item("a.mp3", vec![key("k1")]), item("b.mp3", vec![])],
            vec![
                Metadata::Title("Late".to_string()),
                Metadata::RatingKey(5),
                Metadata::RewriteTo("x".to_string()),
            ]
        ))
    );
}

#[test]
fn read_loses_tags_that_no_path_follows() {
    let text = "#EXTM3U\na.mp3\n#PLEXM3U_TRACK_KEY:k2\n#PLEXM3U_EXTART:Nobody\n";
    assert_eq!(
        m3u::read(text),
        Ok(M3U::new(vec![item("a.mp3", vec![])], vec![]))
    );
}

#[test]
fn read_takes_an_empty_line_for_a_path() {
    let text = "#EXTM3U\n#PLEXM3U_TRACK_KEY:k1\n\na.mp3\n";
    assert_eq!(
        m3u::read(text),
        Ok(M3U::new(
            vec![item("", vec![key("k1")]), item("a.mp3", vec![])],
            vec![]
        ))
    );
}

#[test]
fn read_takes_a_second_header_line_for_a_comment() {
    let text = "#EXTM3U\n#EXTM3U\na.mp3\n";
    assert_eq!(
        m3u::read(text),
        Ok(M3U::new(vec![item("a.mp3", vec![])], vec![]))
    );
}

#[test]
fn read_keeps_text_that_is_not_ascii() {
    let document = M3U::new(
        vec![item(
            "Sigur Rós/Ágætis byrjun/01 Intro.flac",
            vec![label("EXTART", "Sigur Rós"), key("/parts/日本語")],
        )],
        vec![Metadata::Title("Ísland ♫".to_string())],
    );
    let text = m3u::write(&document);
    assert_eq!(
        text,
        "#EXTM3U\n#PLEXM3U_TITLE:Ísland ♫\n#PLAYLIST:Ísland ♫\n#PLEXM3U_EXTART:Sigur Rós\n#PLEXM3U_TRACK_KEY:/parts/日本語\nSigur Rós/Ágætis byrjun/01 Intro.flac\n"
    );
    assert_eq!(m3u::read(&text), Ok(document));
}

#[test]
fn parse_knows_the_keys_of_the_format() {
    let parse = |line: &str| Metadata::parse(line.to_string());
    assert_eq!(parse("#PLEXM3U_RATING_KEY:135542"), Some(Metadata::RatingKey(135542)));
    assert_eq!(parse("#PLEXM3U_RATING_KEY:+42"), Some(Metadata::RatingKey(42)));
    assert_eq!(parse("#PLEXM3U_RATING_KEY:007"), Some(Metadata::RatingKey(7)));
    assert_eq!(
        parse("#PLEXM3U_RATING_KEY:4294967295"),
        Some(Metadata::RatingKey(u32::MAX))
    );
    assert_eq!(
        parse("#PLEXM3U_TITLE:Best Albums"),
        Some(Metadata::Title("Best Albums".to_string()))
    );
    assert_eq!(parse("#PLEXM3U_TITLE:"), Some(Metadata::Title("".to_string())));
    assert_eq!(
        parse("#PLEXM3U_REWRITE_FROM:/old/"),
        Some(Metadata::RewriteFrom("/old/".to_string()))
    );
    assert_eq!(
        parse("#PLEXM3U_REWRITE_TO:/new/"),
        Some(Metadata::RewriteTo("/new/".to_string()))
    );
    assert_eq!(
        parse("#PLEXM3U_TRACK_KEY:/library/parts/1/file.mp3"),
        Some(Metadata::TrackData(key("/library/parts/1/file.mp3")))
    );
    assert_eq!(
        parse("#PLEXM3U_FILE_PATH:/music/a.mp3"),
        Some(Metadata::TrackData(file_path("/music/a.mp3")))
    );
}

#[test]
fn parse_takes_a_key_that_begins_with_ext_for_a_label() {
    let parse = |line: &str| Metadata::parse(line.to_string());
    assert_eq!(
        parse("#PLEXM3U_EXTART:Artist"),
        Some(Metadata::TrackData(label("EXTART", "Artist")))
    );
    assert_eq!(
        parse("#PLEXM3U_EXTALB:Album: Deluxe"),
        Some(Metadata::TrackData(label("EXTALB", "Album: Deluxe")))
    );
    assert_eq!(
        parse("#PLEXM3U_EXTGENRE:"),
        Some(Metadata::TrackData(label("EXTGENRE", "")))
    );
    assert_eq!(
        parse("#PLEXM3U_EXT:x"),
        Some(Metadata::TrackData(label("EXT", "x")))
    );
    assert_eq!(
        parse("#PLEXM3U_EXT x:y"),
        Some(Metadata::TrackData(label("EXT x", "y")))
    );
    assert_eq!(parse("#PLEXM3U_title:lower"), None);
    assert_eq!(parse("#PLEXM3U_ART:x"), None);
    assert_eq!(parse("#PLEXM3U_XEXT:x"), None);
    assert_eq!(parse("#PLEXM3U_ext:x"), None);
}

#[test]
fn parse_splits_at_the_first_colon_only() {
    let parse = |line: &str| Metadata::parse(line.to_string());
    assert_eq!(
        parse("#PLEXM3U_TITLE:a:b:c"),
        Some(Metadata::Title("a:b:c".to_string()))
    );
    assert_eq!(
        parse("#PLEXM3U_TITLE::"),
        Some(Metadata::Title(":".to_string()))
    );
    assert_eq!(
        parse("#PLEXM3U_TRACK_KEY:http://host:32400/x?y=#PLEXM3U_z"),
        Some(Metadata::TrackData(key("http://host:32400/x?y=#PLEXM3U_z")))
    );
}

#[test]
fn parse_wants_the_prefix_at_the_start() {
    let parse = |line: &str| Metadata::parse(line.to_string());
    assert_eq!(parse(""), None);
    assert_eq!(parse("songs/a.mp3"), None);
    assert_eq!(parse(" #PLEXM3U_TITLE:x"), None);
    assert_eq!(parse("PLEXM3U_TITLE:x"), None);
    assert_eq!(parse("#PLEXM3U"), None);
    assert_eq!(parse("#PLAYLIST:Road Trip"), None);
}

#[test]
fn format_gives_each_tag_its_key() {
    let text = |tag: Metadata| tag.format().to_string();
    assert_eq!(text(Metadata::RatingKey(42)), "PLEXM3U_RATING_KEY:42");
    assert_eq!(text(Metadata::RatingKey(0)), "PLEXM3U_RATING_KEY:0");
    assert_eq!(
        text(Metadata::RatingKey(u32::MAX)),
        "PLEXM3U_RATING_KEY:4294967295"
    );
    assert_eq!(text(Metadata::Title("T".to_string())), "PLEXM3U_TITLE:T");
    assert_eq!(
        text(Metadata::RewriteFrom("/a/".to_string())),
        "PLEXM3U_REWRITE_FROM:/a/"
    );
    assert_eq!(
        text(Metadata::RewriteTo("/b/".to_string())),
        "PLEXM3U_REWRITE_TO:/b/"
    );
    assert_eq!(text(Metadata::TrackData(key("k"))), "PLEXM3U_TRACK_KEY:k");
    assert_eq!(key("k").format().to_string(), "PLEXM3U_TRACK_KEY:k");
    assert_eq!(file_path("/f").format().to_string(), "PLEXM3U_FILE_PATH:/f");
    assert_eq!(label("EXTALB", "Album").format().to_string(), "PLEXM3U_EXTALB:Album");
}

#[test]
fn attribute_to_string() {
    let attribute = M3UAttribute::new("KEY".to_string(), "value: 1".to_string());
    assert_eq!(attribute.to_string(), "PLEXM3U_KEY:value: 1");
    assert_eq!(
        M3UAttribute::new(String::new(), String::new()).to_string(),
        "PLEXM3U_:"
    );
}

#[test]
fn is_key_and_is_title() {
    assert!(key("k").is_key());
    assert!(!file_path("f").is_key());
    assert!(!label("TRACK_KEY", "k").is_key());
    assert!(Metadata::Title("t".to_string()).is_title());
    assert!(!Metadata::RatingKey(1).is_title());
    assert!(!Metadata::RewriteFrom("t".to_string()).is_title());
    assert!(!Metadata::RewriteTo("t".to_string()).is_title());
    assert!(!Metadata::TrackData(key("k")).is_title());
}

#[test]
fn track_key_is_the_first_key() {
    assert_eq!(item("a", vec![]).track_key(), None);
    assert_eq!(
        item("a", vec![file_path("f"), label("EXTART", "x")]).track_key(),
        None
    );
    assert_eq!(
        item("a", vec![file_path("f"), key("k1"), key("k2")]).track_key(),
        Some("k1".to_string())
    );
}

#[test]
fn title_and_track_count() {
    assert_eq!(M3U::new(vec![], vec![]).title(), None);
    assert_eq!(M3U::new(vec![], vec![]).track_count(), 0);
    assert_eq!(
        M3U::new(vec![], vec![Metadata::RatingKey(1)]).title(),
        None
    );
    assert_eq!(road_trip().title(), Some("Road Trip".to_string()));
    assert_eq!(road_trip().track_count(), 1);
}

#[test]
fn clone_of_an_item() {
    let source = item("a", vec![key("k"), file_path("f"), label("n", "v")]);
    let copy = source.clone();
    assert_eq!(copy, source);
    assert_eq!(key("k").clone(), key("k"));
    assert_eq!(label("n", "v").clone(), label("n", "v"));
}

#[test]
fn new_keeps_what_it_is_given() {
    let entry = Item::new("p".to_string(), vec![key("k")]);
    assert_eq!(entry.path, "p");
    assert_eq!(entry.metadata, vec![key("k")]);
    let document = M3U::new(vec![entry], vec![Metadata::RatingKey(3)]);
    assert_eq!(document.tracks, vec![item("p", vec![key("k")])]);
    assert_eq!(document.metadata, vec![Metadata::RatingKey(3)]);
}

#[test]
fn find_gives_the_first_tag_of_a_kind() {
    let document = M3U::new(
        vec![],
        vec![
            Metadata::RewriteTo("/new/".to_string()),
            Metadata::Title("First".to_string()),
            Metadata::RatingKey(1),
            Metadata::Title("Second".to_string()),
            Metadata::RatingKey(2),
            Metadata::TrackData(key("k")),
        ],
    );
    assert_eq!(
        document.find(MetadataKind::Title),
        Some(&Metadata::Title("First".to_string()))
    );
    assert_eq!(
        document.find(MetadataKind::RatingKey),
        Some(&Metadata::RatingKey(1))
    );
    assert_eq!(
        document.find(MetadataKind::RewriteTo),
        Some(&Metadata::RewriteTo("/new/".to_string()))
    );
    assert_eq!(document.find(MetadataKind::RewriteFrom), None);
    assert_eq!(
        document.find(MetadataKind::TrackData),
        Some(&Metadata::TrackData(key("k")))
    );
    assert_eq!(M3U::new(vec![], vec![]).find(MetadataKind::Title), None);
    assert_eq!(Metadata::RatingKey(7).kind(), MetadataKind::RatingKey);
    assert_eq!(Metadata::TrackData(key("k")).kind(), MetadataKind::TrackData);
}
