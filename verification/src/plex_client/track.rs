//! The records of a playlist in the library, and the playlist entries that
//! they give.

use crate::lines::{join_lines, lemma_join_push};
use crate::m3u::{Item, ItemView, Metadata, MetadataView, TrackData, TrackDataView, WithMetadata};
use crate::number::{decimal, decimal_string, push_decimal};
use crate::rewrite::{rewrite, rewrite_spec};
use crate::text::{option_view, views};
use vstd::prelude::*;

verus! {

/// A playlist as the library lists it: its tracks, then its videos.
#[derive(Debug)]
pub struct MediaContainer {
    pub tracks: Vec<Track>,
    pub videos: Vec<Video>,
    pub rating_key: u32,
    pub title: String,
}

/// A video of a playlist.
#[derive(Debug)]
pub struct Video {
    pub rating_key: u32,
    pub title: String,
    /// The season.
    pub parent_title: Option<String>,
    /// The show.
    pub grandparent_title: Option<String>,
    pub medias: Vec<Media>,
}

/// A track of a playlist.
#[derive(Debug)]
pub struct Track {
    pub rating_key: u32,
    pub title: String,
    /// The album.
    pub parent_title: Option<String>,
    /// The artist.
    pub grandparent_title: Option<String>,
    pub medias: Vec<Media>,
}

/// One variant of a record: the same content in one encoding.
#[derive(Debug)]
pub struct Media {
    pub id: u32,
    pub parts: Vec<Part>,
}

/// One file of a media variant.
#[derive(Debug)]
pub struct Part {
    /// The key under which the library serves the file.
    pub key: String,
    /// The path of the file as the library reports it.
    pub file: String,
}

/// How the path of an entry is made.
pub enum TrackPath {
    /// From the path of the file.
    File,
    /// From this base, followed by the key of the part.
    Key(String),
}

/// The mathematical value of a `Part`.
pub struct PartView {
    pub key: Seq<char>,
    pub file: Seq<char>,
}

/// The mathematical value of a `Media`.
pub struct MediaView {
    pub id: u32,
    pub parts: Seq<PartView>,
}

/// The mathematical value of a `Track` or a `Video`.
pub struct RecordView {
    pub rating_key: u32,
    pub title: Seq<char>,
    pub parent_title: Option<Seq<char>>,
    pub grandparent_title: Option<Seq<char>>,
    pub medias: Seq<MediaView>,
}

/// The mathematical value of a `MediaContainer`.
pub struct MediaContainerView {
    pub tracks: Seq<RecordView>,
    pub videos: Seq<RecordView>,
    pub rating_key: u32,
    pub title: Seq<char>,
}

/// The mathematical value of a `TrackPath`.
pub enum TrackPathView {
    File,
    Key(Seq<char>),
}

impl View for Part {
    type V = PartView;

    open spec fn view(&self) -> PartView {
        PartView { key: self.key@, file: self.file@ }
    }
}

impl View for Media {
    type V = MediaView;

    open spec fn view(&self) -> MediaView {
        MediaView { id: self.id, parts: views(self.parts@) }
    }
}

impl View for Track {
    type V = RecordView;

    open spec fn view(&self) -> RecordView {
        RecordView {
            rating_key: self.rating_key,
            title: self.title@,
            parent_title: option_view(self.parent_title),
            grandparent_title: option_view(self.grandparent_title),
            medias: views(self.medias@),
        }
    }
}

impl View for Video {
    type V = RecordView;

    open spec fn view(&self) -> RecordView {
        RecordView {
            rating_key: self.rating_key,
            title: self.title@,
            parent_title: option_view(self.parent_title),
            grandparent_title: option_view(self.grandparent_title),
            medias: views(self.medias@),
        }
    }
}

impl View for MediaContainer {
    type V = MediaContainerView;

    open spec fn view(&self) -> MediaContainerView {
        MediaContainerView {
            tracks: views(self.tracks@),
            videos: views(self.videos@),
            rating_key: self.rating_key,
            title: self.title@,
        }
    }
}

impl View for TrackPath {
    type V = TrackPathView;

    open spec fn view(&self) -> TrackPathView {
        match self {
            TrackPath::File => TrackPathView::File,
            TrackPath::Key(base) => TrackPathView::Key(base@),
        }
    }
}

impl Clone for Part {
    fn clone(&self) -> (copy: Self)
        ensures
            copy@ == self@,
    {
        Part { key: self.key.clone(), file: self.file.clone() }
    }
}

impl Clone for Media {
    fn clone(&self) -> (copy: Self)
        ensures
            copy@ == self@,
    {
        let mut parts: Vec<Part> = Vec::new();
        let mut i: usize = 0;
        while i < self.parts.len()
            invariant
                i <= self.parts.len(),
                parts.len() == i,
                forall|k: int| 0 <= k < i ==> parts@[k]@ == self.parts@[k]@,
            decreases self.parts.len() - i,
        {
            parts.push(self.parts[i].clone());
            i += 1;
        }
        assert(views(parts@) == views(self.parts@));
        Media { id: self.id, parts }
    }
}

/// A copy of `medias`.
fn clone_medias(medias: &Vec<Media>) -> (copy: Vec<Media>)
    ensures
        views(copy@) == views(medias@),
{
    let mut copy: Vec<Media> = Vec::new();
    let mut i: usize = 0;
    while i < medias.len()
        invariant
            i <= medias.len(),
            copy.len() == i,
            forall|k: int| 0 <= k < i ==> copy@[k]@ == medias@[k]@,
        decreases medias.len() - i,
    {
        copy.push(medias[i].clone());
        i += 1;
    }
    copy
}

/// The labels that a record hands to its entries: its artist or show under
/// `EXTART`, then its album or season under `EXTALB`, each only where the
/// record has it.
pub open spec fn labels(record: RecordView) -> Seq<TrackDataView> {
    (match record.grandparent_title {
        Some(artist) => seq![TrackDataView::ExtM3u("EXTART"@, artist)],
        None => Seq::empty(),
    }) + (match record.parent_title {
        Some(album) => seq![TrackDataView::ExtM3u("EXTALB"@, album)],
        None => Seq::empty(),
    })
}

/// The path of a part before any rewrite rule.
pub open spec fn raw_name(part: PartView, track_path: TrackPathView) -> Seq<char> {
    match track_path {
        TrackPathView::File => part.file,
        TrackPathView::Key(base) => base + part.key,
    }
}

/// The entry of one part: its path under the rewrite rule, then its key, the
/// path of its file and the labels of its record as tags.
pub open spec fn part_item(
    part: PartView,
    extra: Seq<TrackDataView>,
    rewrite_from: Option<Seq<char>>,
    rewrite_to: Option<Seq<char>>,
    track_path: TrackPathView,
) -> ItemView {
    ItemView {
        path: rewrite_spec(raw_name(part, track_path), rewrite_from, rewrite_to),
        metadata: seq![TrackDataView::Key(part.key), TrackDataView::FilePath(part.file)] + extra,
    }
}

/// The entries of the parts `parts`, one each, in order.
pub open spec fn parts_items(
    parts: Seq<PartView>,
    extra: Seq<TrackDataView>,
    rewrite_from: Option<Seq<char>>,
    rewrite_to: Option<Seq<char>>,
    track_path: TrackPathView,
) -> Seq<ItemView> {
    Seq::new(
        parts.len(),
        |i: int| part_item(parts[i], extra, rewrite_from, rewrite_to, track_path),
    )
}

/// The entries of the media variants `medias`: those of the first variant,
/// then those of the second, and so on.
pub open spec fn medias_items(
    medias: Seq<MediaView>,
    extra: Seq<TrackDataView>,
    rewrite_from: Option<Seq<char>>,
    rewrite_to: Option<Seq<char>>,
    track_path: TrackPathView,
) -> Seq<ItemView>
    decreases medias.len(),
{
    if medias.len() == 0 {
        Seq::empty()
    } else {
        medias_items(medias.drop_last(), extra, rewrite_from, rewrite_to, track_path)
            + parts_items(medias.last().parts, extra, rewrite_from, rewrite_to, track_path)
    }
}

/// The entries of the records `records`, record after record.
pub open spec fn records_items(
    records: Seq<RecordView>,
    rewrite_from: Option<Seq<char>>,
    rewrite_to: Option<Seq<char>>,
    track_path: TrackPathView,
) -> Seq<ItemView>
    decreases records.len(),
{
    if records.len() == 0 {
        Seq::empty()
    } else {
        records_items(records.drop_last(), rewrite_from, rewrite_to, track_path) + medias_items(
            records.last().medias,
            labels(records.last()),
            rewrite_from,
            rewrite_to,
            track_path,
        )
    }
}

/// The entries of a playlist of the library: those of its tracks, then those
/// of its videos. Nothing is sorted and nothing is left out.
pub open spec fn container_items(
    container: MediaContainerView,
    rewrite_from: Option<Seq<char>>,
    rewrite_to: Option<Seq<char>>,
    track_path: TrackPathView,
) -> Seq<ItemView> {
    records_items(container.tracks, rewrite_from, rewrite_to, track_path) + records_items(
        container.videos,
        rewrite_from,
        rewrite_to,
        track_path,
    )
}

/// The lines that describe the media variants `medias`: one for each
/// variant, followed by one for each of its parts.
pub open spec fn medias_lines(medias: Seq<MediaView>) -> Seq<Seq<char>>
    decreases medias.len(),
{
    if medias.len() == 0 {
        Seq::empty()
    } else {
        medias_lines(medias.drop_last()).push("- ID: "@ + decimal(medias.last().id as nat))
            + Seq::new(
            medias.last().parts.len(),
            |i: int|
                "  "@ + medias.last().parts[i].file + " ("@ + medias.last().parts[i].key + ")"@,
        )
    }
}

/// The lines of the details `informations` that are present, one each.
pub open spec fn informations_lines(
    informations: Seq<(Seq<char>, Option<Seq<char>>)>,
) -> Seq<Seq<char>>
    decreases informations.len(),
{
    if informations.len() == 0 {
        Seq::empty()
    } else {
        informations_lines(informations.drop_last()) + (match informations.last().1 {
            Some(value) => seq![informations.last().0 + ": "@ + value],
            None => Seq::empty(),
        })
    }
}

/// The lines that describe a record: an empty line, its key, its details,
/// then its media variants.
pub open spec fn description_lines(
    key: Seq<char>,
    informations: Seq<(Seq<char>, Option<Seq<char>>)>,
    medias: Seq<MediaView>,
) -> Seq<Seq<char>> {
    seq![Seq::empty(), "Key: "@ + key] + informations_lines(informations) + seq!["Medias:"@]
        + medias_lines(medias)
}

/// The views of a record's details.
pub open spec fn informations_view(informations: Seq<(&str, Option<String>)>) -> Seq<
    (Seq<char>, Option<Seq<char>>),
> {
    Seq::new(informations.len(), |i: int| (informations[i].0@, option_view(informations[i].1)))
}

/// A record of the library that has media variants and labels.
pub trait WithMedia {
    /// The key of the record, as a mathematical value.
    spec fn key_spec(&self) -> Seq<char>;

    /// The details of the record, as a mathematical value.
    spec fn informations_spec(&self) -> Seq<(Seq<char>, Option<Seq<char>>)>;

    /// The media variants of the record, as a mathematical value.
    spec fn medias_spec(&self) -> Seq<MediaView>;

    /// The labels of the record, as a mathematical value.
    spec fn extra_metadata_spec(&self) -> Seq<TrackDataView>;

    /// The key of the record.
    fn key(&self) -> (key: String)
        ensures
            key@ == self.key_spec(),
    ;

    /// The details of the record, each under its name; one that the record
    /// lacks is `None`.
    fn informations(&self) -> (informations: Vec<(&str, Option<String>)>)
        ensures
            informations_view(informations@) == self.informations_spec(),
    ;

    /// The media variants of the record.
    fn medias(&self) -> (medias: Vec<Media>)
        ensures
            views(medias@) == self.medias_spec(),
    ;

    /// The labels that the record hands to its entries.
    fn extra_metadata(&self) -> (tags: Vec<TrackData>)
        ensures
            views(tags@) == self.extra_metadata_spec(),
    ;

    /// The text that describes the record, line by line.
    fn informations_text(&self) -> (text: String)
        ensures
            text@ == join_lines(
                description_lines(self.key_spec(), self.informations_spec(), self.medias_spec()),
            ),
    {
        let mut text = String::new();
        let ghost mut lines: Seq<Seq<char>> = Seq::empty();
        text.push('\n');
        proof {
            lemma_join_push(lines, Seq::empty());
            lines = lines.push(Seq::empty());
        }
        let key = self.key();
        text.append("Key: ");
        text.append(key.as_str());
        text.push('\n');
        proof {
            lemma_join_push(lines, "Key: "@ + key@);
            lines = lines.push("Key: "@ + key@);
            assert(lines == seq![Seq::<char>::empty(), "Key: "@ + self.key_spec()]);
        }
        let ghost head = lines;
        let informations = self.informations();
        let ghost details = self.informations_spec();
        let mut i: usize = 0;
        while i < informations.len()
            invariant
                i <= informations.len(),
                details == informations_view(informations@),
                text@ == join_lines(lines),
                lines == head + informations_lines(details.take(i as int)),
            decreases informations.len() - i,
        {
            let ghost grown = details.take(i + 1);
            assert(grown.drop_last() == details.take(i as int));
            let (name, value) = &informations[i];
            if let Some(value) = value {
                text.append(name);
                text.append(": ");
                text.append(value.as_str());
                text.push('\n');
                proof {
                    let line = name@ + ": "@ + value@;
                    lemma_join_push(lines, line);
                    lines = lines.push(line);
                }
            }
            i += 1;
        }
        assert(details.take(i as int) == details);
        text.append("Medias:");
        text.push('\n');
        proof {
            lemma_join_push(lines, "Medias:"@);
            lines = lines.push("Medias:"@);
            assert(lines == head + informations_lines(details) + seq!["Medias:"@]);
        }
        let ghost upper = lines;
        let medias = self.medias();
        let ghost variants = self.medias_spec();
        let mut m: usize = 0;
        while m < medias.len()
            invariant
                m <= medias.len(),
                variants == views(medias@),
                text@ == join_lines(lines),
                lines == upper + medias_lines(variants.take(m as int)),
            decreases medias.len() - m,
        {
            let media = &medias[m];
            let ghost grown = variants.take(m + 1);
            assert(grown.drop_last() == variants.take(m as int));
            text.append("- ID: ");
            push_decimal(&mut text, media.id as u64);
            text.push('\n');
            proof {
                let line = "- ID: "@ + decimal(media.id as nat);
                lemma_join_push(lines, line);
                lines = lines.push(line);
            }
            let ghost base = lines;
            let ghost part_lines = Seq::new(
                media@.parts.len(),
                |i: int| "  "@ + media@.parts[i].file + " ("@ + media@.parts[i].key + ")"@,
            );
            let mut p: usize = 0;
            while p < media.parts.len()
                invariant
                    p <= media.parts.len(),
                    part_lines.len() == media.parts.len(),
                    forall|i: int|
                        0 <= i < part_lines.len() ==> part_lines[i] == "  "@
                            + media.parts@[i].file@ + " ("@ + media.parts@[i].key@ + ")"@,
                    text@ == join_lines(lines),
                    lines == base + part_lines.take(p as int),
                decreases media.parts.len() - p,
            {
                let part = &media.parts[p];
                text.append("  ");
                text.append(part.file.as_str());
                text.append(" (");
                text.append(part.key.as_str());
                text.append(")");
                text.push('\n');
                proof {
                    let line = part_lines[p as int];
                    lemma_join_push(lines, line);
                    lines = lines.push(line);
                }
                p += 1;
            }
            m += 1;
        }
        assert(variants.take(m as int) == variants);
        text
    }

    /// The playlist entries of the record: one for each part of each media
    /// variant, in the order of the record.
    fn files(
        &self,
        rewrite_from: &Option<String>,
        rewrite_to: &Option<String>,
        track_path: &TrackPath,
    ) -> (files: Vec<Item>)
        ensures
            views(files@) == medias_items(
                self.medias_spec(),
                self.extra_metadata_spec(),
                option_view(*rewrite_from),
                option_view(*rewrite_to),
                track_path@,
            ),
    {
        let ghost from = option_view(*rewrite_from);
        let ghost to = option_view(*rewrite_to);
        let ghost extra = self.extra_metadata_spec();
        let ghost variants = self.medias_spec();
        let mut files: Vec<Item> = Vec::new();
        let medias = self.medias();
        let mut m: usize = 0;
        while m < medias.len()
            invariant
                m <= medias.len(),
                variants == views(medias@),
                from == option_view(*rewrite_from),
                to == option_view(*rewrite_to),
                extra == self.extra_metadata_spec(),
                views(files@) == medias_items(variants.take(m as int), extra, from, to, track_path@),
            decreases medias.len() - m,
        {
            let media = &medias[m];
            let ghost before = views(files@);
            let ghost parts = media@.parts;
            let ghost grown = variants.take(m + 1);
            assert(grown.drop_last() == variants.take(m as int));
            let mut p: usize = 0;
            while p < media.parts.len()
                invariant
                    p <= media.parts.len(),
                    parts == views(media.parts@),
                    from == option_view(*rewrite_from),
                    to == option_view(*rewrite_to),
                    extra == self.extra_metadata_spec(),
                    views(files@) == before + parts_items(parts, extra, from, to, track_path@).take(
                        p as int,
                    ),
                decreases media.parts.len() - p,
            {
                let part = &media.parts[p];
                let name = match track_path {
                    TrackPath::File => part.file.clone(),
                    TrackPath::Key(base) => {
                        let mut name = base.clone();
                        name.append(part.key.as_str());
                        name
                    },
                };
                let path = rewrite(name.as_str(), rewrite_from, rewrite_to);
                let mut metadata: Vec<TrackData> = Vec::new();
                metadata.push(TrackData::Key(part.key.clone()));
                metadata.push(TrackData::FilePath(part.file.clone()));
                let mut labels = self.extra_metadata();
                let ghost two = views(metadata@);
                assert(two == seq![
                    TrackDataView::Key(part@.key),
                    TrackDataView::FilePath(part@.file),
                ]);
                metadata.append(&mut labels);
                assert(views(metadata@) == two + extra);
                let ghost old_files = views(files@);
                let item = Item::new(path, metadata);
                files.push(item);
                assert(views(files@) == old_files.push(item@));
                p += 1;
            }
            m += 1;
        }
        assert(variants.take(m as int) == variants);
        files
    }
}

/// The labels of a record with the album or season `parent_title` and the
/// artist or show `grandparent_title`.
fn record_labels(parent_title: &Option<String>, grandparent_title: &Option<String>) -> (tags: Vec<
    TrackData,
>)
    ensures
        views(tags@) == (match option_view(*grandparent_title) {
            Some(artist) => seq![TrackDataView::ExtM3u("EXTART"@, artist)],
            None => Seq::empty(),
        }) + (match option_view(*parent_title) {
            Some(album) => seq![TrackDataView::ExtM3u("EXTALB"@, album)],
            None => Seq::empty(),
        }),
{
    let mut tags: Vec<TrackData> = Vec::new();
    if let Some(artist) = grandparent_title {
        tags.push(TrackData::ExtM3u(String::from_str("EXTART"), artist.clone()));
    }
    if let Some(album) = parent_title {
        tags.push(TrackData::ExtM3u(String::from_str("EXTALB"), album.clone()));
    }
    tags
}

/// A copy of an optional string.
fn clone_option(s: &Option<String>) -> (copy: Option<String>)
    ensures
        option_view(copy) == option_view(*s),
{
    match s {
        Some(s) => Some(s.clone()),
        None => None,
    }
}

impl WithMedia for Track {
    open spec fn key_spec(&self) -> Seq<char> {
        decimal(self.rating_key as nat)
    }

    open spec fn informations_spec(&self) -> Seq<(Seq<char>, Option<Seq<char>>)> {
        seq![
            ("Title"@, Some(self.title@)),
            ("Artist"@, option_view(self.grandparent_title)),
            ("Album"@, option_view(self.parent_title)),
        ]
    }

    open spec fn medias_spec(&self) -> Seq<MediaView> {
        self@.medias
    }

    open spec fn extra_metadata_spec(&self) -> Seq<TrackDataView> {
        labels(self@)
    }

    fn medias(&self) -> (medias: Vec<Media>) {
        clone_medias(&self.medias)
    }

    fn key(&self) -> (key: String) {
        decimal_string(self.rating_key)
    }

    fn extra_metadata(&self) -> (tags: Vec<TrackData>) {
        record_labels(&self.parent_title, &self.grandparent_title)
    }

    fn informations(&self) -> (informations: Vec<(&str, Option<String>)>) {
        let mut informations: Vec<(&str, Option<String>)> = Vec::new();
        informations.push(("Title", Some(self.title.clone())));
        informations.push(("Artist", clone_option(&self.grandparent_title)));
        informations.push(("Album", clone_option(&self.parent_title)));
        informations
    }
}

impl WithMedia for Video {
    open spec fn key_spec(&self) -> Seq<char> {
        decimal(self.rating_key as nat)
    }

    open spec fn informations_spec(&self) -> Seq<(Seq<char>, Option<Seq<char>>)> {
        seq![
            ("Title"@, Some(self.title@)),
            ("Show"@, option_view(self.grandparent_title)),
            ("Season"@, option_view(self.parent_title)),
        ]
    }

    open spec fn medias_spec(&self) -> Seq<MediaView> {
        self@.medias
    }

    open spec fn extra_metadata_spec(&self) -> Seq<TrackDataView> {
        labels(self@)
    }

    fn medias(&self) -> (medias: Vec<Media>) {
        clone_medias(&self.medias)
    }

    fn key(&self) -> (key: String) {
        decimal_string(self.rating_key)
    }

    fn informations(&self) -> (informations: Vec<(&str, Option<String>)>) {
        let mut informations: Vec<(&str, Option<String>)> = Vec::new();
        informations.push(("Title", Some(self.title.clone())));
        informations.push(("Show", clone_option(&self.grandparent_title)));
        informations.push(("Season", clone_option(&self.parent_title)));
        informations
    }

    fn extra_metadata(&self) -> (tags: Vec<TrackData>) {
        record_labels(&self.parent_title, &self.grandparent_title)
    }
}

impl WithMetadata for MediaContainer {
    open spec fn metadata_spec(&self) -> Seq<MetadataView> {
        seq![MetadataView::RatingKey(self.rating_key), MetadataView::Title(self.title@)]
    }

    fn metadata(&self) -> (tags: Vec<Metadata>) {
        let mut tags: Vec<Metadata> = Vec::new();
        tags.push(Metadata::RatingKey(self.rating_key));
        tags.push(Metadata::Title(self.title.clone()));
        tags
    }
}

/// Moves the entries of `more` to the end of `files`.
fn append_items(files: &mut Vec<Item>, more: Vec<Item>)
    ensures
        views(final(files)@) == views(old(files)@) + views(more@),
{
    let mut more = more;
    files.append(&mut more);
}

impl MediaContainer {
    /// The playlist entries of the playlist: those of its tracks, then those
    /// of its videos, one for each part of each media variant. With
    /// `rewrite_from`, every occurrence of it in a path is replaced by
    /// `rewrite_to`, or taken out where there is no `rewrite_to`.
    pub fn track_files(
        &self,
        rewrite_from: Option<String>,
        rewrite_to: Option<String>,
        track_path: TrackPath,
    ) -> (files: Vec<Item>)
        ensures
            views(files@) == container_items(
                self@,
                option_view(rewrite_from),
                option_view(rewrite_to),
                track_path@,
            ),
    {
        let ghost from = option_view(rewrite_from);
        let ghost to = option_view(rewrite_to);
        let ghost tracks = self@.tracks;
        let ghost videos = self@.videos;
        let mut files: Vec<Item> = Vec::new();
        let mut t: usize = 0;
        while t < self.tracks.len()
            invariant
                t <= self.tracks.len(),
                tracks == views(self.tracks@),
                from == option_view(rewrite_from),
                to == option_view(rewrite_to),
                views(files@) == records_items(tracks.take(t as int), from, to, track_path@),
            decreases self.tracks.len() - t,
        {
            let track = &self.tracks[t];
            let ghost grown = tracks.take(t + 1);
            assert(grown.drop_last() == tracks.take(t as int));
            let more = track.files(&rewrite_from, &rewrite_to, &track_path);
            append_items(&mut files, more);
            t += 1;
        }
        assert(tracks.take(t as int) == tracks);
        let ghost first = views(files@);
        let mut v: usize = 0;
        while v < self.videos.len()
            invariant
                v <= self.videos.len(),
                videos == views(self.videos@),
                from == option_view(rewrite_from),
                to == option_view(rewrite_to),
                views(files@) == first + records_items(
                    videos.take(v as int),
                    from,
                    to,
                    track_path@,
                ),
            decreases self.videos.len() - v,
        {
            let video = &self.videos[v];
            let ghost grown = videos.take(v + 1);
            assert(grown.drop_last() == videos.take(v as int));
            let more = video.files(&rewrite_from, &rewrite_to, &track_path);
            append_items(&mut files, more);
            v += 1;
        }
        assert(videos.take(v as int) == videos);
        files
    }
}

/// The titles of `records`, one line each.
pub open spec fn title_lines(records: Seq<RecordView>) -> Seq<Seq<char>> {
    Seq::new(records.len(), |i: int| records[i].title)
}

/// The lines that show records of one kind: how many there are, under the
/// name `kind`, then their titles; nothing where there are none.
pub open spec fn kind_lines(records: Seq<RecordView>, kind: Seq<char>) -> Seq<Seq<char>> {
    if records.len() > 0 {
        seq![decimal(records.len()) + kind] + title_lines(records)
    } else {
        Seq::empty()
    }
}

/// The lines that show a playlist of the library: its tracks, then its
/// videos.
pub open spec fn overview_lines(container: MediaContainerView) -> Seq<Seq<char>> {
    kind_lines(container.tracks, " tracks"@) + kind_lines(container.videos, " videos"@)
}

/// Appends the count line of `count` records of `kind`.
fn push_count_line(text: &mut String, count: usize, kind: &str)
    ensures
        final(text)@ == old(text)@ + (decimal(count as nat) + kind@) + seq!['\n'],
{
    push_decimal(text, count as u64);
    text.append(kind);
    text.push('\n');
}

impl MediaContainer {
    /// What an overview of the playlist says: the number of its tracks and
    /// their titles, then the number of its videos and their titles; a kind
    /// of which the playlist has nothing is left out.
    pub fn overview(&self) -> (text: String)
        ensures
            text@ == join_lines(overview_lines(self@)),
    {
        let ghost tracks = self@.tracks;
        let ghost videos = self@.videos;
        let mut text = String::new();
        let ghost mut lines: Seq<Seq<char>> = Seq::empty();
        if self.tracks.len() > 0 {
            push_count_line(&mut text, self.tracks.len(), " tracks");
            proof {
                let line = decimal(tracks.len()) + " tracks"@;
                lemma_join_push(lines, line);
                lines = lines.push(line);
            }
            let mut t: usize = 0;
            while t < self.tracks.len()
                invariant
                    t <= self.tracks.len(),
                    tracks == views(self.tracks@),
                    text@ == join_lines(lines),
                    lines == seq![decimal(tracks.len()) + " tracks"@] + title_lines(tracks).take(
                        t as int,
                    ),
                decreases self.tracks.len() - t,
            {
                text.append(self.tracks[t].title.as_str());
                text.push('\n');
                proof {
                    let line = tracks[t as int].title;
                    lemma_join_push(lines, line);
                    lines = lines.push(line);
                }
                t += 1;
            }
            assert(title_lines(tracks).take(t as int) == title_lines(tracks));
        }
        let ghost first = lines;
        if self.videos.len() > 0 {
            push_count_line(&mut text, self.videos.len(), " videos");
            proof {
                let line = decimal(videos.len()) + " videos"@;
                lemma_join_push(lines, line);
                lines = lines.push(line);
            }
            let mut v: usize = 0;
            while v < self.videos.len()
                invariant
                    v <= self.videos.len(),
                    videos == views(self.videos@),
                    text@ == join_lines(lines),
                    lines == first + (seq![decimal(videos.len()) + " videos"@] + title_lines(
                        videos,
                    ).take(v as int)),
                decreases self.videos.len() - v,
            {
                text.append(self.videos[v].title.as_str());
                text.push('\n');
                proof {
                    let line = videos[v as int].title;
                    lemma_join_push(lines, line);
                    lines = lines.push(line);
                }
                v += 1;
            }
            assert(title_lines(videos).take(v as int) == title_lines(videos));
        }
        text
    }
}

/// How many parts the media variants `medias` have in all.
pub open spec fn parts_count(medias: Seq<MediaView>) -> nat
    decreases medias.len(),
{
    if medias.len() == 0 {
        0
    } else {
        parts_count(medias.drop_last()) + medias.last().parts.len()
    }
}

/// How many parts the records `records` have in all.
pub open spec fn records_parts_count(records: Seq<RecordView>) -> nat
    decreases records.len(),
{
    if records.len() == 0 {
        0
    } else {
        records_parts_count(records.drop_last()) + parts_count(records.last().medias)
    }
}

/// A record gives one entry for each of its parts.
pub proof fn lemma_medias_items_len(
    medias: Seq<MediaView>,
    extra: Seq<TrackDataView>,
    rewrite_from: Option<Seq<char>>,
    rewrite_to: Option<Seq<char>>,
    track_path: TrackPathView,
)
    ensures
        medias_items(medias, extra, rewrite_from, rewrite_to, track_path).len() == parts_count(
            medias,
        ),
    decreases medias.len(),
{
    if medias.len() > 0 {
        lemma_medias_items_len(medias.drop_last(), extra, rewrite_from, rewrite_to, track_path);
    }
}

/// Records give one entry for each of their parts.
pub proof fn lemma_records_items_len(
    records: Seq<RecordView>,
    rewrite_from: Option<Seq<char>>,
    rewrite_to: Option<Seq<char>>,
    track_path: TrackPathView,
)
    ensures
        records_items(records, rewrite_from, rewrite_to, track_path).len() == records_parts_count(
            records,
        ),
    decreases records.len(),
{
    if records.len() > 0 {
        lemma_records_items_len(records.drop_last(), rewrite_from, rewrite_to, track_path);
        lemma_medias_items_len(
            records.last().medias,
            labels(records.last()),
            rewrite_from,
            rewrite_to,
            track_path,
        );
    }
}

/// A playlist gives one entry for each part of its tracks and videos:
/// nothing is left out and nothing is added.
pub proof fn lemma_container_items_len(
    container: MediaContainerView,
    rewrite_from: Option<Seq<char>>,
    rewrite_to: Option<Seq<char>>,
    track_path: TrackPathView,
)
    ensures
        container_items(container, rewrite_from, rewrite_to, track_path).len()
            == records_parts_count(container.tracks) + records_parts_count(container.videos),
{
    lemma_records_items_len(container.tracks, rewrite_from, rewrite_to, track_path);
    lemma_records_items_len(container.videos, rewrite_from, rewrite_to, track_path);
}

/// Without a text to replace, the path of an entry is the path of the part's
/// file, whatever the replacement; and every entry carries the key and the
/// file path of its part as its first two tags.
pub proof fn lemma_part_item(
    part: PartView,
    extra: Seq<TrackDataView>,
    rewrite_from: Option<Seq<char>>,
    rewrite_to: Option<Seq<char>>,
    track_path: TrackPathView,
)
    ensures
        rewrite_from is None ==> part_item(part, extra, rewrite_from, rewrite_to, track_path).path
            == raw_name(part, track_path),
        rewrite_from is None && track_path is File ==> part_item(
            part,
            extra,
            rewrite_from,
            rewrite_to,
            track_path,
        ).path == part.file,
        part_item(part, extra, rewrite_from, rewrite_to, track_path).metadata[0]
            == TrackDataView::Key(part.key),
        part_item(part, extra, rewrite_from, rewrite_to, track_path).metadata[1]
            == TrackDataView::FilePath(part.file),
        part_item(part, extra, rewrite_from, rewrite_to, track_path).metadata.skip(2) == extra,
{
}

} // verus!
