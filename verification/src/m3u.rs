//! The playlist document and its text format.
//!
//! A document is a list of entries, each a path with its tags, and a list of
//! tags of the document itself. On disk it is a line-oriented text: a header
//! line, one line per tag, one line per path. `write` gives the text of a
//! document, `read` the document of a text.

use crate::lines::{join_lines, lemma_join_push, next_line, split_lines};
use crate::number::{decimal, parse_u32, parse_u32_spec, push_decimal};
use crate::text::{chars_of, find_char, position, range_is, string_from, strip_prefix_at, views};
use vstd::prelude::*;

pub mod laws;

verus! {

/// The line that every playlist starts with.
pub open spec fn header() -> Seq<char> {
    "#EXTM3U"@
}

/// What every tag line starts with.
pub open spec fn tag_prefix() -> Seq<char> {
    "#PLEXM3U_"@
}

/// What the name of every label starts with.
pub open spec fn label_prefix() -> Seq<char> {
    "EXT"@
}

/// A playlist: its entries in order, and the tags of the playlist itself in
/// the order in which they were added.
#[derive(Debug, PartialEq, Eq)]
pub struct M3U {
    pub tracks: Vec<Item>,
    pub metadata: Vec<Metadata>,
}

/// One entry of a playlist: a path and the tags that belong to it.
#[derive(Debug, PartialEq, Eq)]
pub struct Item {
    pub path: String,
    pub metadata: Vec<TrackData>,
}

/// A tag of one entry.
#[derive(Debug, PartialEq, Eq)]
pub enum TrackData {
    /// The key under which the library serves the entry's media part.
    Key(String),
    /// The path of the file as the library reports it.
    FilePath(String),
    /// A label under the name of a directive of extended playlists, such as
    /// `EXTART` for the artist or `EXTALB` for the album.
    ExtM3u(String, String),
}

/// A tag as the text format knows it: of the playlist, or of an entry.
#[derive(Debug, PartialEq, Eq)]
pub enum Metadata {
    /// The identifier of the playlist in the library.
    RatingKey(u32),
    /// The title of the playlist.
    Title(String),
    /// The text that was replaced in each path when the playlist was made.
    RewriteFrom(String),
    /// The text that was put in its place.
    RewriteTo(String),
    /// A tag of an entry.
    TrackData(TrackData),
}

/// The kinds of tag that the text format knows.
#[derive(Debug, PartialEq, Eq, Structural, Clone, Copy)]
pub enum MetadataKind {
    RatingKey,
    Title,
    RewriteFrom,
    RewriteTo,
    TrackData,
}

/// What can say which playlist tags describe it.
pub trait WithMetadata {
    /// The tags, as a mathematical sequence.
    spec fn metadata_spec(&self) -> Seq<MetadataView>;

    /// The tags.
    fn metadata(&self) -> (tags: Vec<Metadata>)
        ensures
            views(tags@) == self.metadata_spec(),
    ;
}

/// One `key:value` pair of the text format.
pub struct M3UAttribute {
    key: String,
    value: String,
}

/// The mathematical value of a `TrackData`.
pub enum TrackDataView {
    Key(Seq<char>),
    FilePath(Seq<char>),
    ExtM3u(Seq<char>, Seq<char>),
}

/// The mathematical value of a `Metadata`.
pub enum MetadataView {
    RatingKey(u32),
    Title(Seq<char>),
    RewriteFrom(Seq<char>),
    RewriteTo(Seq<char>),
    TrackData(TrackDataView),
}

/// The mathematical value of an `Item`.
pub struct ItemView {
    pub path: Seq<char>,
    pub metadata: Seq<TrackDataView>,
}

/// The mathematical value of an `M3U`.
pub struct M3UView {
    pub tracks: Seq<ItemView>,
    pub metadata: Seq<MetadataView>,
}

/// The mathematical value of an `M3UAttribute`.
pub struct AttributeView {
    pub key: Seq<char>,
    pub value: Seq<char>,
}

impl View for TrackData {
    type V = TrackDataView;

    open spec fn view(&self) -> TrackDataView {
        match self {
            TrackData::Key(key) => TrackDataView::Key(key@),
            TrackData::FilePath(path) => TrackDataView::FilePath(path@),
            TrackData::ExtM3u(name, value) => TrackDataView::ExtM3u(name@, value@),
        }
    }
}

impl View for Metadata {
    type V = MetadataView;

    open spec fn view(&self) -> MetadataView {
        match self {
            Metadata::RatingKey(rating_key) => MetadataView::RatingKey(*rating_key),
            Metadata::Title(title) => MetadataView::Title(title@),
            Metadata::RewriteFrom(from) => MetadataView::RewriteFrom(from@),
            Metadata::RewriteTo(to) => MetadataView::RewriteTo(to@),
            Metadata::TrackData(track_data) => MetadataView::TrackData(track_data@),
        }
    }
}

impl View for Item {
    type V = ItemView;

    open spec fn view(&self) -> ItemView {
        ItemView { path: self.path@, metadata: views(self.metadata@) }
    }
}

impl View for M3U {
    type V = M3UView;

    open spec fn view(&self) -> M3UView {
        M3UView { tracks: views(self.tracks@), metadata: views(self.metadata@) }
    }
}

impl View for M3UAttribute {
    type V = AttributeView;

    closed spec fn view(&self) -> AttributeView {
        AttributeView { key: self.key@, value: self.value@ }
    }
}

/// The pair under which an entry's tag is written.
pub open spec fn track_data_attribute(tag: TrackDataView) -> AttributeView {
    match tag {
        TrackDataView::Key(key) => AttributeView { key: "TRACK_KEY"@, value: key },
        TrackDataView::FilePath(path) => AttributeView { key: "FILE_PATH"@, value: path },
        TrackDataView::ExtM3u(name, value) => AttributeView { key: name, value },
    }
}

/// The pair under which a tag is written.
pub open spec fn metadata_attribute(tag: MetadataView) -> AttributeView {
    match tag {
        MetadataView::RatingKey(rating_key) => AttributeView {
            key: "RATING_KEY"@,
            value: decimal(rating_key as nat),
        },
        MetadataView::Title(title) => AttributeView { key: "TITLE"@, value: title },
        MetadataView::RewriteFrom(from) => AttributeView { key: "REWRITE_FROM"@, value: from },
        MetadataView::RewriteTo(to) => AttributeView { key: "REWRITE_TO"@, value: to },
        MetadataView::TrackData(track_data) => track_data_attribute(track_data),
    }
}

/// A pair as it stands in the text, without the `#` that opens its line.
pub open spec fn attribute_text(attribute: AttributeView) -> Seq<char> {
    "PLEXM3U_"@ + attribute.key + seq![':'] + attribute.value
}

/// The line that holds `tag`.
pub open spec fn tag_line(tag: MetadataView) -> Seq<char> {
    seq!['#'] + attribute_text(metadata_attribute(tag))
}

/// The kind of `tag`.
pub open spec fn kind_of(tag: MetadataView) -> MetadataKind {
    match tag {
        MetadataView::RatingKey(_) => MetadataKind::RatingKey,
        MetadataView::Title(_) => MetadataKind::Title,
        MetadataView::RewriteFrom(_) => MetadataKind::RewriteFrom,
        MetadataView::RewriteTo(_) => MetadataKind::RewriteTo,
        MetadataView::TrackData(_) => MetadataKind::TrackData,
    }
}

/// The first tag of the kind `kind` among `tags`.
pub open spec fn first_of_kind(tags: Seq<MetadataView>, kind: MetadataKind) -> Option<
    MetadataView,
>
    decreases tags.len(),
{
    if tags.len() == 0 {
        None
    } else if kind_of(tags[0]) == kind {
        Some(tags[0])
    } else {
        first_of_kind(tags.skip(1), kind)
    }
}

/// The key of the first `Key` tag among `tags`.
pub open spec fn first_key(tags: Seq<TrackDataView>) -> Option<Seq<char>>
    decreases tags.len(),
{
    if tags.len() == 0 {
        None
    } else {
        match tags[0] {
            TrackDataView::Key(key) => Some(key),
            _ => first_key(tags.skip(1)),
        }
    }
}

/// The title of the first `Title` tag among `tags`.
pub open spec fn first_title(tags: Seq<MetadataView>) -> Option<Seq<char>>
    decreases tags.len(),
{
    if tags.len() == 0 {
        None
    } else {
        match tags[0] {
            MetadataView::Title(title) => Some(title),
            _ => first_title(tags.skip(1)),
        }
    }
}

/// The tag that a key and a value stand for. The six keys of the format give
/// their own tags; `RATING_KEY` only with a number as its value. A key that
/// begins with `EXT` names a label of an entry. Any other key is unknown, and
/// stands for no tag.
pub open spec fn decode(key: Seq<char>, value: Seq<char>) -> Option<MetadataView> {
    if key == "RATING_KEY"@ {
        match parse_u32_spec(value) {
            Some(rating_key) => Some(MetadataView::RatingKey(rating_key)),
            None => None,
        }
    } else if key == "TITLE"@ {
        Some(MetadataView::Title(value))
    } else if key == "REWRITE_FROM"@ {
        Some(MetadataView::RewriteFrom(value))
    } else if key == "REWRITE_TO"@ {
        Some(MetadataView::RewriteTo(value))
    } else if key == "TRACK_KEY"@ {
        Some(MetadataView::TrackData(TrackDataView::Key(value)))
    } else if key == "FILE_PATH"@ {
        Some(MetadataView::TrackData(TrackDataView::FilePath(value)))
    } else if label_prefix().is_prefix_of(key) {
        Some(MetadataView::TrackData(TrackDataView::ExtM3u(key, value)))
    } else {
        None
    }
}

/// The tag that `line` holds. A tag line is the tag prefix, a key, a colon
/// and a value; the key ends at the first colon after the prefix. A line of
/// any other shape, or one whose pair stands for no tag, holds none.
pub open spec fn parse_line(line: Seq<char>) -> Option<MetadataView> {
    if tag_prefix().is_prefix_of(line) {
        let rest = line.skip(tag_prefix().len() as int);
        let colon = position(rest, ':');
        if 0 <= colon < rest.len() {
            decode(rest.take(colon), rest.skip(colon + 1))
        } else {
            None
        }
    } else {
        None
    }
}

impl Clone for TrackData {
    fn clone(&self) -> (copy: Self)
        ensures
            copy@ == self@,
    {
        match self {
            TrackData::Key(key) => TrackData::Key(key.clone()),
            TrackData::FilePath(path) => TrackData::FilePath(path.clone()),
            TrackData::ExtM3u(name, value) => TrackData::ExtM3u(name.clone(), value.clone()),
        }
    }
}

impl Clone for Item {
    fn clone(&self) -> (copy: Self)
        ensures
            copy@ == self@,
    {
        let mut metadata: Vec<TrackData> = Vec::new();
        let mut i: usize = 0;
        while i < self.metadata.len()
            invariant
                i <= self.metadata.len(),
                metadata.len() == i,
                forall|k: int| 0 <= k < i ==> metadata@[k]@ == self.metadata@[k]@,
            decreases self.metadata.len() - i,
        {
            metadata.push(self.metadata[i].clone());
            i += 1;
        }
        assert(views(metadata@) == views(self.metadata@));
        Item { path: self.path.clone(), metadata }
    }
}

impl M3U {
    /// A playlist of the given entries and tags.
    pub fn new(tracks: Vec<Item>, metadata: Vec<Metadata>) -> (m3u: M3U)
        ensures
            m3u.tracks == tracks,
            m3u.metadata == metadata,
    {
        M3U { tracks, metadata }
    }

    /// How many entries the playlist has.
    pub fn track_count(&self) -> (count: usize)
        ensures
            count == self@.tracks.len(),
    {
        self.tracks.len()
    }

    /// The first tag of the playlist that is of the kind `kind`.
    pub fn find(&self, kind: MetadataKind) -> (tag: Option<&Metadata>)
        ensures
            match tag {
                Some(t) => first_of_kind(self@.metadata, kind) == Some(t@),
                None => first_of_kind(self@.metadata, kind) is None,
            },
    {
        let ghost tags = self@.metadata;
        assert(tags.skip(0) == tags);
        let mut i: usize = 0;
        while i < self.metadata.len()
            invariant
                i <= self.metadata.len(),
                tags == views(self.metadata@),
                first_of_kind(tags, kind) == first_of_kind(tags.skip(i as int), kind),
            decreases self.metadata.len() - i,
        {
            assert(tags.skip(i as int).skip(1) == tags.skip(i + 1));
            if self.metadata[i].kind() == kind {
                return Some(&self.metadata[i]);
            }
            i += 1;
        }
        None
    }

    /// The title of the playlist: that of its first `Title` tag.
    pub fn title(&self) -> (title: Option<String>)
        ensures
            match title {
                Some(t) => first_title(self@.metadata) == Some(t@),
                None => first_title(self@.metadata) is None,
            },
    {
        let ghost tags = self@.metadata;
        assert(tags.skip(0) == tags);
        let mut i: usize = 0;
        while i < self.metadata.len()
            invariant
                i <= self.metadata.len(),
                tags == views(self.metadata@),
                first_title(tags) == first_title(tags.skip(i as int)),
            decreases self.metadata.len() - i,
        {
            assert(tags.skip(i as int).skip(1) == tags.skip(i + 1));
            if let Metadata::Title(title) = &self.metadata[i] {
                return Some(title.clone());
            }
            i += 1;
        }
        None
    }
}

impl M3UAttribute {
    /// The pair of `key` and `value`.
    pub fn new(key: String, value: String) -> (attribute: M3UAttribute)
        ensures
            attribute@ == (AttributeView { key: key@, value: value@ }),
    {
        M3UAttribute { key, value }
    }

    /// The pair as it stands in the text, without the `#` that opens its line.
    pub fn to_string(&self) -> (text: String)
        ensures
            text@ == attribute_text(self@),
    {
        let mut text = String::from_str("PLEXM3U_");
        text.append(self.key.as_str());
        text.push(':');
        text.append(self.value.as_str());
        text
    }
}

impl TrackData {
    /// The pair under which the tag is written.
    pub fn format(&self) -> (attribute: M3UAttribute)
        ensures
            attribute@ == track_data_attribute(self@),
    {
        match self {
            TrackData::Key(key) => M3UAttribute::new(String::from_str("TRACK_KEY"), key.clone()),
            TrackData::FilePath(path) => M3UAttribute::new(
                String::from_str("FILE_PATH"),
                path.clone(),
            ),
            TrackData::ExtM3u(name, value) => M3UAttribute::new(name.clone(), value.clone()),
        }
    }

    /// Whether the tag is the key of the entry's media part.
    pub fn is_key(&self) -> (b: bool)
        ensures
            b == (self@ is Key),
    {
        match self {
            TrackData::Key(_) => true,
            _ => false,
        }
    }
}

impl Metadata {
    /// The pair under which the tag is written.
    pub fn format(&self) -> (attribute: M3UAttribute)
        ensures
            attribute@ == metadata_attribute(self@),
    {
        match self {
            Metadata::RatingKey(rating_key) => {
                let mut value = String::new();
                push_decimal(&mut value, *rating_key as u64);
                M3UAttribute::new(String::from_str("RATING_KEY"), value)
            },
            Metadata::Title(title) => M3UAttribute::new(String::from_str("TITLE"), title.clone()),
            Metadata::RewriteFrom(from) => M3UAttribute::new(
                String::from_str("REWRITE_FROM"),
                from.clone(),
            ),
            Metadata::RewriteTo(to) => M3UAttribute::new(
                String::from_str("REWRITE_TO"),
                to.clone(),
            ),
            Metadata::TrackData(track_data) => track_data.format(),
        }
    }

    /// The kind of the tag.
    pub fn kind(&self) -> (kind: MetadataKind)
        ensures
            kind == kind_of(self@),
    {
        match self {
            Metadata::RatingKey(_) => MetadataKind::RatingKey,
            Metadata::Title(_) => MetadataKind::Title,
            Metadata::RewriteFrom(_) => MetadataKind::RewriteFrom,
            Metadata::RewriteTo(_) => MetadataKind::RewriteTo,
            Metadata::TrackData(_) => MetadataKind::TrackData,
        }
    }

    /// Whether the tag is a title.
    pub fn is_title(&self) -> (b: bool)
        ensures
            b == (self@ is Title),
    {
        match self {
            Metadata::Title(_) => true,
            _ => false,
        }
    }

    /// The tag that the line `input` holds, if it holds one.
    pub fn parse(input: String) -> (tag: Option<Metadata>)
        ensures
            match tag {
                Some(t) => parse_line(input@) == Some(t@),
                None => parse_line(input@) is None,
            },
    {
        let chars = chars_of(input.as_str());
        assert(chars@.subrange(0, chars@.len() as int) == input@);
        parse_range(&chars, 0, chars.len())
    }
}

impl Item {
    /// The entry of `path` with the tags `metadata`.
    pub fn new(path: String, metadata: Vec<TrackData>) -> (item: Item)
        ensures
            item.path == path,
            item.metadata == metadata,
    {
        Item { path, metadata }
    }

    /// The key of the entry's media part: that of its first `Key` tag.
    pub fn track_key(&self) -> (key: Option<String>)
        ensures
            match key {
                Some(k) => first_key(self@.metadata) == Some(k@),
                None => first_key(self@.metadata) is None,
            },
    {
        let ghost tags = self@.metadata;
        assert(tags.skip(0) == tags);
        let mut i: usize = 0;
        while i < self.metadata.len()
            invariant
                i <= self.metadata.len(),
                tags == views(self.metadata@),
                first_key(tags) == first_key(tags.skip(i as int)),
            decreases self.metadata.len() - i,
        {
            assert(tags.skip(i as int).skip(1) == tags.skip(i + 1));
            if let TrackData::Key(key) = &self.metadata[i] {
                return Some(key.clone());
            }
            i += 1;
        }
        None
    }
}

/// The tag that the line `v[from..to]` holds, if it holds one.
pub fn parse_range(v: &Vec<char>, from: usize, to: usize) -> (tag: Option<Metadata>)
    requires
        from <= to <= v.len(),
    ensures
        match tag {
            Some(t) => parse_line(v@.subrange(from as int, to as int)) == Some(t@),
            None => parse_line(v@.subrange(from as int, to as int)) is None,
        },
{
    let ghost line = v@.subrange(from as int, to as int);
    match strip_prefix_at(v, from, to, "#PLEXM3U_") {
        None => None,
        Some(start) => {
            let ghost rest = line.skip(tag_prefix().len() as int);
            assert(rest == v@.subrange(start as int, to as int));
            let colon = find_char(v, start, to, ':');
            if colon == to {
                None
            } else {
                assert(rest.take(colon - start) == v@.subrange(start as int, colon as int));
                assert(rest.skip(colon - start + 1) == v@.subrange(colon + 1, to as int));
                decode_range(v, start, colon, to)
            }
        },
    }
}

/// The tag that the key `v[start..colon]` and the value `v[colon + 1..to]`
/// stand for.
fn decode_range(v: &Vec<char>, start: usize, colon: usize, to: usize) -> (tag: Option<Metadata>)
    requires
        start <= colon < to <= v.len(),
    ensures
        match tag {
            Some(t) => decode(
                v@.subrange(start as int, colon as int),
                v@.subrange(colon + 1, to as int),
            ) == Some(t@),
            None => decode(
                v@.subrange(start as int, colon as int),
                v@.subrange(colon + 1, to as int),
            ) is None,
        },
{
    if range_is(v, start, colon, "RATING_KEY") {
        match parse_u32(v, colon + 1, to) {
            Some(rating_key) => Some(Metadata::RatingKey(rating_key)),
            None => None,
        }
    } else if range_is(v, start, colon, "TITLE") {
        Some(Metadata::Title(string_from(v, colon + 1, to)))
    } else if range_is(v, start, colon, "REWRITE_FROM") {
        Some(Metadata::RewriteFrom(string_from(v, colon + 1, to)))
    } else if range_is(v, start, colon, "REWRITE_TO") {
        Some(Metadata::RewriteTo(string_from(v, colon + 1, to)))
    } else if range_is(v, start, colon, "TRACK_KEY") {
        Some(Metadata::TrackData(TrackData::Key(string_from(v, colon + 1, to))))
    } else if range_is(v, start, colon, "FILE_PATH") {
        Some(Metadata::TrackData(TrackData::FilePath(string_from(v, colon + 1, to))))
    } else if strip_prefix_at(v, start, colon, "EXT").is_some() {
        Some(
            Metadata::TrackData(
                TrackData::ExtM3u(string_from(v, start, colon), string_from(v, colon + 1, to)),
            ),
        )
    } else {
        None
    }
}

/// The lines of the tags `tags`, one line each.
pub open spec fn metadata_lines(tags: Seq<MetadataView>) -> Seq<Seq<char>> {
    Seq::new(tags.len(), |i: int| tag_line(tags[i]))
}

/// The line that shows the title to players that know nothing of the tags:
/// present where `tags` holds a title, and made of its first one.
pub open spec fn playlist_lines(tags: Seq<MetadataView>) -> Seq<Seq<char>> {
    match first_title(tags) {
        Some(title) => seq!["#PLAYLIST:"@ + title],
        None => Seq::empty(),
    }
}

/// The lines of the tags of one entry, one line each.
pub open spec fn track_data_lines(tags: Seq<TrackDataView>) -> Seq<Seq<char>> {
    Seq::new(tags.len(), |i: int| tag_line(MetadataView::TrackData(tags[i])))
}

/// The lines of one entry: its tags, then its path.
pub open spec fn item_lines(item: ItemView) -> Seq<Seq<char>> {
    track_data_lines(item.metadata).push(item.path)
}

/// The lines of the entries `tracks`, entry after entry.
pub open spec fn tracks_lines(tracks: Seq<ItemView>) -> Seq<Seq<char>>
    decreases tracks.len(),
{
    if tracks.len() == 0 {
        Seq::empty()
    } else {
        tracks_lines(tracks.drop_last()) + item_lines(tracks.last())
    }
}

/// The lines of a playlist: the header, the tags of the playlist, the title
/// line where there is a title, then the entries.
pub open spec fn document_lines(m3u: M3UView) -> Seq<Seq<char>> {
    seq![header()] + metadata_lines(m3u.metadata) + playlist_lines(m3u.metadata) + tracks_lines(
        m3u.tracks,
    )
}

/// The text of a playlist.
pub open spec fn write_spec(m3u: M3UView) -> Seq<char> {
    join_lines(document_lines(m3u))
}

/// Appends the line of the pair `attribute` to `out`.
fn write_tag_line(out: &mut String, attribute: &M3UAttribute)
    ensures
        final(out)@ == old(out)@ + (seq!['#'] + attribute_text(attribute@)) + seq!['\n'],
{
    out.push('#');
    let text = attribute.to_string();
    out.append(text.as_str());
    out.push('\n');
}

/// The text of the playlist `m3u`: the same playlist always gives the same
/// text.
pub fn write(m3u: &M3U) -> (text: String)
    ensures
        text@ == write_spec(m3u@),
{
    let ghost doc = m3u@;
    let mut out = String::from_str("#EXTM3U");
    out.push('\n');
    let ghost mut lines: Seq<Seq<char>> = seq![header()];
    proof {
        lemma_join_push(Seq::empty(), header());
    }
    let mut i: usize = 0;
    while i < m3u.metadata.len()
        invariant
            i <= m3u.metadata.len(),
            doc == m3u@,
            out@ == join_lines(lines),
            lines == seq![header()] + metadata_lines(doc.metadata).take(i as int),
        decreases m3u.metadata.len() - i,
    {
        let attribute = m3u.metadata[i].format();
        write_tag_line(&mut out, &attribute);
        proof {
            let line = tag_line(doc.metadata[i as int]);
            lemma_join_push(lines, line);
            lines = lines.push(line);
        }
        i += 1;
    }
    if let Some(title) = m3u.title() {
        out.append("#PLAYLIST:");
        out.append(title.as_str());
        out.push('\n');
        proof {
            let line = "#PLAYLIST:"@ + title@;
            lemma_join_push(lines, line);
            lines = lines.push(line);
        }
    }
    let ghost head = lines;
    let mut t: usize = 0;
    while t < m3u.tracks.len()
        invariant
            t <= m3u.tracks.len(),
            doc == m3u@,
            out@ == join_lines(lines),
            head == seq![header()] + metadata_lines(doc.metadata) + playlist_lines(doc.metadata),
            lines == head + tracks_lines(doc.tracks.take(t as int)),
        decreases m3u.tracks.len() - t,
    {
        let item = &m3u.tracks[t];
        let ghost before = lines;
        let ghost tags = doc.tracks[t as int].metadata;
        let mut j: usize = 0;
        while j < item.metadata.len()
            invariant
                j <= item.metadata.len(),
                tags == views(item.metadata@),
                out@ == join_lines(lines),
                lines == before + track_data_lines(tags).take(j as int),
            decreases item.metadata.len() - j,
        {
            let attribute = item.metadata[j].format();
            write_tag_line(&mut out, &attribute);
            proof {
                let line = tag_line(MetadataView::TrackData(tags[j as int]));
                lemma_join_push(lines, line);
                lines = lines.push(line);
            }
            j += 1;
        }
        out.append(item.path.as_str());
        out.push('\n');
        proof {
            let line = item.path@;
            lemma_join_push(lines, line);
            let grown = doc.tracks.take(t + 1);
            assert(grown.drop_last() == doc.tracks.take(t as int));
            lines = lines.push(line);
        }
        t += 1;
    }
    assert(doc.tracks.take(t as int) == doc.tracks);
    out
}

/// Why a text is no playlist.
#[derive(Debug, PartialEq, Eq)]
pub enum ReadError {
    /// The text does not start with the header line.
    MalformedDocument,
}

/// What has been read of a playlist so far.
pub struct ReadState {
    /// The entries that are complete.
    pub tracks: Seq<ItemView>,
    /// The tags read since the last path: those of the entry to come.
    pub pending: Seq<TrackDataView>,
    /// The tags of the playlist.
    pub metadata: Seq<MetadataView>,
}

/// Nothing read yet.
pub open spec fn start_state() -> ReadState {
    ReadState { tracks: Seq::empty(), pending: Seq::empty(), metadata: Seq::empty() }
}

/// Whether `line` is a comment: it starts with `#`.
pub open spec fn is_comment(line: Seq<char>) -> bool {
    line.len() > 0 && line[0] == '#'
}

/// What has been read once `line` is read too. A tag of an entry waits for
/// the entry's path; a tag of the playlist joins the playlist's tags, wherever
/// it stands; any other line that starts with `#` is passed over; every other
/// line is the path of an entry, which takes the waiting tags.
pub open spec fn absorb(state: ReadState, line: Seq<char>) -> ReadState {
    match parse_line(line) {
        Some(MetadataView::TrackData(tag)) => ReadState {
            pending: state.pending.push(tag),
            ..state
        },
        Some(tag) => ReadState { metadata: state.metadata.push(tag), ..state },
        None => if is_comment(line) {
            state
        } else {
            ReadState {
                tracks: state.tracks.push(ItemView { path: line, metadata: state.pending }),
                pending: Seq::empty(),
                metadata: state.metadata,
            }
        },
    }
}

/// What has been read once `lines` are read too, in order.
pub open spec fn absorb_all(state: ReadState, lines: Seq<Seq<char>>) -> ReadState
    decreases lines.len(),
{
    if lines.len() == 0 {
        state
    } else {
        absorb(absorb_all(state, lines.drop_last()), lines.last())
    }
}

/// The playlist that the lines `lines` hold. The first line must be the
/// header; tags that no path follows are lost.
pub open spec fn read_lines(lines: Seq<Seq<char>>) -> Result<M3UView, ReadError> {
    if lines.len() > 0 && lines[0] == header() {
        let state = absorb_all(start_state(), lines.skip(1));
        Ok(M3UView { tracks: state.tracks, metadata: state.metadata })
    } else {
        Err(ReadError::MalformedDocument)
    }
}

/// The playlist that `text` holds.
pub open spec fn read_spec(text: Seq<char>) -> Result<M3UView, ReadError> {
    read_lines(split_lines(text))
}

/// The playlist that `text` holds. A text whose first line is not the header
/// is refused whole.
pub fn read(text: &str) -> (result: Result<M3U, ReadError>)
    ensures
        match result {
            Ok(m3u) => read_spec(text@) == Ok::<M3UView, ReadError>(m3u@),
            Err(error) => read_spec(text@) == Err::<M3UView, ReadError>(error),
        },
{
    let chars = chars_of(text);
    let len = chars.len();
    let ghost all = split_lines(chars@);
    assert(chars@.skip(0) == chars@);
    if len == 0 {
        return Err(ReadError::MalformedDocument);
    }
    let first = next_line(&chars, 0);
    if !range_is(&chars, 0, first.end, "#EXTM3U") {
        return Err(ReadError::MalformedDocument);
    }
    let mut tracks: Vec<Item> = Vec::new();
    let mut pending: Vec<TrackData> = Vec::new();
    let mut metadata: Vec<Metadata> = Vec::new();
    let ghost mut done: Seq<Seq<char>> = Seq::empty();
    let mut pos: usize = first.next;
    assert(views(tracks@) == Seq::<ItemView>::empty());
    assert(views(pending@) == Seq::<TrackDataView>::empty());
    assert(views(metadata@) == Seq::<MetadataView>::empty());
    while pos < len
        invariant
            pos <= len,
            len == chars.len(),
            all.skip(1) == done + split_lines(chars@.skip(pos as int)),
            absorb_all(start_state(), done) == (ReadState {
                tracks: views(tracks@),
                pending: views(pending@),
                metadata: views(metadata@),
            }),
        decreases len - pos,
    {
        let bounds = next_line(&chars, pos);
        let ghost line = chars@.subrange(pos as int, bounds.end as int);
        let ghost before = absorb_all(start_state(), done);
        assert(done.push(line).drop_last() == done);
        match parse_range(&chars, pos, bounds.end) {
            Some(Metadata::TrackData(tag)) => {
                pending.push(tag);
                assert(views(pending@) == before.pending.push(tag@));
            },
            Some(tag) => {
                metadata.push(tag);
                assert(views(metadata@) == before.metadata.push(tag@));
            },
            None => {
                if !(pos < bounds.end && chars[pos] == '#') {
                    let path = string_from(&chars, pos, bounds.end);
                    let item = Item::new(path, pending);
                    tracks.push(item);
                    pending = Vec::new();
                    assert(views(tracks@) == before.tracks.push(
                        ItemView { path: line, metadata: before.pending },
                    ));
                    assert(views(pending@) == Seq::<TrackDataView>::empty());
                }
            },
        }
        proof {
            done = done.push(line);
        }
        pos = bounds.next;
    }
    Ok(M3U { tracks, metadata })
}

} // verus!
