//! What holds of the text format: which playlists come back unchanged from
//! their own text, and which lines a reader passes over.

use crate::lines::{all_fit, fits_on_line, join_lines, lemma_split_join, split_lines};
use crate::m3u::{
    absorb, absorb_all, decode, document_lines, first_title, header, is_comment,
    item_lines, label_prefix, metadata_attribute, metadata_lines, parse_line, playlist_lines, read_lines,
    read_spec, start_state, tag_line, tag_prefix, track_data_lines, tracks_lines, write_spec,
    ItemView, M3UView, MetadataView, ReadError, ReadState, TrackDataView,
};
use crate::number::{decimal, is_digit, lemma_decimal, lemma_parse_decimal};
use crate::text::lemma_position_is;
use vstd::prelude::*;

verus! {

/// Whether `s` holds neither a colon nor a line feed.
pub open spec fn is_key_text(s: Seq<char>) -> bool {
    forall|i: int| 0 <= i < s.len() ==> s[i] != ':' && s[i] != '\n'
}

/// Whether a reader knows `name` for the name of a label: it begins with
/// `EXT`, and holds neither a colon nor a line feed.
pub open spec fn is_label_name(name: Seq<char>) -> bool {
    &&& label_prefix().is_prefix_of(name)
    &&& is_key_text(name)
}

/// Whether the text format keeps an entry's tag as it is.
pub open spec fn storable_track_data(tag: TrackDataView) -> bool {
    match tag {
        TrackDataView::Key(key) => fits_on_line(key),
        TrackDataView::FilePath(path) => fits_on_line(path),
        TrackDataView::ExtM3u(name, value) => is_label_name(name) && fits_on_line(value),
    }
}

/// Whether the text format keeps a tag of the playlist as it is. A tag of an
/// entry is no tag of the playlist.
pub open spec fn storable_metadata(tag: MetadataView) -> bool {
    match tag {
        MetadataView::RatingKey(_) => true,
        MetadataView::Title(title) => fits_on_line(title),
        MetadataView::RewriteFrom(from) => fits_on_line(from),
        MetadataView::RewriteTo(to) => fits_on_line(to),
        MetadataView::TrackData(_) => false,
    }
}

/// Whether the text format keeps an entry as it is: its tags are kept, and
/// its path fits on a line and is no comment.
pub open spec fn storable_item(item: ItemView) -> bool {
    &&& fits_on_line(item.path)
    &&& !is_comment(item.path)
    &&& forall|i: int| 0 <= i < item.metadata.len() ==> storable_track_data(#[trigger] item.metadata[i])
}

/// Whether the text format keeps a playlist as it is.
pub open spec fn storable(m3u: M3UView) -> bool {
    &&& forall|i: int| 0 <= i < m3u.metadata.len() ==> storable_metadata(#[trigger] m3u.metadata[i])
    &&& forall|i: int| 0 <= i < m3u.tracks.len() ==> storable_item(#[trigger] m3u.tracks[i])
}

/// The words of the format, letter by letter.
proof fn lemma_words()
    ensures
        "#EXTM3U"@ == seq!['#', 'E', 'X', 'T', 'M', '3', 'U'],
        "#PLEXM3U_"@ == seq!['#', 'P', 'L', 'E', 'X', 'M', '3', 'U', '_'],
        "PLEXM3U_"@ == seq!['P', 'L', 'E', 'X', 'M', '3', 'U', '_'],
        "#PLAYLIST:"@ == seq!['#', 'P', 'L', 'A', 'Y', 'L', 'I', 'S', 'T', ':'],
        "EXT"@ == seq!['E', 'X', 'T'],
        "RATING_KEY"@ == seq!['R', 'A', 'T', 'I', 'N', 'G', '_', 'K', 'E', 'Y'],
        "TITLE"@ == seq!['T', 'I', 'T', 'L', 'E'],
        "REWRITE_FROM"@ == seq!['R', 'E', 'W', 'R', 'I', 'T', 'E', '_', 'F', 'R', 'O', 'M'],
        "REWRITE_TO"@ == seq!['R', 'E', 'W', 'R', 'I', 'T', 'E', '_', 'T', 'O'],
        "TRACK_KEY"@ == seq!['T', 'R', 'A', 'C', 'K', '_', 'K', 'E', 'Y'],
        "FILE_PATH"@ == seq!['F', 'I', 'L', 'E', '_', 'P', 'A', 'T', 'H'],
{
    reveal_strlit("#EXTM3U");
    reveal_strlit("#PLEXM3U_");
    reveal_strlit("PLEXM3U_");
    reveal_strlit("#PLAYLIST:");
    reveal_strlit("EXT");
    reveal_strlit("RATING_KEY");
    reveal_strlit("TITLE");
    reveal_strlit("REWRITE_FROM");
    reveal_strlit("REWRITE_TO");
    reveal_strlit("TRACK_KEY");
    reveal_strlit("FILE_PATH");
    assert("REWRITE_FROM"@ =~= seq!['R', 'E', 'W', 'R', 'I', 'T', 'E', '_', 'F', 'R', 'O', 'M']);
}

/// The reserved keys differ from one another, and none holds a colon or a
/// line feed.
proof fn lemma_reserved_keys()
    ensures
        is_key_text("RATING_KEY"@),
        is_key_text("TITLE"@),
        is_key_text("REWRITE_FROM"@),
        is_key_text("REWRITE_TO"@),
        is_key_text("TRACK_KEY"@),
        is_key_text("FILE_PATH"@),
        "RATING_KEY"@ != "REWRITE_TO"@,
        "TRACK_KEY"@ != "FILE_PATH"@,
        "RATING_KEY"@.len() == 10,
        "TITLE"@.len() == 5,
        "REWRITE_FROM"@.len() == 12,
        "REWRITE_TO"@.len() == 10,
        "TRACK_KEY"@.len() == 9,
        "FILE_PATH"@.len() == 9,
{
    lemma_words();
}

/// The name of a label is none of the six keys of the format: none of them
/// begins as it does.
proof fn lemma_label_name(name: Seq<char>)
    requires
        label_prefix().is_prefix_of(name),
    ensures
        name != "RATING_KEY"@,
        name != "TITLE"@,
        name != "REWRITE_FROM"@,
        name != "REWRITE_TO"@,
        name != "TRACK_KEY"@,
        name != "FILE_PATH"@,
{
    lemma_words();
    assert(name[0] == label_prefix()[0]);
}

/// A line made of the tag prefix, a key without a colon, a colon and a value
/// holds the tag that the key and the value stand for.
pub proof fn lemma_parse_pair(key: Seq<char>, value: Seq<char>)
    requires
        forall|i: int| 0 <= i < key.len() ==> key[i] != ':',
    ensures
        parse_line(tag_prefix() + key + seq![':'] + value) == decode(key, value),
{
    let line = tag_prefix() + key + seq![':'] + value;
    let rest = line.skip(tag_prefix().len() as int);
    lemma_position_is(rest, ':', key.len() as int);
    assert(rest.take(key.len() as int) == key);
    assert(rest.skip(key.len() as int + 1) == value);
}

/// Such a line fits on a line where its key holds no line feed and its value
/// fits on a line.
proof fn lemma_pair_fits(key: Seq<char>, value: Seq<char>)
    requires
        is_key_text(key),
        fits_on_line(value),
    ensures
        fits_on_line(tag_prefix() + key + seq![':'] + value),
{
    lemma_words();
    let line = tag_prefix() + key + seq![':'] + value;
    if value.len() > 0 {
        assert(line.last() == value.last());
    } else {
        assert(line.last() == ':');
    }
}

/// The line of a tag, spelled with the tag prefix.
proof fn lemma_tag_line_shape(tag: MetadataView)
    ensures
        tag_line(tag) == tag_prefix() + metadata_attribute(tag).key + seq![':']
            + metadata_attribute(tag).value,
{
    lemma_words();
}

/// The decimal numeral of a number fits on a line.
proof fn lemma_decimal_fits(n: nat)
    ensures
        fits_on_line(decimal(n)),
{
    lemma_decimal(n);
}

/// The line of a storable tag of the playlist fits on a line, and holds that
/// tag.
pub proof fn lemma_metadata_line(tag: MetadataView)
    requires
        storable_metadata(tag),
    ensures
        fits_on_line(tag_line(tag)),
        parse_line(tag_line(tag)) == Some(tag),
{
    lemma_reserved_keys();
    lemma_tag_line_shape(tag);
    let a = metadata_attribute(tag);
    match tag {
        MetadataView::RatingKey(rating_key) => {
            lemma_decimal_fits(rating_key as nat);
            lemma_parse_decimal(rating_key);
        },
        _ => {},
    }
    lemma_parse_pair(a.key, a.value);
    lemma_pair_fits(a.key, a.value);
}

/// The line of a storable tag of an entry fits on a line, and holds that tag.
pub proof fn lemma_track_data_line(tag: TrackDataView)
    requires
        storable_track_data(tag),
    ensures
        fits_on_line(tag_line(MetadataView::TrackData(tag))),
        parse_line(tag_line(MetadataView::TrackData(tag))) == Some(MetadataView::TrackData(tag)),
{
    lemma_reserved_keys();
    if let TrackDataView::ExtM3u(name, _) = tag {
        lemma_label_name(name);
    }
    lemma_tag_line_shape(MetadataView::TrackData(tag));
    let a = metadata_attribute(MetadataView::TrackData(tag));
    lemma_parse_pair(a.key, a.value);
    lemma_pair_fits(a.key, a.value);
}

/// A path that is no comment holds no tag.
pub proof fn lemma_path_line(path: Seq<char>)
    requires
        !is_comment(path),
    ensures
        parse_line(path) is None,
{
    lemma_words();
}

/// The title line is a comment that holds no tag, and fits on a line where
/// the title does.
pub proof fn lemma_playlist_line(title: Seq<char>)
    ensures
        is_comment("#PLAYLIST:"@ + title),
        parse_line("#PLAYLIST:"@ + title) is None,
        fits_on_line(title) ==> fits_on_line("#PLAYLIST:"@ + title),
{
    lemma_words();
}

/// Reading two runs of lines in turn is reading their concatenation.
pub proof fn lemma_absorb_concat(state: ReadState, a: Seq<Seq<char>>, b: Seq<Seq<char>>)
    ensures
        absorb_all(state, a + b) == absorb_all(absorb_all(state, a), b),
    decreases b.len(),
{
    if b.len() > 0 {
        lemma_absorb_concat(state, a, b.drop_last());
        assert((a + b).drop_last() == a + b.drop_last());
    }
}

/// Reading one line is `absorb`.
pub proof fn lemma_absorb_one(state: ReadState, line: Seq<char>)
    ensures
        absorb_all(state, seq![line]) == absorb(state, line),
{
    assert(seq![line].drop_last() == Seq::<Seq<char>>::empty());
    assert(absorb_all(state, Seq::<Seq<char>>::empty()) == state);
}

/// Reading the lines of storable tags of the playlist adds those tags to the
/// playlist's, and changes nothing else.
proof fn lemma_absorb_metadata(state: ReadState, tags: Seq<MetadataView>)
    requires
        forall|i: int| 0 <= i < tags.len() ==> storable_metadata(#[trigger] tags[i]),
    ensures
        absorb_all(state, metadata_lines(tags)) == (ReadState {
            metadata: state.metadata + tags,
            ..state
        }),
        all_fit(metadata_lines(tags)),
    decreases tags.len(),
{
    let lines = metadata_lines(tags);
    if tags.len() > 0 {
        let front = tags.drop_last();
        lemma_absorb_metadata(state, front);
        assert(lines.drop_last() == metadata_lines(front));
        lemma_metadata_line(tags.last());
        assert((state.metadata + front).push(tags.last()) == state.metadata + tags);
        assert forall|i: int| 0 <= i < lines.len() implies fits_on_line(#[trigger] lines[i]) by {
            if i < lines.len() - 1 {
                assert(lines[i] == metadata_lines(front)[i]);
            }
        }
    }
}

/// Reading the lines of storable tags of an entry makes those tags wait, and
/// changes nothing else.
proof fn lemma_absorb_track_data(state: ReadState, tags: Seq<TrackDataView>)
    requires
        forall|i: int| 0 <= i < tags.len() ==> storable_track_data(#[trigger] tags[i]),
    ensures
        absorb_all(state, track_data_lines(tags)) == (ReadState {
            pending: state.pending + tags,
            ..state
        }),
        all_fit(track_data_lines(tags)),
    decreases tags.len(),
{
    let lines = track_data_lines(tags);
    if tags.len() == 0 {
        assert(state.pending + tags == state.pending);
    } else {
        let front = tags.drop_last();
        lemma_absorb_track_data(state, front);
        assert(lines.drop_last() == track_data_lines(front));
        lemma_track_data_line(tags.last());
        assert((state.pending + front).push(tags.last()) == state.pending + tags);
        assert forall|i: int| 0 <= i < lines.len() implies fits_on_line(#[trigger] lines[i]) by {
            if i < lines.len() - 1 {
                assert(lines[i] == track_data_lines(front)[i]);
            }
        }
    }
}

/// Reading the lines of a storable entry, with no tag waiting, adds that
/// entry and leaves no tag waiting.
proof fn lemma_absorb_item(state: ReadState, item: ItemView)
    requires
        storable_item(item),
        state.pending.len() == 0,
    ensures
        absorb_all(state, item_lines(item)) == (ReadState {
            tracks: state.tracks.push(item),
            pending: Seq::empty(),
            metadata: state.metadata,
        }),
        all_fit(item_lines(item)),
{
    let tags = track_data_lines(item.metadata);
    lemma_absorb_track_data(state, item.metadata);
    assert(item_lines(item) == tags + seq![item.path]);
    lemma_absorb_concat(state, tags, seq![item.path]);
    lemma_absorb_one(absorb_all(state, tags), item.path);
    lemma_path_line(item.path);
}

/// Reading the lines of storable entries, with no tag waiting, adds those
/// entries and leaves no tag waiting.
proof fn lemma_absorb_tracks(state: ReadState, tracks: Seq<ItemView>)
    requires
        forall|i: int| 0 <= i < tracks.len() ==> storable_item(#[trigger] tracks[i]),
        state.pending.len() == 0,
    ensures
        absorb_all(state, tracks_lines(tracks)) == (ReadState {
            tracks: state.tracks + tracks,
            pending: Seq::empty(),
            metadata: state.metadata,
        }),
        all_fit(tracks_lines(tracks)),
    decreases tracks.len(),
{
    if tracks.len() == 0 {
        assert(state.pending == Seq::<TrackDataView>::empty());
    } else {
        let front = tracks.drop_last();
        let last = tracks.last();
        lemma_absorb_tracks(state, front);
        let middle = absorb_all(state, tracks_lines(front));
        lemma_absorb_item(middle, last);
        lemma_absorb_concat(state, tracks_lines(front), item_lines(last));
        assert((state.tracks + front).push(last) == state.tracks + tracks);
    }
}

/// The title that `first_title` finds is one of the tags.
proof fn lemma_first_title(tags: Seq<MetadataView>)
    ensures
        first_title(tags) matches Some(title) ==> exists|i: int|
            0 <= i < tags.len() && tags[i] == MetadataView::Title(title),
    decreases tags.len(),
{
    if tags.len() > 0 {
        if !(tags[0] is Title) {
            lemma_first_title(tags.skip(1));
        }
    }
}

/// Reading the lines of a storable playlist, header left out, gives the
/// playlist; and each of its lines fits on a line.
pub proof fn lemma_read_document_lines(m3u: M3UView)
    requires
        storable(m3u),
    ensures
        read_lines(document_lines(m3u)) == Ok::<M3UView, ReadError>(m3u),
        all_fit(document_lines(m3u)),
{
    lemma_words();
    let tags = metadata_lines(m3u.metadata);
    let title = playlist_lines(m3u.metadata);
    let tracks = tracks_lines(m3u.tracks);
    let lines = document_lines(m3u);
    let body = tags + title + tracks;
    assert(lines.skip(1) == body);
    let s0 = start_state();
    lemma_absorb_metadata(s0, m3u.metadata);
    let s1 = absorb_all(s0, tags);
    lemma_first_title(m3u.metadata);
    match first_title(m3u.metadata) {
        Some(t) => {
            lemma_playlist_line(t);
            lemma_absorb_one(s1, "#PLAYLIST:"@ + t);
        },
        None => {},
    }
    lemma_absorb_concat(s0, tags, title);
    lemma_absorb_tracks(s1, m3u.tracks);
    lemma_absorb_concat(s0, tags + title, tracks);
}

/// A storable playlist comes back unchanged from its own text: the same
/// entries in the same order, each with its path and its tags, and the same
/// tags of the playlist.
pub proof fn lemma_read_write(m3u: M3UView)
    requires
        storable(m3u),
    ensures
        read_spec(write_spec(m3u)) == Ok::<M3UView, ReadError>(m3u),
{
    lemma_read_document_lines(m3u);
    lemma_split_join(document_lines(m3u));
}

/// A text is refused exactly when its first line is not the header; and a
/// text that is refused gives no playlist at all.
pub proof fn lemma_header_enforced(text: Seq<char>)
    ensures
        read_spec(text) is Err <==> (split_lines(text).len() == 0 || split_lines(text)[0]
            != header()),
        read_spec(text) is Err ==> read_spec(text) == Err::<M3UView, ReadError>(
            ReadError::MalformedDocument,
        ),
{
}

/// Whether a reader passes over `line`: it is a comment that holds no tag.
/// Such are the tag lines with a key that the format does not know, those
/// without a colon, a `RATING_KEY` whose value is no number, and the lines of
/// other dialects.
pub open spec fn is_passed_over(line: Seq<char>) -> bool {
    is_comment(line) && parse_line(line) is None
}

/// Whether the format knows `key`: it is one of its six keys, or begins as
/// the name of a label does.
pub open spec fn is_known_key(key: Seq<char>) -> bool {
    ||| key == "RATING_KEY"@
    ||| key == "TITLE"@
    ||| key == "REWRITE_FROM"@
    ||| key == "REWRITE_TO"@
    ||| key == "TRACK_KEY"@
    ||| key == "FILE_PATH"@
    ||| label_prefix().is_prefix_of(key)
}

/// A tag line with a key that the format does not know is passed over,
/// whatever its value.
pub proof fn lemma_unknown_key(key: Seq<char>, value: Seq<char>)
    requires
        forall|i: int| 0 <= i < key.len() ==> key[i] != ':',
        !is_known_key(key),
    ensures
        is_passed_over(tag_prefix() + key + seq![':'] + value),
{
    lemma_words();
    lemma_parse_pair(key, value);
    assert((tag_prefix() + key + seq![':'] + value)[0] == tag_prefix()[0]);
}

/// Among the lines of a playlist, a line that is passed over can be put in
/// anywhere after the header, or taken out, and the playlist read is the
/// same: the entry below it keeps its path and its other tags.
pub proof fn lemma_passed_over_lines(
    before: Seq<Seq<char>>,
    line: Seq<char>,
    after: Seq<Seq<char>>,
)
    requires
        before.len() > 0,
        is_passed_over(line),
    ensures
        read_lines(before + seq![line] + after) == read_lines(before + after),
{
    let with = before + seq![line] + after;
    let without = before + after;
    let body = before.skip(1);
    assert(with.skip(1) == body + seq![line] + after);
    assert(without.skip(1) == body + after);
    let s0 = start_state();
    lemma_absorb_concat(s0, body + seq![line], after);
    lemma_absorb_concat(s0, body, seq![line]);
    lemma_absorb_one(absorb_all(s0, body), line);
    lemma_absorb_concat(s0, body, after);
}

/// The same of texts: where every line fits on a line, the text with the
/// line that is passed over and the text without it hold the same playlist.
pub proof fn lemma_passed_over_text(
    before: Seq<Seq<char>>,
    line: Seq<char>,
    after: Seq<Seq<char>>,
)
    requires
        before.len() > 0,
        is_passed_over(line),
        fits_on_line(line),
        all_fit(before),
        all_fit(after),
    ensures
        read_spec(join_lines(before + seq![line] + after)) == read_spec(
            join_lines(before + after),
        ),
{
    let with = before + seq![line] + after;
    let without = before + after;
    lemma_split_join(with);
    lemma_split_join(without);
    lemma_passed_over_lines(before, line, after);
}

} // verus!
