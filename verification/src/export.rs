//! From a playlist of the library to a playlist document.

use crate::m3u::{Metadata, MetadataView, WithMetadata, M3U};
use crate::plex_client::track::{container_items, MediaContainer, TrackPath};
use crate::reconcile::ConfigurationError;
use crate::text::{option_view, views};
use vstd::prelude::*;

verus! {

/// The tags that record a rewrite rule: the text that was replaced, then the
/// replacement, each only where it was given.
pub open spec fn rule_tags(rewrite_from: Option<Seq<char>>, rewrite_to: Option<Seq<char>>) -> Seq<
    MetadataView,
> {
    (match rewrite_from {
        Some(from) => seq![MetadataView::RewriteFrom(from)],
        None => Seq::empty(),
    }) + (match rewrite_to {
        Some(to) => seq![MetadataView::RewriteTo(to)],
        None => Seq::empty(),
    })
}

/// Whether a playlist can be written anywhere: a file was named, or the
/// standard output was asked for.
pub fn check_destination(has_file: bool, stdout: bool) -> (checked: Result<(), ConfigurationError>)
    ensures
        checked is Ok <==> has_file || stdout,
        checked is Err ==> checked == Err::<(), ConfigurationError>(
            ConfigurationError::NoDestination,
        ),
{
    if !has_file && !stdout {
        Err(ConfigurationError::NoDestination)
    } else {
        Ok(())
    }
}

/// The name of the file that holds the playlist `title`.
pub fn playlist_file_name(title: &str) -> (name: String)
    ensures
        name@ == title@ + ".m3u"@,
{
    let mut name = String::from_str(title);
    name.append(".m3u");
    name
}

/// The document of a playlist of the library: its entries as `track_files`
/// gives them, and as tags its key and its title, then the rewrite rule that
/// was used.
pub fn dump_playlist(
    container: &MediaContainer,
    rewrite_from: Option<String>,
    rewrite_to: Option<String>,
    track_path: TrackPath,
) -> (m3u: M3U)
    ensures
        m3u@.tracks == container_items(
            container@,
            option_view(rewrite_from),
            option_view(rewrite_to),
            track_path@,
        ),
        m3u@.metadata == container.metadata_spec() + rule_tags(
            option_view(rewrite_from),
            option_view(rewrite_to),
        ),
{
    let mut metadata = container.metadata();
    let ghost mut added: Seq<MetadataView> = Seq::empty();
    if let Some(from) = &rewrite_from {
        metadata.push(Metadata::RewriteFrom(from.clone()));
        proof {
            added = added.push(MetadataView::RewriteFrom(from@));
        }
    }
    if let Some(to) = &rewrite_to {
        metadata.push(Metadata::RewriteTo(to.clone()));
        proof {
            added = added.push(MetadataView::RewriteTo(to@));
        }
    }
    let tracks = container.track_files(rewrite_from, rewrite_to, track_path);
    M3U::new(tracks, metadata)
}

} // verus!
