//! The playlists that the library offers.

use crate::lines::{join_lines, lemma_join_push};
use crate::number::{decimal, push_decimal};
use crate::text::{option_view, views};
use vstd::prelude::*;

verus! {

/// The list of the library's playlists.
#[derive(Debug)]
pub struct MediaContainer {
    /// How many playlists the library says it has.
    pub size: u32,
    pub playlists: Vec<Playlist>,
}

/// One playlist as the library lists it.
#[derive(Debug)]
pub struct Playlist {
    pub rating_key: String,
    pub title: String,
    pub key: String,
    pub summary: String,
    /// Whether the library fills the playlist by a rule.
    pub smart: bool,
    /// What the playlist holds, such as `audio` or `video`.
    pub playlist_type: String,
    /// How many items it has.
    pub leaf_count: u32,
    pub added_at: u32,
    pub updated_at: u32,
}

/// Which playlists to show.
pub struct PlaylistFilter {
    /// Only those of this kind; all of them where there is none.
    pub only_playlist_type: Option<String>,
}

/// The mathematical value of a `Playlist`, as far as it is shown.
pub struct PlaylistView {
    pub rating_key: Seq<char>,
    pub title: Seq<char>,
    pub smart: bool,
    pub playlist_type: Seq<char>,
    pub leaf_count: u32,
}

impl View for Playlist {
    type V = PlaylistView;

    open spec fn view(&self) -> PlaylistView {
        PlaylistView {
            rating_key: self.rating_key@,
            title: self.title@,
            smart: self.smart,
            playlist_type: self.playlist_type@,
            leaf_count: self.leaf_count,
        }
    }
}

/// The line that shows a playlist: its key, its title, its kind, a mark
/// where it is a smart one, and the number of its items.
pub open spec fn playlist_line(playlist: PlaylistView) -> Seq<char> {
    playlist.rating_key + ": "@ + playlist.title + " ["@ + playlist.playlist_type + "]"@ + (
    if playlist.smart {
        " [Smart]"@
    } else {
        Seq::empty()
    }) + " ["@ + decimal(playlist.leaf_count as nat) + " tracks]"@
}

/// Whether a playlist passes a filter: it is of the kind asked for, or no
/// kind was asked for.
pub open spec fn passes(playlist: PlaylistView, only: Option<Seq<char>>) -> bool {
    match only {
        Some(kind) => kind == playlist.playlist_type,
        None => true,
    }
}

/// The lines of the playlists among the first `n` of `playlists` that pass
/// the filter, in order.
pub open spec fn listing_lines(playlists: Seq<PlaylistView>, only: Option<Seq<char>>, n: nat) -> Seq<
    Seq<char>,
>
    decreases n,
{
    if n == 0 {
        Seq::empty()
    } else if passes(playlists[n - 1], only) {
        listing_lines(playlists, only, (n - 1) as nat).push(playlist_line(playlists[n - 1]))
    } else {
        listing_lines(playlists, only, (n - 1) as nat)
    }
}

impl Playlist {
    /// The line that shows the playlist.
    pub fn to_string(&self) -> (line: String)
        ensures
            line@ == playlist_line(self@),
    {
        let mut line = self.rating_key.clone();
        line.append(": ");
        line.append(self.title.as_str());
        line.append(" [");
        line.append(self.playlist_type.as_str());
        line.append("]");
        if self.smart {
            line.append(" [Smart]");
        }
        line.append(" [");
        push_decimal(&mut line, self.leaf_count as u64);
        line.append(" tracks]");
        line
    }

    /// Whether the playlist passes `filter`.
    pub fn matches(&self, filter: &PlaylistFilter) -> (b: bool)
        ensures
            b == passes(self@, option_view(filter.only_playlist_type)),
    {
        match &filter.only_playlist_type {
            None => true,
            Some(only_filter) => *only_filter == self.playlist_type,
        }
    }
}

impl MediaContainer {
    /// What a listing of the playlists says: how many the library has, then
    /// one line for each playlist that passes `filter`, in the library's
    /// order.
    pub fn listing(&self, filter: &PlaylistFilter) -> (text: String)
        ensures
            text@ == join_lines(
                seq!["Found "@ + decimal(self.size as nat) + " playlists"@] + listing_lines(
                    views(self.playlists@),
                    option_view(filter.only_playlist_type),
                    self.playlists@.len(),
                ),
            ),
    {
        let ghost playlists = views(self.playlists@);
        let ghost only = option_view(filter.only_playlist_type);
        let mut text = String::from_str("Found ");
        push_decimal(&mut text, self.size as u64);
        text.append(" playlists");
        text.push('\n');
        let ghost first = "Found "@ + decimal(self.size as nat) + " playlists"@;
        let ghost mut lines: Seq<Seq<char>> = seq![first];
        proof {
            lemma_join_push(Seq::empty(), first);
        }
        let mut i: usize = 0;
        while i < self.playlists.len()
            invariant
                i <= self.playlists.len(),
                playlists == views(self.playlists@),
                only == option_view(filter.only_playlist_type),
                text@ == join_lines(lines),
                lines == seq![first] + listing_lines(playlists, only, i as nat),
            decreases self.playlists.len() - i,
        {
            let playlist = &self.playlists[i];
            if playlist.matches(filter) {
                let line = playlist.to_string();
                text.append(line.as_str());
                text.push('\n');
                proof {
                    lemma_join_push(lines, line@);
                    lines = lines.push(line@);
                }
            }
            i += 1;
        }
        text
    }
}

/// The filter that shows the playlists of the kind `only`, or all of them.
pub fn to_playlist_filter(only: &Option<String>) -> (filter: PlaylistFilter)
    ensures
        option_view(filter.only_playlist_type) == option_view(*only),
{
    PlaylistFilter {
        only_playlist_type: match only {
            Some(kind) => Some(kind.clone()),
            None => None,
        },
    }
}

} // verus!
