//! The track record: the parsed `{title, artist, style}` triple representing
//! one played track. Produced only from a chunk that has both a title tag and
//! an end tag; artist and style are independently optional and default to
//! empty text.

use vstd::prelude::*;

verus! {

/// One played track, parsed from an accepted chunk. Immutable once
/// constructed.
#[derive(Debug)]
pub struct Track {
    pub title: String,
    pub artist: String,
    pub style: String,
}

/// The mathematical content of a `Track`: its three fields as character
/// sequences.
pub struct TrackSpec {
    pub title: Seq<char>,
    pub artist: Seq<char>,
    pub style: Seq<char>,
}

impl View for Track {
    type V = TrackSpec;

    open spec fn view(&self) -> TrackSpec {
        TrackSpec { title: self.title@, artist: self.artist@, style: self.style@ }
    }
}

} // verus!
