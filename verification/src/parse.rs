//! The whole parse pass: decode the raw bytes, split them into chunks, and
//! extract every accepted chunk's track, in chunk order. The list is rebuilt
//! from scratch on every pass; nothing persists between passes.

use vstd::prelude::*;
use crate::extract::{chunk_track_spec, extract_track, lemma_track_no_nul, no_nul};
use crate::split::{split_chunks, split_spec};
use crate::track::{Track, TrackSpec};

verus! {

/// The tracks of a sequence of chunks: each accepted chunk contributes its
/// track, in chunk order; rejected chunks contribute nothing.
pub open spec fn collect_tracks_spec(chunks: Seq<Seq<u8>>) -> Seq<TrackSpec>
    decreases chunks.len(),
{
    if chunks.len() == 0 {
        Seq::empty()
    } else {
        let rest = collect_tracks_spec(chunks.drop_first());
        match chunk_track_spec(chunks.first()) {
            Option::Some(t) => seq![t] + rest,
            Option::None => rest,
        }
    }
}

/// The track list of one raw byte content: split, then collect.
pub open spec fn tracks_spec(content: Seq<u8>) -> Seq<TrackSpec> {
    collect_tracks_spec(split_spec(content))
}

proof fn lemma_collect_push(chunks: Seq<Seq<u8>>, c: Seq<u8>)
    ensures
        collect_tracks_spec(chunks.push(c)) == collect_tracks_spec(chunks) + (match chunk_track_spec(
            c,
        ) {
            Option::Some(t) => seq![t],
            Option::None => Seq::<TrackSpec>::empty(),
        }),
    decreases chunks.len(),
{
    let tail = match chunk_track_spec(c) {
        Option::Some(t) => seq![t],
        Option::None => Seq::<TrackSpec>::empty(),
    };
    if chunks.len() == 0 {
        assert(chunks.push(c).drop_first() =~= chunks);
        assert(chunks.push(c).first() == c);
        match chunk_track_spec(c) {
            Option::Some(t) => {
                assert(collect_tracks_spec(chunks.push(c)) == seq![t] + collect_tracks_spec(
                    chunks,
                ));
                assert(seq![t] + collect_tracks_spec(chunks) =~= tail);
            },
            Option::None => {
                assert(collect_tracks_spec(chunks.push(c)) == collect_tracks_spec(chunks));
            },
        }
        assert(collect_tracks_spec(chunks) + tail =~= tail);
    } else {
        assert(chunks.push(c).drop_first() =~= chunks.drop_first().push(c));
        assert(chunks.push(c).first() == chunks.first());
        lemma_collect_push(chunks.drop_first(), c);
        match chunk_track_spec(chunks.first()) {
            Option::Some(t) => {
                assert(seq![t] + (collect_tracks_spec(chunks.drop_first()) + tail) =~= (seq![t]
                    + collect_tracks_spec(chunks.drop_first())) + tail);
            },
            Option::None => {},
        }
    }
}

/// Parsing is deterministic: identical byte content yields identical,
/// order-preserving track lists.
pub proof fn lemma_parse_deterministic(b1: Seq<u8>, b2: Seq<u8>)
    requires
        b1 == b2,
    ensures
        tracks_spec(b1) == tracks_spec(b2),
{
}

proof fn lemma_collect_no_nul(chunks: Seq<Seq<u8>>)
    ensures
        forall|k: int| 0 <= k < collect_tracks_spec(chunks).len() ==> {
            let t = #[trigger] collect_tracks_spec(chunks)[k];
            no_nul(t.title) && no_nul(t.artist) && no_nul(t.style)
        },
    decreases chunks.len(),
{
    if chunks.len() > 0 {
        lemma_collect_no_nul(chunks.drop_first());
        let rest = collect_tracks_spec(chunks.drop_first());
        match chunk_track_spec(chunks.first()) {
            Option::Some(t) => {
                lemma_track_no_nul(chunks.first(), t);
                assert forall|k: int| 0 <= k < collect_tracks_spec(chunks).len() implies {
                    let tr = #[trigger] collect_tracks_spec(chunks)[k];
                    no_nul(tr.title) && no_nul(tr.artist) && no_nul(tr.style)
                } by {
                    if k == 0 {
                        assert(collect_tracks_spec(chunks)[k] == t);
                    } else {
                        assert(collect_tracks_spec(chunks)[k] == rest[k - 1]);
                    }
                }
            },
            Option::None => {
                assert forall|k: int| 0 <= k < collect_tracks_spec(chunks).len() implies {
                    let tr = #[trigger] collect_tracks_spec(chunks)[k];
                    no_nul(tr.title) && no_nul(tr.artist) && no_nul(tr.style)
                } by {
                    assert(collect_tracks_spec(chunks)[k] == rest[k]);
                }
            },
        }
    }
}

/// No track of a parse pass holds a NUL character in any of its fields.
pub proof fn lemma_parse_no_nul(content: Seq<u8>)
    ensures
        forall|k: int| 0 <= k < tracks_spec(content).len() ==> {
            let t = #[trigger] tracks_spec(content)[k];
            no_nul(t.title) && no_nul(t.artist) && no_nul(t.style)
        },
{
    lemma_collect_no_nul(split_spec(content));
}

/// One full parse pass over raw file content.
pub fn parse_tracks(content: &[u8]) -> (r: Vec<Track>)
    ensures
        r@.map_values(|t: Track| t@) == tracks_spec(content@),
{
    let chunks = split_chunks(content);
    let mut tracks: Vec<Track> = Vec::new();
    let mut i: usize = 0;
    proof {
        assert(chunks@.map_values(|c: Vec<u8>| c@).subrange(0, 0) =~= Seq::<Seq<u8>>::empty());
    }
    while i < chunks.len()
        invariant
            i <= chunks@.len(),
            chunks@.map_values(|c: Vec<u8>| c@) == split_spec(content@),
            tracks@.map_values(|t: Track| t@) == collect_tracks_spec(
                chunks@.map_values(|c: Vec<u8>| c@).subrange(0, i as int),
            ),
        decreases chunks@.len() - i,
    {
        let ghost views = chunks@.map_values(|c: Vec<u8>| c@);
        let ghost pre = tracks@.map_values(|t: Track| t@);
        match extract_track(chunks[i].as_slice()) {
            Option::Some(t) => {
                tracks.push(t);
            },
            Option::None => {},
        }
        proof {
            assert(views.subrange(0, i + 1) =~= views.subrange(0, i as int).push(views[i as int]));
            lemma_collect_push(views.subrange(0, i as int), views[i as int]);
            match chunk_track_spec(views[i as int]) {
                Option::Some(t) => {
                    assert(tracks@.map_values(|t: Track| t@) =~= pre + seq![t]);
                },
                Option::None => {
                    assert(pre + Seq::<TrackSpec>::empty() =~= pre);
                },
            }
        }
        i = i + 1;
    }
    proof {
        let views = chunks@.map_values(|c: Vec<u8>| c@);
        assert(views.subrange(0, views.len() as int) =~= views);
    }
    tracks
}

} // verus!
