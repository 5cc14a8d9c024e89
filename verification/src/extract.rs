//! Field locator and record extractor. Within a chunk, the locator finds the
//! first occurrence of each of four fixed 5-byte binary tags (title, artist,
//! style, end). The extractor turns whichever tags are present into a
//! `Track`: a chunk missing the title tag or the end tag is rejected
//! outright; artist and style are independently optional and change which
//! boundaries the field spans use. Every malformed case degrades to an empty
//! field or a skipped chunk, never to a panic.

use vstd::prelude::*;
use vstd::slice::slice_subrange;
use crate::decode::{chars_to_string, decode_bytes, decode_spec};
use crate::pattern::find_from;
use crate::pattern::find_pattern;
use crate::track::{Track, TrackSpec};

verus! {

/// Bytes of tag and fixed non-text prefix that precede a field's payload.
pub const BYTES_TO_SKIP: usize = 10;

/// The 5-byte tag introducing a field region: four NUL bytes and one
/// discriminating byte.
pub open spec fn tag_pattern(discriminator: u8) -> Seq<u8> {
    seq![0u8, 0u8, 0u8, 0u8, discriminator]
}

pub open spec fn title_tag() -> Seq<u8> {
    tag_pattern(0x06)
}

pub open spec fn artist_tag() -> Seq<u8> {
    tag_pattern(0x07)
}

pub open spec fn style_tag() -> Seq<u8> {
    tag_pattern(0x09)
}

pub open spec fn end_tag() -> Seq<u8> {
    tag_pattern(0x0f)
}

/// A byte whose character is printable ASCII.
pub open spec fn printable(b: u8) -> bool {
    0x20 <= b <= 0x7e
}

/// The placeholder glyph `*` that replaces a non-printable character.
pub const PLACEHOLDER: u8 = 0x2a;

/// The bytes of `s` other than NUL, in order.
pub open spec fn strip_nul_spec(s: Seq<u8>) -> Seq<u8> {
    s.filter(|b: u8| b != 0)
}

/// `s` with every non-printable byte replaced by the placeholder. Length is
/// preserved.
pub open spec fn sanitize_spec(s: Seq<u8>) -> Seq<u8> {
    s.map_values(|b: u8| if printable(b) { b } else { PLACEHOLDER })
}

/// Every byte that survives the NUL strip is non-NUL.
pub proof fn lemma_strip_nul_no_nul(s: Seq<u8>)
    ensures
        forall|i: int| 0 <= i < strip_nul_spec(s).len() ==> #[trigger] strip_nul_spec(s)[i] != 0,
    decreases s.len(),
{
    reveal(Seq::filter);
    if s.len() == 0 {
    } else {
        lemma_strip_nul_no_nul(s.drop_last());
    }
}

/// No field text ever holds a NUL character: NULs are stripped from every
/// span, and the sanitizer maps no byte to NUL.
pub proof fn lemma_field_spec_no_nul(c: Seq<u8>, start: int, end: int)
    ensures
        forall|i: int| 0 <= i < field_spec(c, start, end).len() ==> #[trigger] field_spec(
            c,
            start,
            end,
        )[i] != '\0',
{
    if 0 <= start < end <= c.len() {
        let kept = strip_nul_spec(c.subrange(start, end));
        lemma_strip_nul_no_nul(c.subrange(start, end));
        assert forall|i: int| 0 <= i < field_spec(c, start, end).len() implies #[trigger] field_spec(
            c,
            start,
            end,
        )[i] != '\0' by {
            assert(kept[i] != 0);
            assert(sanitize_spec(kept)[i] != 0);
        }
    }
}

/// The text of one field span of a chunk: a degenerate span (start at or
/// past end, or out of range) yields empty text; otherwise the span's bytes
/// with NULs stripped, sanitized, and decoded.
pub open spec fn field_spec(c: Seq<u8>, start: int, end: int) -> Seq<char> {
    if 0 <= start < end <= c.len() {
        decode_spec(sanitize_spec(strip_nul_spec(c.subrange(start, end))))
    } else {
        Seq::empty()
    }
}

/// A span whose computed start offset is at or past its computed end offset
/// always yields empty text, never an error.
pub proof fn lemma_degenerate_span_empty(c: Seq<u8>, start: int, end: int)
    requires
        start >= end,
    ensures
        field_spec(c, start, end) == Seq::<char>::empty(),
{
}

/// Where the title span ends: at the artist tag when present, else at the
/// style tag when present, else at the end tag.
pub open spec fn title_end(artist: Option<int>, style: Option<int>, end: int) -> int {
    match artist {
        Option::Some(a) => a,
        Option::None => match style {
            Option::Some(s) => s,
            Option::None => end,
        },
    }
}

/// Where the artist span ends: at the style tag when present, else at the
/// end tag.
pub open spec fn artist_end(style: Option<int>, end: int) -> int {
    match style {
        Option::Some(s) => s,
        Option::None => end,
    }
}

/// The three fields extracted from a chunk, given the resolved tag offsets.
pub open spec fn track_fields_spec(
    c: Seq<u8>,
    title: int,
    artist: Option<int>,
    style: Option<int>,
    end: int,
) -> TrackSpec {
    TrackSpec {
        title: field_spec(c, title + BYTES_TO_SKIP, title_end(artist, style, end)),
        artist: match artist {
            Option::Some(a) => field_spec(c, a + BYTES_TO_SKIP, artist_end(style, end)),
            Option::None => Seq::empty(),
        },
        style: match style {
            Option::Some(s) => field_spec(c, s + BYTES_TO_SKIP, end),
            Option::None => Seq::empty(),
        },
    }
}

/// A `usize` offset as a mathematical one.
pub open spec fn opt_int(o: Option<usize>) -> Option<int> {
    match o {
        Option::Some(v) => Option::Some(v as int),
        Option::None => Option::None,
    }
}

/// What a whole chunk yields: `None` when the title tag or the end tag is
/// absent, else the fields resolved from the first occurrence of each tag.
pub open spec fn chunk_track_spec(c: Seq<u8>) -> Option<TrackSpec> {
    let t = find_from(c, title_tag(), 0);
    let e = find_from(c, end_tag(), 0);
    if t is None || e is None {
        Option::None
    } else {
        Option::Some(
            track_fields_spec(
                c,
                t.unwrap(),
                find_from(c, artist_tag(), 0),
                find_from(c, style_tag(), 0),
                e.unwrap(),
            ),
        )
    }
}

/// The text holds no NUL character.
pub open spec fn no_nul(s: Seq<char>) -> bool {
    forall|i: int| 0 <= i < s.len() ==> #[trigger] s[i] != '\0'
}

/// For every accepted chunk, no field of the resulting track holds a NUL
/// character.
pub proof fn lemma_track_no_nul(c: Seq<u8>, t: TrackSpec)
    requires
        chunk_track_spec(c) == Some(t),
    ensures
        no_nul(t.title),
        no_nul(t.artist),
        no_nul(t.style),
{
    let ti = find_from(c, title_tag(), 0).unwrap();
    let e = find_from(c, end_tag(), 0).unwrap();
    let a = find_from(c, artist_tag(), 0);
    let s = find_from(c, style_tag(), 0);
    lemma_field_spec_no_nul(c, ti + BYTES_TO_SKIP, title_end(a, s, e));
    match a {
        Option::Some(av) => lemma_field_spec_no_nul(c, av + BYTES_TO_SKIP, artist_end(s, e)),
        Option::None => {},
    }
    match s {
        Option::Some(sv) => lemma_field_spec_no_nul(c, sv + BYTES_TO_SKIP, e),
        Option::None => {},
    }
}

/// First-occurrence offsets of the four tags in one chunk, each
/// independently present or absent.
pub struct TagOffsets {
    pub title: Option<usize>,
    pub artist: Option<usize>,
    pub style: Option<usize>,
    pub end: Option<usize>,
}

/// The tag with the given discriminating byte, as bytes for the search.
fn tag_bytes(discriminator: u8) -> (r: Vec<u8>)
    ensures
        r@ == tag_pattern(discriminator),
{
    let mut d: Vec<u8> = Vec::new();
    d.push(0);
    d.push(0);
    d.push(0);
    d.push(0);
    d.push(discriminator);
    proof {
        assert(d@ =~= tag_pattern(discriminator));
    }
    d
}

/// Find the first occurrence of one tag in a chunk.
fn find_tag(chunk: &[u8], discriminator: u8) -> (r: Option<usize>)
    ensures
        opt_int(r) == find_from(chunk@, tag_pattern(discriminator), 0),
{
    let pat = tag_bytes(discriminator);
    find_pattern(chunk, pat.as_slice())
}

/// Locate all four field tags in a chunk.
pub fn locate_tags(chunk: &[u8]) -> (r: TagOffsets)
    ensures
        opt_int(r.title) == find_from(chunk@, title_tag(), 0),
        opt_int(r.artist) == find_from(chunk@, artist_tag(), 0),
        opt_int(r.style) == find_from(chunk@, style_tag(), 0),
        opt_int(r.end) == find_from(chunk@, end_tag(), 0),
{
    TagOffsets {
        title: find_tag(chunk, 0x06),
        artist: find_tag(chunk, 0x07),
        style: find_tag(chunk, 0x09),
        end: find_tag(chunk, 0x0f),
    }
}

/// Drop every NUL byte, keeping the rest in order.
pub fn strip_nul(v: &[u8]) -> (r: Vec<u8>)
    ensures
        r@ == strip_nul_spec(v@),
{
    let mut out: Vec<u8> = Vec::new();
    let mut i: usize = 0;
    proof {
        reveal(Seq::filter);
        assert(v@.subrange(0, 0).filter(|b: u8| b != 0) =~= out@);
    }
    while i < v.len()
        invariant
            i <= v@.len(),
            out@ == v@.subrange(0, i as int).filter(|b: u8| b != 0),
        decreases v@.len() - i,
    {
        let b = v[i];
        if b != 0 {
            out.push(b);
        }
        proof {
            reveal(Seq::filter);
            assert(v@.subrange(0, i + 1).drop_last() =~= v@.subrange(0, i as int));
            assert(v@.subrange(0, i + 1).last() == v@[i as int]);
        }
        i = i + 1;
    }
    proof {
        assert(v@.subrange(0, v@.len() as int) =~= v@);
    }
    out
}

/// Replace every byte outside the printable-ASCII range with the
/// placeholder. The length of the text is never altered.
pub fn sanitize(v: &[u8]) -> (r: Vec<u8>)
    ensures
        r@ == sanitize_spec(v@),
        r@.len() == v@.len(),
{
    let mut out: Vec<u8> = Vec::new();
    let mut i: usize = 0;
    while i < v.len()
        invariant
            i <= v@.len(),
            out@ == sanitize_spec(v@.subrange(0, i as int)),
        decreases v@.len() - i,
    {
        let b = v[i];
        if 0x20 <= b && b <= 0x7e {
            out.push(b);
        } else {
            out.push(PLACEHOLDER);
        }
        proof {
            assert(v@.subrange(0, i + 1) =~= v@.subrange(0, i as int).push(v@[i as int]));
            assert(sanitize_spec(v@.subrange(0, i + 1)) =~= out@);
        }
        i = i + 1;
    }
    proof {
        assert(v@.subrange(0, v@.len() as int) =~= v@);
    }
    out
}

/// The text of the span `[start, end)` of a chunk. A span whose start is at
/// or past its end resolves to empty text, never to an error.
pub fn field_text(c: &[u8], start: usize, end: usize) -> (r: String)
    ensures
        r@ == field_spec(c@, start as int, end as int),
        start >= end ==> r@ == Seq::<char>::empty(),
{
    if start >= end || end > c.len() {
        return String::new();
    }
    let span = slice_subrange(c, start, end);
    let kept = strip_nul(span);
    let clean = sanitize(kept.as_slice());
    let chars = decode_bytes(clean.as_slice());
    chars_to_string(&chars)
}

/// The text of the field introduced by the tag at `tag`, whose payload
/// starts `BYTES_TO_SKIP` bytes further and runs to `end`.
fn span_text(c: &[u8], tag: usize, end: usize) -> (r: String)
    ensures
        r@ == field_spec(c@, tag + BYTES_TO_SKIP, end as int),
{
    if tag >= usize::MAX - 9 {
        return String::new();
    }
    field_text(c, tag + BYTES_TO_SKIP, end)
}

/// Build the track record from whichever tag offsets are present, by the
/// span rules of `track_fields_spec`. Malformed offsets (reversed order,
/// spans past the chunk) degrade to empty fields.
pub fn get_track(
    raw_track: &[u8],
    song_title_start: usize,
    song_artist_start: Option<usize>,
    song_style_start: Option<usize>,
    song_end: usize,
) -> (t: Track)
    ensures
        t@ == track_fields_spec(
            raw_track@,
            song_title_start as int,
            opt_int(song_artist_start),
            opt_int(song_style_start),
            song_end as int,
        ),
{
    let title_stop: usize = match song_artist_start {
        Option::Some(a) => a,
        Option::None => match song_style_start {
            Option::Some(s) => s,
            Option::None => song_end,
        },
    };
    let artist_stop: usize = match song_style_start {
        Option::Some(s) => s,
        Option::None => song_end,
    };
    let title = span_text(raw_track, song_title_start, title_stop);
    let artist = match song_artist_start {
        Option::Some(a) => span_text(raw_track, a, artist_stop),
        Option::None => String::new(),
    };
    let style = match song_style_start {
        Option::Some(s) => span_text(raw_track, s, song_end),
        Option::None => String::new(),
    };
    Track { title, artist, style }
}

/// Extract the track of one chunk, or reject the chunk. A chunk missing the
/// title tag or the end tag contributes no track and raises no error.
pub fn extract_track(chunk: &[u8]) -> (r: Option<Track>)
    ensures
        r is None <==> (find_from(chunk@, title_tag(), 0) is None || find_from(
            chunk@,
            end_tag(),
            0,
        ) is None),
        r matches Some(t) ==> chunk_track_spec(chunk@) == Some(t@),
        r is None <==> chunk_track_spec(chunk@) is None,
        r matches Some(t) ==> no_nul(t@.title) && no_nul(t@.artist) && no_nul(t@.style),
{
    let offsets = locate_tags(chunk);
    match (offsets.title, offsets.end) {
        (Option::Some(ti), Option::Some(e)) => {
            let t = get_track(chunk, ti, offsets.artist, offsets.style, e);
            proof {
                lemma_track_no_nul(chunk@, t@);
            }
            Option::Some(t)
        },
        _ => Option::None,
    }
}

} // verus!
