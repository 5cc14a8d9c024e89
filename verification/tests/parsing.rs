use serato_history::extract::{extract_track, get_track, locate_tags};
use serato_history::parse::parse_tracks;

/// A 5-byte field tag: four NUL bytes and one discriminating byte.
fn tag(discriminator: u8) -> Vec<u8> {
    vec![0, 0, 0, 0, discriminator]
}

/// Build a chunk that places the given byte runs at the given offsets,
/// padding the gaps with NUL bytes.
fn chunk_with(parts: &[(usize, Vec<u8>)], len: usize) -> Vec<u8> {
    let mut out = vec![0u8; len];
    for (at, bytes) in parts {
        out[*at..*at + bytes.len()].copy_from_slice(bytes);
    }
    out
}

#[test]
fn full_record_all_tags() {
    // Title tag at offset 5, text "Song A" before the artist tag at offset
    // 30, "Artist B" until the style tag at 60, "Genre C" until the end tag
    // at 90.
    let chunk = chunk_with(
        &[
            (5, tag(0x06)),
            (15, b"Song A".to_vec()),
            (30, tag(0x07)),
            (40, b"Artist B".to_vec()),
            (60, tag(0x09)),
            (70, b"Genre C".to_vec()),
            (90, tag(0x0f)),
        ],
        95,
    );
    let offsets = locate_tags(&chunk);
    assert_eq!(offsets.title, Some(5));
    assert_eq!(offsets.artist, Some(30));
    assert_eq!(offsets.style, Some(60));
    assert_eq!(offsets.end, Some(90));
    let track = extract_track(&chunk).expect("chunk has title and end tags");
    assert_eq!(track.title, "Song A");
    assert_eq!(track.artist, "Artist B");
    assert_eq!(track.style, "Genre C");
}

#[test]
fn title_and_end_only() {
    // Only title and end tags, text "Solo Track" between them.
    let chunk = chunk_with(
        &[(0, tag(0x06)), (10, b"Solo Track".to_vec()), (20, tag(0x0f))],
        25,
    );
    let track = extract_track(&chunk).expect("chunk has title and end tags");
    assert_eq!(track.title, "Solo Track");
    assert_eq!(track.artist, "");
    assert_eq!(track.style, "");
}

#[test]
fn missing_title_rejected() {
    let chunk = chunk_with(
        &[(0, tag(0x07)), (10, b"Artist".to_vec()), (20, tag(0x0f))],
        25,
    );
    assert!(extract_track(&chunk).is_none());
}

#[test]
fn missing_end_rejected() {
    let chunk = chunk_with(&[(0, tag(0x06)), (10, b"Title".to_vec())], 20);
    assert!(extract_track(&chunk).is_none());
}

#[test]
fn empty_chunk_rejected() {
    assert!(extract_track(&[]).is_none());
}

#[test]
fn reversed_offsets_yield_empty_title() {
    // The artist tag precedes the title tag, so the title span runs
    // backwards and resolves to empty text. The artist span covers the
    // title tag, whose discriminating byte is sanitized to `*`.
    let chunk = chunk_with(
        &[(0, tag(0x07)), (10, tag(0x06)), (20, b"XYZ".to_vec()), (23, tag(0x0f))],
        28,
    );
    let track = extract_track(&chunk).expect("chunk has title and end tags");
    assert_eq!(track.title, "");
    assert_eq!(track.artist, "*XYZ");
    assert_eq!(track.style, "");
}

#[test]
fn nul_bytes_stripped_from_fields() {
    let mut title_text = Vec::new();
    title_text.extend_from_slice(b"So");
    title_text.push(0);
    title_text.extend_from_slice(b"ng");
    let chunk = chunk_with(&[(0, tag(0x06)), (10, title_text), (15, tag(0x0f))], 20);
    let track = extract_track(&chunk).expect("chunk has title and end tags");
    assert_eq!(track.title, "Song");
    assert!(!track.title.contains('\u{0}'));
}

#[test]
fn spans_past_chunk_yield_empty_fields() {
    let track = get_track(b"short", 0, None, None, 100);
    assert_eq!(track.title, "");
    assert_eq!(track.artist, "");
    assert_eq!(track.style, "");
}

#[test]
fn artist_without_style_runs_to_end_tag() {
    let chunk = chunk_with(
        &[
            (0, tag(0x06)),
            (10, b"Title".to_vec()),
            (20, tag(0x07)),
            (30, b"Artist".to_vec()),
            (40, tag(0x0f)),
        ],
        45,
    );
    let track = extract_track(&chunk).expect("chunk has title and end tags");
    assert_eq!(track.title, "Title");
    assert_eq!(track.artist, "Artist");
    assert_eq!(track.style, "");
}

#[test]
fn parse_collects_tracks_in_chunk_order() {
    let mut content = Vec::new();
    content.extend_from_slice(b"preamble");
    content.extend_from_slice(b"oent");
    content.extend_from_slice(&chunk_with(
        &[(0, tag(0x06)), (10, b"First".to_vec()), (20, tag(0x0f))],
        25,
    ));
    content.extend_from_slice(b"oent");
    content.extend_from_slice(&chunk_with(
        &[(0, tag(0x06)), (10, b"Second".to_vec()), (20, tag(0x0f))],
        25,
    ));
    let tracks = parse_tracks(&content);
    assert_eq!(tracks.len(), 2);
    assert_eq!(tracks[0].title, "First");
    assert_eq!(tracks[1].title, "Second");
}

#[test]
fn content_without_complete_chunks_yields_empty_list() {
    // Chunks never hold both a title tag and an end tag: the pass produces
    // an empty track list and no error.
    let mut content = Vec::new();
    content.extend_from_slice(b"hello ");
    content.extend_from_slice(&tag(0x06));
    content.extend_from_slice(b"oent");
    content.extend_from_slice(b" world ");
    content.extend_from_slice(&tag(0x0f));
    let tracks = parse_tracks(&content);
    assert!(tracks.is_empty());
}

#[test]
fn parsing_twice_is_idempotent() {
    let mut content = Vec::new();
    content.extend_from_slice(&chunk_with(
        &[(0, tag(0x06)), (10, b"Only".to_vec()), (20, tag(0x0f))],
        25,
    ));
    content.extend_from_slice(b"oent");
    content.extend_from_slice(&chunk_with(
        &[(0, tag(0x06)), (10, b"More".to_vec()), (20, tag(0x0f))],
        25,
    ));
    let first = parse_tracks(&content);
    let second = parse_tracks(&content);
    assert_eq!(first.len(), second.len());
    for (a, b) in first.iter().zip(second.iter()) {
        assert_eq!(a.title, b.title);
        assert_eq!(a.artist, b.artist);
        assert_eq!(a.style, b.style);
    }
}
