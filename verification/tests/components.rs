use serato_history::decode::{decode_bytes, latin1_to_string};
use serato_history::extract::{sanitize, strip_nul};
use serato_history::session::{pick_latest, trailing_start};
use serato_history::split::split_chunks;

#[test]
fn decode_round_trips_every_byte_value() {
    let bytes: Vec<u8> = (0u16..256).map(|b| b as u8).collect();
    let text = latin1_to_string(&bytes);
    let back: Vec<u8> = text.chars().map(|c| c as u32 as u8).collect();
    assert_eq!(back, bytes);
    for (i, c) in text.chars().enumerate() {
        assert_eq!(c as u32, bytes[i] as u32);
    }
}

#[test]
fn decode_preserves_length_and_content() {
    let text = latin1_to_string(b"Hi\0there");
    assert_eq!(text.chars().count(), 8);
    assert_eq!(text, "Hi\u{0}there");
    let chars = decode_bytes(&[0x41, 0x00, 0xff]);
    assert_eq!(chars, vec!['A', '\u{0}', '\u{ff}']);
}

#[test]
fn split_on_delimiter_keeps_order() {
    let parts = split_chunks(b"aaoentbboentcc");
    assert_eq!(parts, vec![b"aa".to_vec(), b"bb".to_vec(), b"cc".to_vec()]);
}

#[test]
fn split_without_delimiter_is_whole_input() {
    let parts = split_chunks(b"no marker here");
    assert_eq!(parts, vec![b"no marker here".to_vec()]);
}

#[test]
fn split_keeps_empty_stretches() {
    let parts = split_chunks(b"oentoent");
    assert_eq!(parts, vec![Vec::new(), Vec::new(), Vec::new()]);
    let parts = split_chunks(b"");
    assert_eq!(parts, vec![Vec::new()]);
}

#[test]
fn strip_nul_drops_only_nul_bytes() {
    assert_eq!(strip_nul(&[0, 0x41, 0, 0x42, 0]), vec![0x41, 0x42]);
    assert_eq!(strip_nul(&[]), Vec::<u8>::new());
    assert_eq!(strip_nul(&[1, 2, 3]), vec![1, 2, 3]);
}

#[test]
fn sanitize_replaces_non_printable_and_keeps_length() {
    let out = sanitize(&[0x41, 0x07, 0x80, 0x20, 0x7e, 0x7f, 0x00]);
    assert_eq!(out, vec![0x41, 0x2a, 0x2a, 0x20, 0x7e, 0x2a, 0x2a]);
    assert_eq!(out.len(), 7);
}

#[test]
fn pick_latest_takes_greatest_timestamp() {
    let entries = vec![
        ("a.session".to_string(), 10u64),
        ("b.session".to_string(), 30u64),
        ("c.session".to_string(), 20u64),
    ];
    assert_eq!(pick_latest(&entries), Some(1));
}

#[test]
fn pick_latest_prefers_first_of_equal_timestamps() {
    let entries = vec![
        ("a.session".to_string(), 7u64),
        ("b.session".to_string(), 7u64),
    ];
    assert_eq!(pick_latest(&entries), Some(0));
}

#[test]
fn pick_latest_of_empty_listing_is_none() {
    assert_eq!(pick_latest(&Vec::new()), None);
}

#[test]
fn trailing_window_start() {
    assert_eq!(trailing_start(5, 2), 3);
    assert_eq!(trailing_start(2, 5), 0);
    assert_eq!(trailing_start(0, 1), 0);
    assert_eq!(trailing_start(4, 4), 0);
}
