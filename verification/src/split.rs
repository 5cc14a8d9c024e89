//! Chunk splitter: cuts the decoded stream on a fixed 4-character ASCII
//! delimiter into an ordered sequence of candidate record chunks. The
//! delimiter is a substring that appears at each record boundary in the
//! native format; the preamble before the first occurrence is kept as an
//! ordinary chunk and is later discarded by the tag-presence check.

use vstd::prelude::*;
use vstd::slice::{slice_subrange, slice_to_vec};
use crate::pattern::{find_from, find_pattern, lemma_find_from_props};

verus! {

/// The delimiter, the ASCII text `oent`.
pub open spec fn delimiter() -> Seq<u8> {
    seq![0x6fu8, 0x65u8, 0x6eu8, 0x74u8]
}

/// The stretches of `s` between occurrences of the delimiter, in order.
/// Splitting always yields at least one chunk: the text before the first
/// occurrence, or all of `s` when the delimiter never occurs.
pub open spec fn split_spec(s: Seq<u8>) -> Seq<Seq<u8>>
    decreases s.len(),
    via split_spec_dec
{
    match find_from(s, delimiter(), 0) {
        Option::None => seq![s],
        Option::Some(i) => seq![s.subrange(0, i)] + split_spec(
            s.subrange(i + delimiter().len(), s.len() as int),
        ),
    }
}

#[via_fn]
proof fn split_spec_dec(s: Seq<u8>) {
    if find_from(s, delimiter(), 0) is Some {
        lemma_find_from_props(s, delimiter(), 0);
    }
}

/// The delimiter as a byte vector for the executable search.
fn delimiter_bytes() -> (r: Vec<u8>)
    ensures
        r@ == delimiter(),
{
    let mut d: Vec<u8> = Vec::new();
    d.push(0x6f);
    d.push(0x65);
    d.push(0x6e);
    d.push(0x74);
    proof {
        assert(d@ =~= delimiter());
    }
    d
}

/// Split the decoded content on every occurrence of the delimiter.
pub fn split_chunks(content: &[u8]) -> (r: Vec<Vec<u8>>)
    ensures
        r@.map_values(|c: Vec<u8>| c@) == split_spec(content@),
{
    let delim = delimiter_bytes();
    let mut chunks: Vec<Vec<u8>> = Vec::new();
    let mut pos: usize = 0;
    proof {
        assert(content@.subrange(0, content@.len() as int) =~= content@);
        assert(chunks@.map_values(|c: Vec<u8>| c@) + split_spec(content@) =~= split_spec(
            content@,
        ));
    }
    loop
        invariant_except_break
            pos <= content@.len(),
            delim@ == delimiter(),
            chunks@.map_values(|c: Vec<u8>| c@) + split_spec(
                content@.subrange(pos as int, content@.len() as int),
            ) == split_spec(content@),
        ensures
            chunks@.map_values(|c: Vec<u8>| c@) == split_spec(content@),
        decreases content@.len() - pos,
    {
        let tail = slice_subrange(content, pos, content.len());
        let found = find_pattern(tail, delim.as_slice());
        match found {
            Option::None => {
                let ghost pre = chunks@.map_values(|c: Vec<u8>| c@);
                chunks.push(slice_to_vec(tail));
                proof {
                    assert(chunks@.map_values(|c: Vec<u8>| c@) =~= pre + seq![tail@]);
                    assert(split_spec(tail@) == seq![tail@]);
                }
                break;
            },
            Option::Some(i) => {
                proof {
                    lemma_find_from_props(tail@, delimiter(), 0);
                }
                let chunk = slice_subrange(tail, 0, i);
                let ghost pre = chunks@.map_values(|c: Vec<u8>| c@);
                chunks.push(slice_to_vec(chunk));
                let next: usize = pos + i + 4;
                proof {
                    assert(chunks@.map_values(|c: Vec<u8>| c@) =~= pre + seq![chunk@]);
                    assert(split_spec(tail@) == seq![tail@.subrange(0, i as int)] + split_spec(
                        tail@.subrange(i + 4, tail@.len() as int),
                    ));
                    assert(chunk@ =~= tail@.subrange(0, i as int));
                    assert(content@.subrange(next as int, content@.len() as int) =~= tail@
                        .subrange(i + 4, tail@.len() as int));
                }
                pos = next;
            },
        }
    }
    chunks
}

} // verus!
