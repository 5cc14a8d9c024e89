//! Byte decoder: maps a raw byte buffer to text in which character `i` has
//! the codepoint of byte `i`. Lossless and exactly reversible for every byte
//! value 0 through 255, so the rest of the pipeline can treat raw binary
//! content, embedded NULs included, as ordinary text.

use vstd::prelude::*;

verus! {

/// The decoded text of a byte sequence: one character per byte, with the
/// character's codepoint equal to the byte's value.
pub open spec fn decode_spec(b: Seq<u8>) -> Seq<char> {
    b.map_values(|x: u8| x as char)
}

/// The inverse reading: each character's codepoint, truncated to a byte.
/// On the image of `decode_spec` no truncation ever happens.
pub open spec fn encode_spec(s: Seq<char>) -> Seq<u8> {
    s.map_values(|c: char| c as u8)
}

/// Decoding is exactly reversible: reading back every character's codepoint
/// reproduces the original byte sequence.
pub proof fn lemma_decode_round_trip(b: Seq<u8>)
    ensures
        decode_spec(b).len() == b.len(),
        forall|i: int| 0 <= i < b.len() ==> #[trigger] decode_spec(b)[i] as u32 == b[i],
        encode_spec(decode_spec(b)) == b,
{
    assert(encode_spec(decode_spec(b)) =~= b);
}

/// Decode a raw byte buffer into one character per byte.
pub fn decode_bytes(s: &[u8]) -> (r: Vec<char>)
    ensures
        r@ == decode_spec(s@),
{
    let mut out: Vec<char> = Vec::new();
    let mut i: usize = 0;
    while i < s.len()
        invariant
            i <= s@.len(),
            out@ == decode_spec(s@.subrange(0, i as int)),
        decreases s@.len() - i,
    {
        out.push(s[i] as char);
        proof {
            assert(s@.subrange(0, i + 1) =~= s@.subrange(0, i as int).push(s@[i as int]));
            assert(decode_spec(s@.subrange(0, i + 1)) =~= out@);
        }
        i = i + 1;
    }
    proof {
        assert(s@.subrange(0, s@.len() as int) =~= s@);
    }
    out
}

/// Relies on `String`'s `FromIterator<char>` implementation: collecting
/// characters yields a string holding exactly those characters, in order.
#[verifier::external_body]
pub fn chars_to_string(v: &Vec<char>) -> (r: String)
    ensures
        r@ == v@,
{
    v.iter().collect()
}

/// Decode a raw byte buffer to text, one character per byte, each with the
/// codepoint of its byte.
pub fn latin1_to_string(s: &[u8]) -> (r: String)
    ensures
        r@ == decode_spec(s@),
{
    let chars = decode_bytes(s);
    chars_to_string(&chars)
}

} // verus!
