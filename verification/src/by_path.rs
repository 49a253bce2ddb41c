//! Subtitle lookup by file identity: the content fingerprint of a video
//! file and the search URL built from it.
//!
//! The fingerprint sums, with 64-bit wraparound, the file's byte size and
//! every 64-bit little-endian word of the first and of the last 64 KiB of
//! the file, and renders the sum as sixteen lowercase hexadecimal digits.
//! The subtitle database indexes by exactly this value, so the computation
//! is bit-exact.
use vstd::prelude::*;
use crate::numbers::{dec_str, hex16, push_dec, push_hex16};
use crate::text::string_of_chars;
use vstd::string::StringExecFns;

verus! {

/// The 64-bit little-endian word at word-index `i` of `b`.
pub open spec fn word_at(b: Seq<u8>, i: int) -> u64 {
    (b[8 * i] + b[8 * i + 1] * 0x100 + b[8 * i + 2] * 0x1_0000 + b[8 * i + 3] * 0x100_0000 + b[8
        * i + 4] * 0x1_0000_0000 + b[8 * i + 5] * 0x100_0000_0000 + b[8 * i + 6]
        * 0x1_0000_0000_0000 + b[8 * i + 7] * 0x100_0000_0000_0000) as u64
}

/// `h` plus the first `k` words of `b`, added with 64-bit wraparound.
pub open spec fn hash_upto(b: Seq<u8>, k: int, h: u64) -> u64
    decreases k,
{
    if k <= 0 {
        h
    } else {
        vstd::wrapping::u64_specs::wrapping_add(hash_upto(b, k - 1, h), word_at(b, k - 1))
    }
}

/// The 64-bit fingerprint of a file of `size` bytes whose first 64 KiB are
/// `first` and whose last 64 KiB are `last`: the size plus all 8192 words
/// of each block, added with wraparound.
pub open spec fn spec_hash(first: Seq<u8>, last: Seq<u8>, size: u64) -> u64 {
    hash_upto(last, 8192, hash_upto(first, 8192, size))
}

/// The fingerprint rendered as sixteen lowercase hexadecimal digits.
pub open spec fn spec_create_hash(first: Seq<u8>, last: Seq<u8>, size: u64) -> Seq<char> {
    hex16(spec_hash(first, last, size))
}

/// Adds the 8192 words of one 64 KiB block to `h0` with wraparound.
fn add_block(h0: u64, b: &Vec<u8>) -> (h: u64)
    requires
        b@.len() == 65536,
    ensures
        h == hash_upto(b@, 8192, h0),
{
    let mut h = h0;
    let mut i: usize = 0;
    while i < 8192
        invariant
            b@.len() == 65536,
            i <= 8192,
            h == hash_upto(b@, i as int, h0),
        decreases 8192 - i,
    {
        let base = 8 * i;
        let w: u64 = b[base] as u64 + (b[base + 1] as u64) * 0x100 + (b[base + 2] as u64)
            * 0x1_0000 + (b[base + 3] as u64) * 0x100_0000 + (b[base + 4] as u64) * 0x1_0000_0000
            + (b[base + 5] as u64) * 0x100_0000_0000 + (b[base + 6] as u64) * 0x1_0000_0000_0000 + (
        b[base + 7] as u64) * 0x100_0000_0000_0000;
        assert(w == word_at(b@, i as int));
        h = h.wrapping_add(w);
        i = i + 1;
    }
    h
}

/// The content fingerprint of a video file, rendered as sixteen lowercase
/// hexadecimal digits. `first_block` and `last_block` are the first and the
/// last 64 KiB of the file and `size` is its full byte length.
pub fn create_hash(first_block: &Vec<u8>, last_block: &Vec<u8>, size: u64) -> (r: String)
    requires
        first_block@.len() == 65536,
        last_block@.len() == 65536,
        size >= 65536,
    ensures
        r@ == spec_create_hash(first_block@, last_block@, size),
{
    let h1 = add_block(size, first_block);
    let h2 = add_block(h1, last_block);
    let mut v: Vec<char> = Vec::new();
    push_hex16(&mut v, h2);
    assert(v@ =~= hex16(h2));
    string_of_chars(&v)
}

/// The fingerprint is deterministic: two renderings that both meet
/// `create_hash`'s contract for the same blocks and the same size are the
/// same text, however the reads that filled the blocks were ordered.
pub proof fn lemma_fingerprint_deterministic(
    first: Seq<u8>,
    last: Seq<u8>,
    size: u64,
    r1: Seq<char>,
    r2: Seq<char>,
)
    requires
        r1 == spec_create_hash(first, last, size),
        r2 == spec_create_hash(first, last, size),
    ensures
        r1 == r2,
{
}

/// The subtitle-database search URL for a file of `size` bytes with the
/// given content hash, querying subtitles in English.
pub fn format_url(size: u64, hash: &str) -> (r: String)
    ensures
        r@ == "https://rest.opensubtitles.org/search/moviebytesize-"@ + dec_str(size as int)
            + "/moviehash-"@ + hash@ + "/sublanguageid-eng"@,
{
    let mut s = String::from_str("https://rest.opensubtitles.org/search/moviebytesize-");
    let mut num: Vec<char> = Vec::new();
    push_dec(&mut num, size);
    let ns = string_of_chars(&num);
    s.append(ns.as_str());
    s.append("/moviehash-");
    s.append(hash);
    s.append("/sublanguageid-eng");
    assert(s@ =~= "https://rest.opensubtitles.org/search/moviebytesize-"@ + dec_str(size as int)
        + "/moviehash-"@ + hash@ + "/sublanguageid-eng"@);
    s
}

} // verus!
