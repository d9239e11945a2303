//! The text that a heavy work unit writes to each of its files.

use crate::text::{decimal_digits, decimal_string};
use vstd::prelude::*;
use vstd::string::*;

verus! {

/// Chunks in one mebibyte of generated content.
pub const CHUNKS_PER_MB: usize = 1024;

/// Filler characters at the end of every chunk.
pub const FILLER_LEN: usize = 900;

/// Nominal bytes in one chunk.
pub const CHUNK_BYTES: usize = 1024;

/// `n` times the letter `x`.
pub open spec fn filler(n: nat) -> Seq<char> {
    Seq::new(n, |i: int| 'x')
}

/// One line of generated content: its index, the seed, and the filler.
pub open spec fn chunk_text(index: nat, seed: Seq<char>) -> Seq<char> {
    "Data chunk "@ + decimal_digits(index) + " with seed "@ + seed + ": "@ + filler(
        FILLER_LEN as nat,
    ) + "\n"@
}

/// The first `chunks` lines of generated content, in order.
pub open spec fn chunked_content(chunks: nat, seed: Seq<char>) -> Seq<char>
    decreases chunks,
{
    if chunks == 0 {
        Seq::empty()
    } else {
        chunked_content((chunks - 1) as nat, seed) + chunk_text((chunks - 1) as nat, seed)
    }
}

/// The content of a file of nominal size `size_mb` mebibytes.
pub open spec fn large_content(size_mb: nat, seed: Seq<char>) -> Seq<char> {
    chunked_content(size_mb * (CHUNKS_PER_MB as nat), seed)
}

fn make_filler(n: usize) -> (r: String)
    ensures
        r@ == filler(n as nat),
{
    let mut r = String::new();
    let mut i: usize = 0;
    proof {
        reveal_strlit("x");
    }
    while i < n
        invariant
            i <= n,
            r@ == filler(i as nat),
            "x"@ == seq!['x'],
        decreases n - i,
    {
        r.append("x");
        i = i + 1;
        assert(r@ =~= filler(i as nat));
    }
    r
}

/// Generates deterministic content of nominal size `size_mb` mebibytes: one
/// line per kibibyte, each naming its index and the seed.
pub fn generate_large_content(size_mb: usize, seed: &str) -> (content: String)
    requires
        size_mb * CHUNKS_PER_MB * CHUNK_BYTES <= usize::MAX,
    ensures
        content@ == large_content(size_mb as nat, seed@),
{
    let total_chunks: usize = size_mb * CHUNKS_PER_MB;
    let fill = make_filler(FILLER_LEN);
    let mut content = String::new();
    let mut i: usize = 0;
    while i < total_chunks
        invariant
            i <= total_chunks,
            content@ == chunked_content(i as nat, seed@),
            fill@ == filler(FILLER_LEN as nat),
        decreases total_chunks - i,
    {
        let ghost before = content@;
        let index = decimal_string(i);
        content.append("Data chunk ");
        content.append(index.as_str());
        content.append(" with seed ");
        content.append(seed);
        content.append(": ");
        content.append(fill.as_str());
        content.append("\n");
        assert(content@ =~= before + chunk_text(i as nat, seed@));
        i = i + 1;
    }
    content
}

} // verus!
