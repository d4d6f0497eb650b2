//! Similarity scores.
//!
//! Scores are Jaro-Winkler similarities, doubles in `[0, 1]`. The library
//! carries them as the IEEE-754 bit pattern of the double, held in a `u64`:
//! for nonnegative doubles the unsigned order of the bit patterns is exactly
//! the numeric order, so every threshold comparison on the bits means the
//! same as it would on the number itself. The threshold constants below are
//! the bit patterns of the corresponding doubles.

use vstd::prelude::*;
use vstd::arithmetic::power2::pow2;
use vstd::bits::lemma_u64_shr_is_div;

verus! {

/// Bit pattern of 1.0, the largest similarity.
pub const SIM_ONE_BITS: u64 = 0x3FF0000000000000;

/// Bit pattern of 0.85: below it a title difference is an error, and a
/// title-search candidate is rejected.
pub const TITLE_MATCH_THRESHOLD_BITS: u64 = 0x3FEB333333333333;

/// Bit pattern of 0.90: between the match threshold and this, a title
/// difference is a warning.
pub const TITLE_WARNING_THRESHOLD_BITS: u64 = 0x3FECCCCCCCCCCCCD;

/// Bit pattern of 0.80: below it an author name difference is a warning.
pub const AUTHOR_MATCH_THRESHOLD_BITS: u64 = 0x3FE999999999999A;

/// Bit pattern of 0.70: below it a venue difference is reported as info.
pub const VENUE_INFO_THRESHOLD_BITS: u64 = 0x3FE6666666666666;

/// Bit pattern of 0.75: the least title similarity an identifier-based
/// lookup result must reach to be trusted.
pub const MIN_TITLE_SIM_FOR_ID_LOOKUP_BITS: u64 = 0x3FE8000000000000;

/// Bit pattern of 0.95: confidence in a match found by arXiv identifier on
/// the arXiv service itself.
pub const CONF_ARXIV_BITS: u64 = 0x3FEE666666666666;

/// Bit pattern of 0.90: confidence in a match found by arXiv identifier on
/// the secondary service.
pub const CONF_SEMANTIC_ARXIV_BITS: u64 = 0x3FECCCCCCCCCCCCD;

/// Bit pattern of 0.80: confidence in a DOI lookup match that shows
/// discrepancies.
pub const CONF_DOI_DISCREPANT_BITS: u64 = 0x3FE999999999999A;

/// The Jaro-Winkler similarity of two character sequences, as the bit
/// pattern of the double that `strsim::jaro_winkler` computes.
pub uninterp spec fn jaro_winkler_bits(a: Seq<char>, b: Seq<char>) -> u64;

/// Relies on `strsim::jaro_winkler`: the similarity depends on the two
/// strings alone, lies in `[0, 1]`, and is exactly 1.0 for equal strings.
#[verifier::external_body]
pub fn jaro_winkler_sim(a: &str, b: &str) -> (r: u64)
    ensures
        r == jaro_winkler_bits(a@, b@),
        r <= SIM_ONE_BITS,
        a@ == b@ ==> r == SIM_ONE_BITS,
{
    strsim::jaro_winkler(a, b).to_bits()
}

/// The whole percentage of the similarity: for the nonnegative double `v`
/// whose bits are given, `⌊100·v⌋`, read off the exponent and fraction
/// fields of the encoding.
pub open spec fn sim_percent(bits: u64) -> int {
    let e = (bits >> 52u64) as int;
    let f = (bits & 0xF_FFFF_FFFF_FFFFu64) as int;
    if e < 1012 {
        0
    } else if e <= 1023 {
        ((0x10000000000000 + f) * 100) / (pow2((1075 - e) as nat) as int)
    } else {
        100
    }
}

/// Extracts the whole percentage `⌊100·v⌋` of the similarity `v` whose bit
/// pattern is given.
pub fn percent_from_bits(bits: u64) -> (p: u64)
    requires
        bits <= SIM_ONE_BITS,
    ensures
        p as int == sim_percent(bits),
        p <= 100,
{
    let e: u64 = bits >> 52;
    let f: u64 = bits & 0xF_FFFF_FFFF_FFFF;
    assert(e <= 1023 && f < 0x10000000000000) by (bit_vector)
        requires
            bits <= 0x3FF0000000000000u64,
            e == bits >> 52,
            f == bits & 0xF_FFFF_FFFF_FFFFu64,
    ;
    if e < 1012 {
        0
    } else {
        let shift: u64 = 1075 - e;
        let base: u64 = (1u64 << 52) | f;
        assert(base == 0x10000000000000 + f && (e == 1023 ==> f == 0)) by (bit_vector)
            requires
                bits <= 0x3FF0000000000000u64,
                e == bits >> 52,
                f == bits & 0xF_FFFF_FFFF_FFFFu64,
                base == (1u64 << 52) | f,
        ;
        let num: u64 = base * 100;
        let p: u64 = num >> shift;
        proof {
            lemma_u64_shr_is_div(num, shift);
            vstd::arithmetic::power2::lemma_pow2_pos(shift as nat);
            assert(p as int == (num as int) / (pow2(shift as nat) as int));
            assert(p <= 100) by (bit_vector)
                requires
                    base == (1u64 << 52) | f,
                    f < 0x10000000000000u64,
                    num == base * 100,
                    p == num >> shift,
                    52 <= shift < 64,
                    (shift == 52 ==> f == 0),
            ;
        }
        p
    }
}

} // verus!
