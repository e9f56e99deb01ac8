use vstd::prelude::*;

verus! {

/// The Levenshtein edit distance between two character sequences, as the
/// strsim crate computes it: a function of the two sequences alone.
pub uninterp spec fn edit_distance(a: Seq<char>, b: Seq<char>) -> nat;

/// Relies on strsim::levenshtein: the minimum number of character
/// insertions, deletions and substitutions required to change one string
/// into the other.
#[verifier::external_body]
pub(crate) fn levenshtein(a: &str, b: &str) -> (d: usize)
    ensures
        d as nat == edit_distance(a@, b@),
{
    strsim::levenshtein(a, b)
}

/// The longer of the two character counts.
pub open spec fn longer_len(a: Seq<char>, b: Seq<char>) -> int {
    if a.len() >= b.len() {
        a.len() as int
    } else {
        b.len() as int
    }
}

/// Numerator of the normalized similarity score of `a` and `b`. The score
/// is `sim_num / sim_den`, which equals `1 - distance / longer_len` and is
/// `1` for two empty strings, as strsim normalizes its distance.
pub open spec fn sim_num(a: Seq<char>, b: Seq<char>) -> int {
    let m = longer_len(a, b);
    if m == 0 {
        1
    } else if edit_distance(a, b) > m {
        0
    } else {
        m - edit_distance(a, b)
    }
}

/// Denominator of the normalized similarity score of `a` and `b`; always
/// positive.
pub open spec fn sim_den(a: Seq<char>, b: Seq<char>) -> int {
    let m = longer_len(a, b);
    if m == 0 {
        1
    } else {
        m
    }
}

/// Whether the similarity of `a` and `b` lies strictly above a threshold
/// given in thousandths.
pub open spec fn clears_threshold(a: Seq<char>, b: Seq<char>, t: int) -> bool {
    1000 * sim_num(a, b) > t * sim_den(a, b)
}

/// Whether the score `n1 / d1` lies strictly above the score `n2 / d2`.
pub open spec fn score_gt(n1: int, d1: int, n2: int, d2: int) -> bool {
    n1 * d2 > n2 * d1
}

/// Similarity score of two strings as an exact fraction.
pub fn score_parts(a: &str, b: &str) -> (r: (usize, usize))
    ensures
        r.0 == sim_num(a@, b@),
        r.1 == sim_den(a@, b@),
{
    let d = levenshtein(a, b);
    let la = a.unicode_len();
    let lb = b.unicode_len();
    let m = if la >= lb {
        la
    } else {
        lb
    };
    if m == 0 {
        (1, 1)
    } else if d > m {
        (0, m)
    } else {
        (m - d, m)
    }
}

/// Decides `1000 * num > t * den` without overflow.
pub fn exceeds_threshold(num: usize, den: usize, t: u32) -> (r: bool)
    ensures
        r == (1000 * num > t * den),
{
    let lhs: u128 = num as u128;
    let rhs1: u128 = t as u128;
    let rhs2: u128 = den as u128;
    proof {
        assert(1000 * lhs <= 1000 * 0xffff_ffff_ffff_ffffu128) by (nonlinear_arith)
            requires
                lhs <= 0xffff_ffff_ffff_ffffu128,
        ;
        assert(rhs1 * rhs2 <= 0xffff_ffffu128 * 0xffff_ffff_ffff_ffffu128) by (nonlinear_arith)
            requires
                rhs1 <= 0xffff_ffffu128,
                rhs2 <= 0xffff_ffff_ffff_ffffu128,
        ;
    }
    1000u128 * lhs > rhs1 * rhs2
}

/// Decides `n1 / d1 > n2 / d2` without overflow.
pub fn fraction_gt(n1: usize, d1: usize, n2: usize, d2: usize) -> (r: bool)
    ensures
        r == score_gt(n1 as int, d1 as int, n2 as int, d2 as int),
{
    let a: u128 = n1 as u128;
    let b: u128 = d2 as u128;
    let c: u128 = n2 as u128;
    let d: u128 = d1 as u128;
    proof {
        assert(a * b <= 0xffff_ffff_ffff_ffffu128 * 0xffff_ffff_ffff_ffffu128)
            by (nonlinear_arith)
            requires
                a <= 0xffff_ffff_ffff_ffffu128,
                b <= 0xffff_ffff_ffff_ffffu128,
        ;
        assert(c * d <= 0xffff_ffff_ffff_ffffu128 * 0xffff_ffff_ffff_ffffu128)
            by (nonlinear_arith)
            requires
                c <= 0xffff_ffff_ffff_ffffu128,
                d <= 0xffff_ffff_ffff_ffffu128,
        ;
    }
    a * b > c * d
}

} // verus!
