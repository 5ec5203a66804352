//! Similarity of a free-text description to a contact's name, by longest
//! common subsequence of characters.
use vstd::prelude::*;
use vstd::string::StrSliceExecFns;

verus! {

/// Length of a longest common subsequence of `a` and `b`.
pub open spec fn lcs_len(a: Seq<char>, b: Seq<char>) -> nat
    decreases a.len() + b.len(),
{
    if a.len() == 0 || b.len() == 0 {
        0
    } else if a.last() == b.last() {
        lcs_len(a.drop_last(), b.drop_last()) + 1
    } else {
        let x = lcs_len(a.drop_last(), b);
        let y = lcs_len(a, b.drop_last());
        if x >= y {
            x
        } else {
            y
        }
    }
}

pub open spec fn max_len(a: Seq<char>, b: Seq<char>) -> nat {
    if a.len() >= b.len() {
        a.len()
    } else {
        b.len()
    }
}

/// A ratio `common / longest` reaches the plausibility threshold of one
/// fifth (0.2), the threshold included. Two empty texts count as equal.
pub open spec fn plausible_ratio(common: nat, longest: nat) -> bool {
    5 * common >= longest
}

/// Whether `description` plausibly names `name`.
pub open spec fn plausible_match(description: Seq<char>, name: Seq<char>) -> bool {
    plausible_ratio(lcs_len(description, name), max_len(description, name))
}

/// Relies on rapidfuzz's `distance::lcs_seq::similarity`, which returns the
/// length of a longest common subsequence of the two character sequences.
#[verifier::external_body]
fn lcs_similarity(a: &str, b: &str) -> (r: usize)
    ensures
        r as nat == lcs_len(a@, b@),
{
    rapidfuzz::distance::lcs_seq::similarity(a.chars(), b.chars())
}

/// A normalized similarity score, the ratio `common / longest` in [0, 1],
/// held exactly as its two terms; with `longest == 0` the score is 1.
#[derive(Debug, Clone, Copy, PartialEq, Eq, Structural)]
pub struct Similarity {
    pub common: usize,
    pub longest: usize,
}

impl Similarity {
    pub open spec fn wf(&self) -> bool {
        self.common <= self.longest
    }

    /// Whether the score is at least 0.2.
    pub fn is_plausible(&self) -> (r: bool)
        ensures
            r == plausible_ratio(self.common as nat, self.longest as nat),
    {
        (self.common as u128) * 5 >= self.longest as u128
    }
}

/// The longest-common-subsequence similarity of `description` and `name`,
/// compared case-sensitively as given.
pub fn contact_similarity(description: &str, name: &str) -> (r: Similarity)
    ensures
        r.common as nat == lcs_len(description@, name@),
        r.longest as nat == max_len(description@, name@),
        r.wf(),
{
    let common = lcs_similarity(description, name);
    let a = description.unicode_len();
    let b = name.unicode_len();
    let longest = if a >= b {
        a
    } else {
        b
    };
    proof {
        lemma_lcs_bounded(description@, name@);
    }
    Similarity { common, longest }
}

/// A common subsequence is no longer than either sequence.
pub proof fn lemma_lcs_bounded(a: Seq<char>, b: Seq<char>)
    ensures
        lcs_len(a, b) <= a.len(),
        lcs_len(a, b) <= b.len(),
    decreases a.len() + b.len(),
{
    if a.len() > 0 && b.len() > 0 {
        lemma_lcs_bounded(a.drop_last(), b.drop_last());
        lemma_lcs_bounded(a.drop_last(), b);
        lemma_lcs_bounded(a, b.drop_last());
    }
}

/// A sequence shares all of itself with itself.
pub proof fn lemma_lcs_identical(a: Seq<char>)
    ensures
        lcs_len(a, a) == a.len(),
    decreases a.len(),
{
    if a.len() > 0 {
        lemma_lcs_identical(a.drop_last());
    }
}

/// Sequences with no character in common share nothing.
pub proof fn lemma_lcs_disjoint(a: Seq<char>, b: Seq<char>)
    requires
        forall|i: int, j: int| 0 <= i < a.len() && 0 <= j < b.len() ==> a[i] != b[j],
    ensures
        lcs_len(a, b) == 0,
    decreases a.len() + b.len(),
{
    if a.len() > 0 && b.len() > 0 {
        assert(a.last() != b.last());
        lemma_lcs_disjoint(a.drop_last(), b);
        lemma_lcs_disjoint(a, b.drop_last());
    }
}

/// The similarity of a text to itself is 1, and that of two non-empty texts
/// with no character in common is 0.
pub proof fn lemma_similarity_extremes(a: Seq<char>, b: Seq<char>)
    ensures
        lcs_len(a, a) == max_len(a, a),
        (forall|i: int, j: int| 0 <= i < a.len() && 0 <= j < b.len() ==> a[i] != b[j])
            ==> lcs_len(a, b) == 0,
        plausible_match(a, a),
{
    lemma_lcs_identical(a);
    if forall|i: int, j: int| 0 <= i < a.len() && 0 <= j < b.len() ==> a[i] != b[j] {
        lemma_lcs_disjoint(a, b);
    }
}

/// The threshold is inclusive: where the longer text is non-empty, a score
/// of exactly 0.2 is plausible and one of 0.1999 is not.
pub proof fn lemma_threshold_boundary(common: nat, longest: nat)
    requires
        longest > 0,
    ensures
        5 * common == longest ==> plausible_ratio(common, longest),
        10000 * common == 1999 * longest ==> !plausible_ratio(common, longest),
{
    if 10000 * common == 1999 * longest {
        assert(5 * common < longest) by (nonlinear_arith)
            requires
                10000 * common == 1999 * longest,
                longest > 0,
        ;
    }
}

} // verus!
