//! Aggregation engine: turns a sequence of check results into a composite
//! score in [0, 100] and a letter grade, by clamped subtraction from a
//! perfect baseline.

use vstd::prelude::*;
use crate::checks::CheckResult;

verus! {

/// Perfect-compliance baseline from which every penalty is subtracted.
pub const BASELINE_SCORE: i32 = 100;

/// Lowest score that still earns an A.
pub const GRADE_A_MIN: i32 = 90;

/// Lowest score that still earns a B.
pub const GRADE_B_MIN: i32 = 75;

/// Lowest score that still earns a C.
pub const GRADE_C_MIN: i32 = 60;

/// Lowest score that still earns a D.
pub const GRADE_D_MIN: i32 = 40;

/// Sum of the penalties of a sequence of results.
pub open spec fn sum_impacts(results: Seq<CheckResult>) -> int
    decreases results.len(),
{
    if results.len() == 0 {
        0
    } else {
        results[0].score_impact + sum_impacts(results.drop_first())
    }
}

/// Clamp a raw score into the closed range [0, BASELINE_SCORE].
pub open spec fn clamp_score(raw: int) -> int {
    if raw < 0 {
        0
    } else if raw > BASELINE_SCORE as int {
        BASELINE_SCORE as int
    } else {
        raw
    }
}

/// The composite score of a sequence of results: the baseline minus every
/// penalty, clamped into [0, BASELINE_SCORE].
pub open spec fn score_spec(results: Seq<CheckResult>) -> int {
    clamp_score(BASELINE_SCORE - sum_impacts(results))
}

proof fn lemma_sum_impacts_push(s: Seq<CheckResult>, r: CheckResult)
    ensures
        sum_impacts(s.push(r)) == sum_impacts(s) + r.score_impact,
    decreases s.len(),
{
    if s.len() == 0 {
        assert(s.push(r)[0] == r);
        assert(s.push(r).drop_first() =~= Seq::<CheckResult>::empty());
        assert(sum_impacts(s.push(r)) == r.score_impact + sum_impacts(s.push(r).drop_first()));
    } else {
        assert(s.push(r)[0] == s[0]);
        assert(s.push(r).drop_first() =~= s.drop_first().push(r));
        lemma_sum_impacts_push(s.drop_first(), r);
    }
}

proof fn lemma_sum_impacts_remove(s: Seq<CheckResult>, i: int)
    requires
        0 <= i < s.len(),
    ensures
        sum_impacts(s.remove(i)) == sum_impacts(s) - s[i].score_impact,
    decreases i,
{
    if i == 0 {
        assert(s.remove(0) =~= s.drop_first());
    } else {
        assert(s.remove(i).drop_first() =~= s.drop_first().remove(i - 1));
        lemma_sum_impacts_remove(s.drop_first(), i - 1);
    }
}

proof fn lemma_sum_impacts_permutation(s1: Seq<CheckResult>, s2: Seq<CheckResult>)
    requires
        s1.to_multiset() == s2.to_multiset(),
    ensures
        sum_impacts(s1) == sum_impacts(s2),
    decreases s1.len(),
{
    broadcast use vstd::seq_lib::group_to_multiset_ensures;

    if s1.len() == 0 {
        assert(s2.len() == s2.to_multiset().len());
    } else {
        let x = s1[0];
        assert(s1.contains(x));
        assert(s2.to_multiset().count(x) > 0);
        assert(s2.contains(x));
        let j = choose|j: int| 0 <= j < s2.len() && s2[j] == x;
        assert(s1.drop_first() =~= s1.remove(0));
        assert(s1.remove(0).to_multiset() =~= s1.to_multiset().remove(x));
        assert(s2.remove(j).to_multiset() =~= s2.to_multiset().remove(x));
        lemma_sum_impacts_permutation(s1.drop_first(), s2.remove(j));
        lemma_sum_impacts_remove(s2, j);
    }
}

/// Scoring is order-independent: two result sequences that hold the same
/// results (as a multiset, so in any order) get the same composite score.
pub proof fn lemma_score_order_independent(s1: Seq<CheckResult>, s2: Seq<CheckResult>)
    requires
        s1.to_multiset() == s2.to_multiset(),
    ensures
        score_spec(s1) == score_spec(s2),
{
    lemma_sum_impacts_permutation(s1, s2);
}

/// The composite score always lies in [0, 100], whatever the penalties;
/// an empty run scores the full baseline.
pub proof fn lemma_score_in_range(results: Seq<CheckResult>)
    ensures
        0 <= score_spec(results) <= 100,
        results.len() == 0 ==> score_spec(results) == 100,
{
}

/// Composite score of one audit run: the baseline minus every result's
/// penalty, clamped into [0, BASELINE_SCORE].
pub fn calculate_score(results: &Vec<CheckResult>) -> (score: i32)
    ensures
        score as int == score_spec(results@),
        0 <= score <= 100,
{
    let mut total: i128 = 0;
    let mut idx: usize = 0;
    while idx < results.len()
        invariant
            idx <= results@.len(),
            total as int == sum_impacts(results@.take(idx as int)),
            -0x8000_0000 * (idx as int) <= total as int <= 0x8000_0000 * (idx as int),
        decreases results@.len() - idx,
    {
        proof {
            assert(results@.take(idx as int + 1) =~= results@.take(idx as int).push(
                results@[idx as int],
            ));
            lemma_sum_impacts_push(results@.take(idx as int), results@[idx as int]);
            assert(0x8000_0000 * (idx as int + 1) == 0x8000_0000 * (idx as int) + 0x8000_0000)
                by (nonlinear_arith);
            assert(0x8000_0000 * (idx as int + 1) <= 0x8000_0000 * 0x1_0000_0000_0000_0000)
                by (nonlinear_arith)
                requires
                    idx as int + 1 <= 0x1_0000_0000_0000_0000,
            ;
        }
        total = total + (results[idx].score_impact as i128);
        idx += 1;
    }
    proof {
        assert(results@.take(results@.len() as int) =~= results@);
        assert(0x8000_0000 * (idx as int) <= 0x8000_0000 * 0x1_0000_0000_0000_0000)
            by (nonlinear_arith)
            requires
                idx as int <= 0x1_0000_0000_0000_0000,
        ;
        assert(-0x8000_0000 * (idx as int) >= -0x8000_0000 * 0x1_0000_0000_0000_0000)
            by (nonlinear_arith)
            requires
                idx as int <= 0x1_0000_0000_0000_0000,
        ;
    }
    let raw: i128 = (BASELINE_SCORE as i128) - total;
    if raw < 0 {
        0
    } else if raw > BASELINE_SCORE as i128 {
        BASELINE_SCORE
    } else {
        raw as i32
    }
}

/// Which letter a score earns: rank 4 down to 0 stand for A, B, C, D, F.
pub open spec fn grade_rank(score: int) -> int {
    if score >= GRADE_A_MIN as int {
        4
    } else if score >= GRADE_B_MIN as int {
        3
    } else if score >= GRADE_C_MIN as int {
        2
    } else if score >= GRADE_D_MIN as int {
        1
    } else {
        0
    }
}

/// The letter that a grade rank displays as.
pub open spec fn letter_of_rank(rank: int) -> Seq<char> {
    if rank == 4 {
        "A"@
    } else if rank == 3 {
        "B"@
    } else if rank == 2 {
        "C"@
    } else if rank == 1 {
        "D"@
    } else {
        "F"@
    }
}

/// The letter grade of a score.
pub open spec fn grade_spec(score: int) -> Seq<char> {
    letter_of_rank(grade_rank(score))
}

/// Grading is total and monotonic: a higher score never earns a strictly
/// worse letter, where a larger rank means a better letter.
pub proof fn lemma_grade_monotonic(s1: int, s2: int)
    requires
        s1 >= s2,
    ensures
        grade_rank(s1) >= grade_rank(s2),
{
}

/// Letter grade of a composite score. Total over every integer input:
/// scores below the D band grade F, scores above the baseline grade A.
pub fn grade(score: i32) -> (letter: &'static str)
    ensures
        letter@ == grade_spec(score as int),
{
    if score >= GRADE_A_MIN {
        "A"
    } else if score >= GRADE_B_MIN {
        "B"
    } else if score >= GRADE_C_MIN {
        "C"
    } else if score >= GRADE_D_MIN {
        "D"
    } else {
        "F"
    }
}

} // verus!
