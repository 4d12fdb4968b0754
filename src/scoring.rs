use vstd::prelude::*;

use crate::model::UserQuestion;

verus! {

/// A correct answer supplied by the owner when a round is scored.
#[derive(Clone, Debug, PartialEq)]
pub struct Answer {
    pub answer: String,
    pub question_id: i32,
}

/// The correct answers of a round.
#[derive(Clone, Debug, PartialEq)]
pub struct Params {
    pub answers: Vec<Answer>,
}

pub open spec fn answer_matches(a: Answer, p: UserQuestion) -> bool {
    a.question_id == p.question_id && a.answer@ == p.answer@
}

/// How many of the correct answers `pick` matches; duplicates count each time.
pub open spec fn matches_count(correct: Seq<Answer>, pick: UserQuestion) -> nat
    decreases correct.len(),
{
    if correct.len() == 0 {
        0
    } else {
        matches_count(correct.drop_last(), pick) + if answer_matches(correct.last(), pick) {
            1nat
        } else {
            0nat
        }
    }
}

/// The points that `user_id` earns in `round_id`: one for every pair of one of the
/// user's picks in that round and a correct answer that it matches.
pub open spec fn tally(
    picks: Seq<UserQuestion>,
    correct: Seq<Answer>,
    round_id: i32,
    user_id: i32,
) -> nat
    decreases picks.len(),
{
    if picks.len() == 0 {
        0
    } else {
        tally(picks.drop_last(), correct, round_id, user_id) + if picks.last().round_id
            == round_id && picks.last().user_id == user_id {
            matches_count(correct, picks.last())
        } else {
            0nat
        }
    }
}

/// Counts the correct answers that `pick` matches.
pub fn count_matches(correct: &Vec<Answer>, pick: &UserQuestion) -> (r: u64)
    ensures
        r == matches_count(correct@, *pick),
        r <= correct@.len(),
{
    let mut r: u64 = 0;
    let mut i: usize = 0;
    while i < correct.len()
        invariant
            i <= correct.len(),
            r == matches_count(correct@.subrange(0, i as int), *pick),
            r <= i,
        decreases correct.len() - i,
    {
        proof {
            assert(correct@.subrange(0, i + 1).drop_last() == correct@.subrange(0, i as int));
        }
        let a = &correct[i];
        if a.question_id == pick.question_id && a.answer == pick.answer {
            r = r + 1;
        }
        i = i + 1;
    }
    proof {
        assert(correct@.subrange(0, correct@.len() as int) == correct@);
    }
    r
}

/// Sums the points that `user_id` earns in `round_id` over all picks.
pub fn user_tally(picks: &Vec<UserQuestion>, correct: &Vec<Answer>, round_id: i32, user_id: i32)
    -> (r: u128)
    ensures
        r == tally(picks@, correct@, round_id, user_id),
{
    let mut r: u128 = 0;
    let mut i: usize = 0;
    let m: usize = correct.len();
    while i < picks.len()
        invariant
            i <= picks.len(),
            m == correct@.len(),
            r == tally(picks@.subrange(0, i as int), correct@, round_id, user_id),
            r <= (i as int) * (m as int),
        decreases picks.len() - i,
    {
        proof {
            assert(picks@.subrange(0, i + 1).drop_last() == picks@.subrange(0, i as int));
            assert((i as int + 1) * (m as int) == (i as int) * (m as int) + m) by (nonlinear_arith);
            assert((i as int + 1) * (m as int) <= (usize::MAX as int) * (usize::MAX as int))
                by (nonlinear_arith)
                requires
                    i + 1 <= usize::MAX,
                    m <= usize::MAX,
            ;
        }
        let p = &picks[i];
        if p.round_id == round_id && p.user_id == user_id {
            let c = count_matches(correct, p);
            r = r + c as u128;
        }
        i = i + 1;
    }
    proof {
        assert(picks@.subrange(0, picks@.len() as int) == picks@);
    }
    r
}

/// Of a round where the user holds exactly two picks, one matching a single correct
/// answer and the other none, scoring credits the user exactly one point.
pub proof fn lemma_one_matching_pick_scores_one(
    matching: UserQuestion,
    missing: UserQuestion,
    correct: Seq<Answer>,
)
    requires
        matching.round_id == missing.round_id,
        matching.user_id == missing.user_id,
        matches_count(correct, matching) == 1,
        matches_count(correct, missing) == 0,
    ensures
        tally(seq![matching, missing], correct, matching.round_id, matching.user_id) == 1,
        tally(seq![missing, matching], correct, matching.round_id, matching.user_id) == 1,
{
    let g = matching.round_id;
    let u = matching.user_id;
    assert(seq![matching, missing].drop_last() == seq![matching]);
    assert(seq![matching].drop_last() == Seq::<UserQuestion>::empty());
    assert(seq![missing, matching].drop_last() == seq![missing]);
    assert(seq![missing].drop_last() == Seq::<UserQuestion>::empty());
    assert(tally(Seq::<UserQuestion>::empty(), correct, g, u) == 0);
    assert(tally(seq![matching], correct, g, u) == 1);
    assert(tally(seq![missing], correct, g, u) == 0);
}

} // verus!
