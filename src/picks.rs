use vstd::prelude::*;
use vstd::string::StringExecFns;

use crate::errors::Error;
use crate::text::{decimal, decimal_string, signed_decimal, signed_decimal_string};

verus! {

/// A player's answer to one question of the game.
#[derive(Clone, Debug, PartialEq)]
pub struct Answer {
    pub id: i32,
    pub value: String,
}

/// All the answers a player submits for a round, one per question.
#[derive(Clone, Debug, PartialEq)]
pub struct SavePicksParams {
    pub answers: Vec<Answer>,
}

pub open spec fn count_message(got: nat, expected: nat) -> Seq<char> {
    "Received "@ + decimal(got) + " answers, expected "@ + decimal(expected)
}

pub open spec fn invalid_id_message(id: i32) -> Seq<char> {
    "Invalid question id: "@ + signed_decimal(id as int)
}

/// The position of the first answer, from `k` on, whose question is not among `qids`;
/// -1 where there is none.
pub open spec fn first_unknown_from(qids: Seq<i32>, answers: Seq<Answer>, k: int) -> int
    decreases answers.len() - k,
{
    if k < 0 || k >= answers.len() {
        -1
    } else if !qids.contains(answers[k].id) {
        k
    } else {
        first_unknown_from(qids, answers, k + 1)
    }
}

pub open spec fn duplicate_id_message(id: i32) -> Seq<char> {
    "Duplicate question id: "@ + signed_decimal(id as int)
}

/// Whether the answer at `k` names the same question as an earlier answer.
pub open spec fn repeats_earlier(answers: Seq<Answer>, k: int) -> bool {
    exists|j: int| 0 <= j < k && #[trigger] answers[j].id == answers[k].id
}

/// The position of the first answer, from `k` on, that names a question already
/// answered before it; -1 where there is none.
pub open spec fn first_repeat_from(answers: Seq<Answer>, k: int) -> int
    decreases answers.len() - k,
{
    if k < 0 || k >= answers.len() {
        -1
    } else if repeats_earlier(answers, k) {
        k
    } else {
        first_repeat_from(answers, k + 1)
    }
}

/// Why a submission of `answers` for a game with questions `qids` is rejected, if it is:
/// the count is checked first, then that each answer names one of the game's questions,
/// then that no question is answered twice. A submission that passes holds exactly one
/// answer for each question of the game.
pub open spec fn selection_error(qids: Seq<i32>, answers: Seq<Answer>) -> Option<Seq<char>> {
    if qids.len() != answers.len() {
        Some(count_message(answers.len() as nat, qids.len() as nat))
    } else {
        let k = first_unknown_from(qids, answers, 0);
        let d = first_repeat_from(answers, 0);
        if k >= 0 {
            Some(invalid_id_message(answers[k].id))
        } else if d >= 0 {
            Some(duplicate_id_message(answers[d].id))
        } else {
            None
        }
    }
}

pub open spec fn selection_result(r: Result<(), Error>, err: Option<Seq<char>>) -> bool {
    match err {
        None => r is Ok,
        Some(m) => r matches Err(Error::BadRequest(s)) && s@ == m,
    }
}

fn contains_id(ids: &Vec<i32>, id: i32) -> (r: bool)
    ensures
        r == ids@.contains(id),
{
    let mut i: usize = 0;
    while i < ids.len()
        invariant
            i <= ids.len(),
            forall|j: int| 0 <= j < i ==> ids@[j] != id,
        decreases ids.len() - i,
    {
        if ids[i] == id {
            return true;
        }
        i = i + 1;
    }
    false
}

/// Checks a submission against the game's question ids before anything is written.
pub fn validate_selected_questions(question_ids: &Vec<i32>, params: &SavePicksParams) -> (r:
    Result<(), Error>)
    ensures
        selection_result(r, selection_error(question_ids@, params.answers@)),
{
    if question_ids.len() != params.answers.len() {
        let mut m = String::from_str("Received ");
        m.append(decimal_string(params.answers.len() as u64).as_str());
        m.append(" answers, expected ");
        m.append(decimal_string(question_ids.len() as u64).as_str());
        assert(m@ == count_message(params.answers@.len() as nat, question_ids@.len() as nat));
        return Err(Error::BadRequest(m));
    }
    let mut i: usize = 0;
    while i < params.answers.len()
        invariant
            i <= params.answers.len(),
            question_ids@.len() == params.answers@.len(),
            first_unknown_from(question_ids@, params.answers@, 0) == first_unknown_from(
                question_ids@,
                params.answers@,
                i as int,
            ),
        decreases params.answers.len() - i,
    {
        let id = params.answers[i].id;
        if !contains_id(question_ids, id) {
            let mut m = String::from_str("Invalid question id: ");
            m.append(signed_decimal_string(id as i64).as_str());
            assert(first_unknown_from(question_ids@, params.answers@, i as int) == i);
            assert(m@ == invalid_id_message(params.answers@[i as int].id));
            return Err(Error::BadRequest(m));
        }
        i = i + 1;
    }
    let mut i: usize = 0;
    while i < params.answers.len()
        invariant
            i <= params.answers.len(),
            question_ids@.len() == params.answers@.len(),
            first_unknown_from(question_ids@, params.answers@, 0) == -1,
            first_repeat_from(params.answers@, 0) == first_repeat_from(params.answers@, i as int),
        decreases params.answers.len() - i,
    {
        let id = params.answers[i].id;
        let mut j: usize = 0;
        let mut seen = false;
        while j < i
            invariant
                j <= i < params.answers@.len(),
                id == params.answers@[i as int].id,
                seen == exists|m: int| 0 <= m < j && #[trigger] params.answers@[m].id == id,
            decreases i - j,
        {
            if params.answers[j].id == id {
                seen = true;
            }
            j = j + 1;
        }
        if seen {
            let mut m = String::from_str("Duplicate question id: ");
            m.append(signed_decimal_string(id as i64).as_str());
            assert(repeats_earlier(params.answers@, i as int));
            assert(first_repeat_from(params.answers@, i as int) == i);
            assert(m@ == duplicate_id_message(params.answers@[i as int].id));
            return Err(Error::BadRequest(m));
        }
        i = i + 1;
    }
    Ok(())
}

pub proof fn lemma_first_repeat(answers: Seq<Answer>, k: int)
    requires
        0 <= k,
    ensures
        first_repeat_from(answers, k) < 0 ==> forall|m: int|
            k <= m < answers.len() ==> !#[trigger] repeats_earlier(answers, m),
    decreases answers.len() - k,
{
    if k < answers.len() && !repeats_earlier(answers, k) {
        lemma_first_repeat(answers, k + 1);
    }
}

pub proof fn lemma_first_unknown(qids: Seq<i32>, answers: Seq<Answer>, k: int)
    requires
        0 <= k,
    ensures
        first_unknown_from(qids, answers, k) < 0 ==> forall|m: int|
            k <= m < answers.len() ==> qids.contains(#[trigger] answers[m].id),
    decreases answers.len() - k,
{
    if k < answers.len() && qids.contains(answers[k].id) {
        lemma_first_unknown(qids, answers, k + 1);
    }
}

/// An accepted submission for a game whose questions are distinct answers each of the
/// game's questions exactly once: every question has an answer, and no two answers
/// name the same question.
pub proof fn lemma_accepted_answers_cover_questions(qids: Seq<i32>, answers: Seq<Answer>)
    requires
        qids.no_duplicates(),
        selection_error(qids, answers) is None,
    ensures
        forall|q: i32| #[trigger] qids.contains(q) ==> exists|k: int|
            0 <= k < answers.len() && answers[k].id == q,
        forall|a: int, b: int|
            0 <= a < answers.len() && 0 <= b < answers.len() && #[trigger] answers[a].id
                == #[trigger] answers[b].id ==> a == b,
{
    lemma_first_unknown(qids, answers, 0);
    lemma_first_repeat(answers, 0);
    let ids = answers.map_values(|x: Answer| x.id);
    assert forall|a: int, b: int|
        0 <= a < answers.len() && 0 <= b < answers.len() && #[trigger] answers[a].id
            == #[trigger] answers[b].id implies a == b by {
        if a < b {
            assert(repeats_earlier(answers, b));
        } else if b < a {
            assert(repeats_earlier(answers, a));
        }
    }
    assert(ids.no_duplicates()) by {
        assert forall|a: int, b: int| 0 <= a < ids.len() && 0 <= b < ids.len() && a != b implies ids[a] != ids[b] by {
            assert(ids[a] == answers[a].id && ids[b] == answers[b].id);
        }
    }
    ids.unique_seq_to_set();
    qids.unique_seq_to_set();
    assert(ids.to_set().subset_of(qids.to_set())) by {
        assert forall|q: i32| ids.to_set().contains(q) implies qids.to_set().contains(q) by {
            let m = choose|m: int| 0 <= m < ids.len() && ids[m] == q;
            assert(ids[m] == answers[m].id);
            assert(qids.contains(answers[m].id));
        }
    }
    vstd::seq_lib::seq_to_set_is_finite(qids);
    vstd::seq_lib::seq_to_set_is_finite(ids);
    vstd::set_lib::lemma_subset_equality(ids.to_set(), qids.to_set());
    assert forall|q: i32| #[trigger] qids.contains(q) implies exists|k: int|
        0 <= k < answers.len() && answers[k].id == q by {
        assert(qids.to_set().contains(q));
        assert(ids.to_set().contains(q));
        let m = choose|m: int| 0 <= m < ids.len() && ids[m] == q;
        assert(answers[m].id == q);
    }
}

} // verus!
