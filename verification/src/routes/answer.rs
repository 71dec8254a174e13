//! The request that adds an answer.
//!
//! It has two steps, [`prepare_answer`] on the questions and [`file_answer`] on the answers,
//! and [`add_answer`] takes both at once. Between the two steps the question may be deleted:
//! the answer is filed all the same.

use crate::error::Error;
use crate::response::{Response, ResponseView, OK};
use crate::store::{answer_outcome, Answers, Questions};
use crate::table::{distinct_keys, has_key, lookup, upsert, Entries, Table};
use crate::types::answer::{Answer, AnswerId, AnswerView};
use crate::types::question::{QuestionId, QuestionView};
use vstd::prelude::*;

verus! {

/// What becomes of a request to add an answer: the parameters `content` and `questionId`
/// must both be there, the text must not be empty, and only then is the question looked for.
pub open spec fn answer_request_outcome(
    questions: Entries<QuestionView>,
    params: Entries<Seq<char>>,
) -> Result<(), Error> {
    let content = lookup(params, "content"@);
    let question_id = lookup(params, "questionId"@);
    if content is None || question_id is None {
        Err(Error::MissingParameters)
    } else {
        answer_outcome(questions, content->0, question_id->0)
    }
}

/// The answer that a request asks to add: the text and the question that the parameters
/// `content` and `questionId` name, to be filed under `id`.
pub open spec fn requested_answer(params: Entries<Seq<char>>, id: Seq<char>) -> AnswerView {
    AnswerView {
        id,
        content: lookup(params, "content"@)->0,
        question_id: lookup(params, "questionId"@)->0,
    }
}

/// Reads the answer that a request asks to add, and looks for its question.
pub fn prepare_answer(questions: &Questions, params: Table<String>, id: AnswerId) -> (r: Result<
    Answer,
    Error,
>)
    ensures
        match r {
            Ok(answer) => answer_request_outcome(questions@, params@) is Ok && answer@
                == requested_answer(params@, id@),
            Err(error) => answer_request_outcome(questions@, params@) == Err::<(), Error>(error),
        },
{
    let content = match params.get(&"content".to_owned()) {
        Some(content) => content.clone(),
        None => {
            return Err(Error::MissingParameters);
        },
    };
    let question_id = match params.get(&"questionId".to_owned()) {
        Some(question_id) => QuestionId(question_id.clone()),
        None => {
            return Err(Error::MissingParameters);
        },
    };
    questions.accept_answer(id, content, question_id)
}

/// Files a prepared answer under its identifier, and confirms it.
pub fn file_answer(answers: &mut Answers, answer: Answer) -> (response: Response)
    ensures
        response@ == (ResponseView { status: OK, body: "Answer created"@ }),
        final(answers)@ == upsert(old(answers)@, answer@.id, answer@),
        distinct_keys(old(answers)@),
        distinct_keys(final(answers)@),
{
    answers.add_answer(answer);
    Response::confirm("Answer created")
}

/// Files an answer under `id`, with the text and the question that the parameters `content`
/// and `questionId` name, and confirms it. Where a parameter is missing or the text is
/// empty, or where no question is filed under the identifier, the answers stay as they were.
pub fn add_answer(
    questions: &Questions,
    answers: &mut Answers,
    params: Table<String>,
    id: AnswerId,
) -> (r: Result<Response, Error>)
    ensures
        match r {
            Ok(response) => answer_request_outcome(questions@, params@) is Ok && response@ == (
            ResponseView { status: OK, body: "Answer created"@ }),
            Err(error) => answer_request_outcome(questions@, params@) == Err::<(), Error>(error),
        },
        r is Ok ==> final(answers)@ == upsert(old(answers)@, id@, requested_answer(params@, id@)),
        r is Err ==> final(answers)@ == old(answers)@,
        ({
            let content = lookup(params@, "content"@);
            let question_id = lookup(params@, "questionId"@);
            content is Some && content->0.len() > 0 && question_id is Some && !has_key(
                questions@,
                question_id->0,
            ) ==> r == Err::<Response, Error>(Error::QuestionNotFound) && final(answers)@ == old(
                answers,
            )@
        }),
{
    match prepare_answer(questions, params, id) {
        Ok(answer) => Ok(file_answer(answers, answer)),
        Err(error) => Err(error),
    }
}

} // verus!
