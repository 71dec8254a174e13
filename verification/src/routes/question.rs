//! The requests on questions: list, add, update, delete.

use crate::error::{Error, ErrorView};
use crate::response::{Response, ResponseView, OK};
use crate::store::{found_or_not, Questions};
use crate::table::{distinct_keys, replace, upsert, values, without, Entries, Table};
use crate::types::pagination::{extract_pagination, resolved};
use crate::types::question::{Question, QuestionId, QuestionView};
use vstd::prelude::*;

verus! {

/// What a request for a listing gets: the whole `listing` where it names no parameter at
/// all, else the span of `listing` that its parameters ask for, or the reason why they ask
/// for none.
pub open spec fn listed(params: Entries<Seq<char>>, listing: Seq<QuestionView>) -> Result<
    Seq<QuestionView>,
    ErrorView,
> {
    if params.len() == 0 {
        Ok(listing)
    } else {
        match resolved(params, listing.len() as int) {
            Ok(range) => Ok(listing.subrange(range.start, range.end)),
            Err(error) => Err(error),
        }
    }
}

/// Lists the questions: all of them for a request without parameters, a span of them for
/// one with parameters. The span is cut from one copy of the whole listing, whose length
/// is the length the range is checked against.
pub fn get_questions(params: Table<String>, questions: &Questions) -> (r: Result<
    Vec<Question>,
    Error,
>)
    ensures
        match r {
            Ok(page) => listed(params@, values(questions@)) == Ok::<Seq<QuestionView>, ErrorView>(
                page.deep_view(),
            ),
            Err(error) => listed(params@, values(questions@)) == Err::<
                Seq<QuestionView>,
                ErrorView,
            >(error@),
        },
        params@.len() == 0 ==> r is Ok && r->Ok_0.deep_view() == values(questions@),
        ({
            let listing = values(questions@);
            let range = resolved(params@, listing.len() as int);
            range is Ok ==> {
                &&& r is Ok
                &&& r->Ok_0.deep_view() == listing.subrange(range->Ok_0.start, range->Ok_0.end)
                &&& r->Ok_0.deep_view().len() == range->Ok_0.end - range->Ok_0.start
            }
        }),
{
    if !params.is_empty() {
        let mut listing = questions.list_questions();
        let ghost whole = listing.deep_view();
        let pagination = match extract_pagination(params, listing.len()) {
            Ok(pagination) => pagination,
            Err(error) => {
                return Err(error);
            },
        };
        let start: usize = pagination.start();
        let end: usize = pagination.end();
        listing.truncate(end);
        let page = listing.split_off(start);
        assert(page.deep_view() =~= whole.subrange(start as int, end as int));
        Ok(page)
    } else {
        Ok(questions.list_questions())
    }
}

/// Files `question` under its own identifier, and confirms it.
pub fn add_question(questions: &mut Questions, question: Question) -> (response: Response)
    ensures
        response@ == (ResponseView { status: OK, body: "Question added"@ }),
        final(questions)@ == upsert(old(questions)@, question@.id, question@),
        distinct_keys(old(questions)@),
        distinct_keys(final(questions)@),
{
    questions.add_question(question);
    Response::confirm("Question added")
}

/// Puts `question` in the place of the question filed under `id`, and confirms it; where
/// no question is filed under `id`, the questions stay as they were.
pub fn update_question(id: String, questions: &mut Questions, question: Question) -> (r: Result<
    Response,
    Error,
>)
    ensures
        match r {
            Ok(response) => found_or_not(old(questions)@, id@) is Ok && response@ == (
            ResponseView { status: OK, body: "Question updated"@ }),
            Err(error) => found_or_not(old(questions)@, id@) == Err::<(), Error>(error),
        },
        final(questions)@ == replace(old(questions)@, id@, question@),
        distinct_keys(old(questions)@),
        distinct_keys(final(questions)@),
{
    match questions.update_question(&QuestionId(id), question) {
        Ok(()) => Ok(Response::confirm("Question updated")),
        Err(error) => Err(error),
    }
}

/// Takes out the question filed under `id`, and confirms it; where no question is filed
/// under `id`, the questions stay as they were.
pub fn delete_question(id: String, questions: &mut Questions) -> (r: Result<Response, Error>)
    ensures
        match r {
            Ok(response) => found_or_not(old(questions)@, id@) is Ok && response@ == (
            ResponseView { status: OK, body: "Question deleted"@ }),
            Err(error) => found_or_not(old(questions)@, id@) == Err::<(), Error>(error),
        },
        final(questions)@ == without(old(questions)@, id@),
        distinct_keys(old(questions)@),
        distinct_keys(final(questions)@),
{
    match questions.delete_question(&QuestionId(id)) {
        Ok(()) => Ok(Response::confirm("Question deleted")),
        Err(error) => Err(error),
    }
}

} // verus!
