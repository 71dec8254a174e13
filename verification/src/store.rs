//! The store: all questions and all answers, each collection filed by identifier.
//!
//! The operations on one collection are methods of that collection, and [`Store`] has each
//! of them again for the store as a whole. Who shares a store between tasks can so keep
//! each collection behind a lock of its own. The laws at the end say what holds after any
//! sequence of operations, and so after any order in which writers took their turns.

use crate::error::Error;
use crate::table::{
    distinct_keys, has_key, lemma_position, lemma_upsert, lemma_upsert_all, lemma_without, lookup,
    position, replace, upsert, upsert_all, values, without, Entries, Table,
};
use crate::types::answer::{Answer, AnswerId, AnswerView};
use crate::types::question::{Question, QuestionId, QuestionView};
use vstd::prelude::*;

verus! {

/// The collection of questions: each filed under an identifier, no identifier twice.
pub type Questions = Table<Question>;

/// The collection of answers: each filed under an identifier, no identifier twice.
pub type Answers = Table<Answer>;

/// The owner of the two collections. An answer names the question it was given to; the
/// store looks for that question when the answer is added and never again, so that an
/// answer may outlive its question.
pub struct Store {
    pub questions: Questions,
    pub answers: Answers,
}

/// What a [`Store`] holds: the entries of each collection in the order in which their
/// identifiers first came, each identifier with its record.
pub struct StoreView {
    pub questions: Entries<QuestionView>,
    pub answers: Entries<AnswerView>,
}

impl View for Store {
    type V = StoreView;

    open spec fn view(&self) -> StoreView {
        StoreView { questions: self.questions@, answers: self.answers@ }
    }
}

/// Seed records as plain mathematical values: each identifier with its question.
pub open spec fn seed_view(seed: Seq<(QuestionId, Question)>) -> Entries<QuestionView> {
    seed.map_values(|e: (QuestionId, Question)| (e.0@, e.1@))
}

/// Success where a question is filed under `id`, and `QuestionNotFound` where none is.
pub open spec fn found_or_not(questions: Entries<QuestionView>, id: Seq<char>) -> Result<
    (),
    Error,
> {
    if has_key(questions, id) {
        Ok(())
    } else {
        Err(Error::QuestionNotFound)
    }
}

/// What becomes of an answer with the text `content` to the question `question_id`:
/// an empty text is a missing parameter, and only then is the question looked for.
pub open spec fn answer_outcome(
    questions: Entries<QuestionView>,
    content: Seq<char>,
    question_id: Seq<char>,
) -> Result<(), Error> {
    if content.len() == 0 {
        Err(Error::MissingParameters)
    } else {
        found_or_not(questions, question_id)
    }
}

impl Table<Question> {
    /// Files `question` under its own identifier, in place of the question that had the
    /// identifier, or as the last one.
    pub fn add_question(&mut self, question: Question)
        ensures
            final(self)@ == upsert(old(self)@, question@.id, question@),
            distinct_keys(old(self)@),
            distinct_keys(final(self)@),
    {
        let key = question.id.0.clone();
        self.insert(key, question);
    }

    /// A copy of every question, in the order of the collection.
    pub fn list_questions(&self) -> (listing: Vec<Question>)
        ensures
            listing.deep_view() == values(self@),
            distinct_keys(self@),
    {
        let mut listing: Vec<Question> = Vec::new();
        let n: usize = self.len();
        let mut i: usize = 0;
        while i < n
            invariant
                n == self@.len(),
                i <= n,
                listing.deep_view() == values(self@).take(i as int),
            decreases n - i,
        {
            let ghost before = listing.deep_view();
            let copy = self.value_at(i).clone();
            listing.push(copy);
            assert(values(self@).take(i + 1) =~= before.push(copy@));
            i += 1;
        }
        listing
    }

    /// A copy of the question filed under `id`, if there is one.
    pub fn get_question(&self, id: &QuestionId) -> (found: Option<Question>)
        ensures
            match found {
                Some(question) => lookup(self@, id@) == Some(question@),
                None => lookup(self@, id@) is None,
            },
    {
        match self.get(&id.0) {
            Some(question) => Some(question.clone()),
            None => None,
        }
    }

    /// Puts `question` in the place of the question filed under `id`. Where no question is
    /// filed under `id`, nothing changes and the error is `QuestionNotFound`.
    pub fn update_question(&mut self, id: &QuestionId, question: Question) -> (r: Result<
        (),
        Error,
    >)
        ensures
            r == found_or_not(old(self)@, id@),
            final(self)@ == replace(old(self)@, id@, question@),
            distinct_keys(old(self)@),
            distinct_keys(final(self)@),
    {
        if self.replace(&id.0, question) {
            Ok(())
        } else {
            Err(Error::QuestionNotFound)
        }
    }

    /// Takes out the question filed under `id`. Where no question is filed under `id`,
    /// nothing changes and the error is `QuestionNotFound`.
    pub fn delete_question(&mut self, id: &QuestionId) -> (r: Result<(), Error>)
        ensures
            r == found_or_not(old(self)@, id@),
            final(self)@ == without(old(self)@, id@),
            distinct_keys(old(self)@),
            distinct_keys(final(self)@),
    {
        match self.remove(&id.0) {
            Some(_) => Ok(()),
            None => Err(Error::QuestionNotFound),
        }
    }

    /// The answer with the text `content` to the question `question_id`, to be filed under
    /// `id`. The text must not be empty (`MissingParameters`), and a question must be filed
    /// under `question_id` at this moment (`QuestionNotFound`).
    pub fn accept_answer(&self, id: AnswerId, content: String, question_id: QuestionId) -> (r:
        Result<Answer, Error>)
        ensures
            match r {
                Ok(answer) => answer_outcome(self@, content@, question_id@) is Ok && answer@ == (
                AnswerView { id: id@, content: content@, question_id: question_id@ }),
                Err(error) => answer_outcome(self@, content@, question_id@) == Err::<(), Error>(
                    error,
                ),
            },
    {
        if content.as_str().is_empty() {
            return Err(Error::MissingParameters);
        }
        if !self.contains_key(&question_id.0) {
            return Err(Error::QuestionNotFound);
        }
        Ok(Answer { id, content, question_id })
    }
}

impl Table<Answer> {
    /// Files `answer` under its own identifier. It takes the place of an answer that had
    /// the identifier: who adds answers hands in a fresh identifier for each.
    pub fn add_answer(&mut self, answer: Answer)
        ensures
            final(self)@ == upsert(old(self)@, answer@.id, answer@),
            distinct_keys(old(self)@),
            distinct_keys(final(self)@),
    {
        let key = answer.id.0.clone();
        self.insert(key, answer);
    }

    /// A copy of the answer filed under `id`, if there is one.
    pub fn get_answer(&self, id: &AnswerId) -> (found: Option<Answer>)
        ensures
            match found {
                Some(answer) => lookup(self@, id@) == Some(answer@),
                None => lookup(self@, id@) is None,
            },
    {
        match self.get(&id.0) {
            Some(answer) => Some(answer.clone()),
            None => None,
        }
    }
}

impl Store {
    /// A store that holds the seed questions and no answer.
    pub fn new(seed: Vec<(QuestionId, Question)>) -> (store: Store)
        ensures
            store@.questions == upsert_all(Seq::empty(), seed_view(seed@)),
            store@.answers == Seq::<(Seq<char>, AnswerView)>::empty(),
            distinct_keys(store@.questions),
    {
        Store { questions: Store::init(seed), answers: Table::new() }
    }

    /// The collection of questions that the seed records make: each record filed under the
    /// identifier it came with, a later record taking the place of an earlier one with the
    /// same identifier.
    pub fn init(seed: Vec<(QuestionId, Question)>) -> (questions: Questions)
        ensures
            questions@ == upsert_all(Seq::empty(), seed_view(seed@)),
            distinct_keys(questions@),
    {
        let mut questions: Table<Question> = Table::new();
        for entry in it: seed
            invariant
                it.seq() == seed@,
                questions@ == upsert_all(Seq::empty(), seed_view(seed@.take(it.index()))),
                distinct_keys(questions@),
        {
            proof {
                let before = seed_view(seed@.take(it.index()));
                let after = seed_view(seed@.take(it.index() + 1));
                assert(after.drop_last() == before);
            }
            let (id, question) = entry;
            questions.insert(id.0, question);
        }
        assert(seed@.take(seed@.len() as int) == seed@);
        questions
    }

    /// Files `question` under its own identifier, in place of the question that had the
    /// identifier, or as the last one.
    pub fn add_question(&mut self, question: Question)
        ensures
            final(self)@.questions == upsert(old(self)@.questions, question@.id, question@),
            final(self)@.answers == old(self)@.answers,
            distinct_keys(old(self)@.questions),
            distinct_keys(final(self)@.questions),
    {
        self.questions.add_question(question);
    }

    /// A copy of every question, in the order of the collection.
    pub fn list_questions(&self) -> (listing: Vec<Question>)
        ensures
            listing.deep_view() == values(self@.questions),
            distinct_keys(self@.questions),
    {
        self.questions.list_questions()
    }

    /// A copy of the question filed under `id`, if there is one.
    pub fn get_question(&self, id: &QuestionId) -> (found: Option<Question>)
        ensures
            match found {
                Some(question) => lookup(self@.questions, id@) == Some(question@),
                None => lookup(self@.questions, id@) is None,
            },
    {
        self.questions.get_question(id)
    }

    /// Puts `question` in the place of the question filed under `id`. Where no question is
    /// filed under `id`, nothing changes and the error is `QuestionNotFound`.
    pub fn update_question(&mut self, id: &QuestionId, question: Question) -> (r: Result<
        (),
        Error,
    >)
        ensures
            r == found_or_not(old(self)@.questions, id@),
            final(self)@.questions == replace(old(self)@.questions, id@, question@),
            final(self)@.answers == old(self)@.answers,
            distinct_keys(old(self)@.questions),
            distinct_keys(final(self)@.questions),
    {
        self.questions.update_question(id, question)
    }

    /// Takes out the question filed under `id`. Where no question is filed under `id`,
    /// nothing changes and the error is `QuestionNotFound`. Answers to the question stay.
    pub fn delete_question(&mut self, id: &QuestionId) -> (r: Result<(), Error>)
        ensures
            r == found_or_not(old(self)@.questions, id@),
            final(self)@.questions == without(old(self)@.questions, id@),
            final(self)@.answers == old(self)@.answers,
            distinct_keys(old(self)@.questions),
            distinct_keys(final(self)@.questions),
    {
        self.questions.delete_question(id)
    }

    /// Files an answer with the text `content` to the question `question_id` under `id`.
    /// The text must not be empty (`MissingParameters`), and a question must be filed under
    /// `question_id` at this moment (`QuestionNotFound`); where either fails, nothing changes.
    /// The answer takes the place of an answer that had the same `id`: the caller hands in a
    /// fresh one for each answer.
    pub fn add_answer(&mut self, id: AnswerId, content: String, question_id: QuestionId) -> (r:
        Result<(), Error>)
        ensures
            r == answer_outcome(old(self)@.questions, content@, question_id@),
            r is Ok ==> final(self)@.answers == upsert(
                old(self)@.answers,
                id@,
                AnswerView { id: id@, content: content@, question_id: question_id@ },
            ),
            r is Err ==> final(self)@.answers == old(self)@.answers,
            final(self)@.questions == old(self)@.questions,
            content@.len() > 0 && !has_key(old(self)@.questions, question_id@) ==> r == Err::<
                (),
                Error,
            >(Error::QuestionNotFound) && final(self)@.answers == old(self)@.answers,
            r is Ok ==> distinct_keys(old(self)@.answers) && distinct_keys(final(self)@.answers),
    {
        match self.questions.accept_answer(id, content, question_id) {
            Ok(answer) => {
                self.answers.add_answer(answer);
                Ok(())
            },
            Err(error) => Err(error),
        }
    }

    /// A copy of the answer filed under `id`, if there is one.
    pub fn get_answer(&self, id: &AnswerId) -> (found: Option<Answer>)
        ensures
            match found {
                Some(answer) => lookup(self@.answers, id@) == Some(answer@),
                None => lookup(self@.answers, id@) is None,
            },
    {
        self.answers.get_answer(id)
    }
}

/// Every question is filed under the identifier that it carries itself.
pub open spec fn filed_by_id(questions: Entries<QuestionView>) -> bool {
    forall|i: int|
        0 <= i < questions.len() ==> (#[trigger] questions[i]).0 == questions[i].1.id
}

/// `x` stands at one position of `s` and at no other.
pub open spec fn occurs_once<T>(s: Seq<T>, x: T) -> bool {
    exists|i: int|
        0 <= i < s.len() && (#[trigger] s[i]) == x && forall|j: int|
            0 <= j < s.len() && (#[trigger] s[j]) == x ==> j == i
}

/// Adding two questions with one identifier, one after the other, leaves what adding the
/// second alone leaves: the identifier is filed once, and it holds the second question.
pub proof fn lemma_add_question_twice(
    questions: Entries<QuestionView>,
    first: QuestionView,
    second: QuestionView,
)
    requires
        distinct_keys(questions),
        first.id == second.id,
    ensures
        upsert(upsert(questions, first.id, first), second.id, second) == upsert(
            questions,
            second.id,
            second,
        ),
        distinct_keys(upsert(upsert(questions, first.id, first), second.id, second)),
        lookup(upsert(upsert(questions, first.id, first), second.id, second), second.id) == Some(
            second,
        ),
        upsert(upsert(questions, first.id, first), second.id, second).len() == upsert(
            questions,
            first.id,
            first,
        ).len(),
{
    let id = first.id;
    let once = upsert(questions, id, first);
    let twice = upsert(once, id, second);
    lemma_upsert(questions, id, first);
    lemma_upsert(once, id, second);
    // The second question goes where the first went: to the place the identifier had, or
    // behind all others.
    let place = if has_key(questions, id) {
        position(questions, id)
    } else {
        questions.len() as int
    };
    lemma_position(once, place);
    assert(twice =~= upsert(questions, id, second));
}

/// In a store whose questions are filed by their own identifiers, a question that was
/// just added stands in the listing once.
pub proof fn lemma_added_question_is_listed_once(
    questions: Entries<QuestionView>,
    question: QuestionView,
)
    requires
        distinct_keys(questions),
        filed_by_id(questions),
    ensures
        occurs_once(values(upsert(questions, question.id, question)), question),
        distinct_keys(upsert(questions, question.id, question)),
        filed_by_id(upsert(questions, question.id, question)),
{
    let after = upsert(questions, question.id, question);
    lemma_upsert(questions, question.id, question);
    let at = position(after, question.id);
    assert(filed_by_id(after)) by {
        // Every entry is the new one or one that was there.
        assert forall|j: int| 0 <= j < after.len() implies (#[trigger] after[j]).0
            == after[j].1.id by {
            if after[j] != (question.id, question) {
                assert(after[j] == questions[j]);
            }
        }
    }
    assert(values(after)[at] == question);
    assert forall|j: int|
        0 <= j < values(after).len() && (#[trigger] values(after)[j]) == question implies j
        == at by {
        // An entry that holds the question is filed under its identifier, as `at` is.
        assert(after[j].0 == question.id);
    }
}

/// In a store whose questions are filed by their own identifiers, no question with the
/// identifier that was just deleted stands in the listing.
pub proof fn lemma_deleted_question_is_not_listed(
    questions: Entries<QuestionView>,
    id: Seq<char>,
)
    requires
        distinct_keys(questions),
        filed_by_id(questions),
    ensures
        forall|i: int|
            0 <= i < values(without(questions, id)).len() ==> (#[trigger] values(
                without(questions, id),
            )[i]).id != id,
        !has_key(without(questions, id), id),
        distinct_keys(without(questions, id)),
        filed_by_id(without(questions, id)),
{
    let after = without(questions, id);
    lemma_without(questions, id);
    assert(filed_by_id(after)) by {
        // Every entry that is left was there before.
        assert forall|j: int| 0 <= j < after.len() implies (#[trigger] after[j]).0
            == after[j].1.id by {
            if has_key(questions, id) {
                let at = position(questions, id);
                assert(after[j] == questions[if j < at {
                    j
                } else {
                    j + 1
                }]);
            }
        }
    }
    assert forall|i: int| 0 <= i < values(after).len() implies (#[trigger] values(after)[i]).id
        != id by {
        // A question with the identifier would be filed under it, and nothing is.
        assert(after[i].0 == after[i].1.id);
    }
}

/// A question put in the place of one with its own identifier leaves every question filed
/// by its identifier.
pub proof fn lemma_updated_question_stays_filed_by_id(
    questions: Entries<QuestionView>,
    question: QuestionView,
)
    requires
        distinct_keys(questions),
        filed_by_id(questions),
    ensures
        distinct_keys(replace(questions, question.id, question)),
        filed_by_id(replace(questions, question.id, question)),
{
    if has_key(questions, question.id) {
        assert(replace(questions, question.id, question) == upsert(
            questions,
            question.id,
            question,
        ));
        lemma_added_question_is_listed_once(questions, question);
    }
}

/// Records that come under their own identifiers, filed one after the other, leave every
/// question filed by its identifier.
pub proof fn lemma_seeded_questions_are_filed_by_id(
    questions: Entries<QuestionView>,
    seed: Entries<QuestionView>,
)
    requires
        distinct_keys(questions),
        filed_by_id(questions),
        filed_by_id(seed),
    ensures
        distinct_keys(upsert_all(questions, seed)),
        filed_by_id(upsert_all(questions, seed)),
    decreases seed.len(),
{
    if seed.len() > 0 {
        let init = seed.drop_last();
        let last = seed.last();
        assert(filed_by_id(init)) by {
            assert forall|i: int| 0 <= i < init.len() implies (#[trigger] init[i]).0
                == init[i].1.id by {
                assert(init[i] == seed[i]);
            }
        }
        lemma_seeded_questions_are_filed_by_id(questions, init);
        assert(last == seed[seed.len() - 1]);
        lemma_added_question_is_listed_once(upsert_all(questions, init), last.1);
    }
}

/// Questions as the entries that adding them files: each under its own identifier.
pub open spec fn filed(added: Seq<QuestionView>) -> Entries<QuestionView> {
    added.map_values(|question: QuestionView| (question.id, question))
}

/// After questions with distinct identifiers were added, in whatever order their writers
/// took turns, a reader finds every one of them: each is filed under its identifier as it
/// was handed in, and each stands in the listing. No question with another identifier
/// was lost or changed on the way.
pub proof fn lemma_added_questions_are_all_listed(
    questions: Entries<QuestionView>,
    added: Seq<QuestionView>,
)
    requires
        distinct_keys(questions),
        distinct_keys(filed(added)),
    ensures
        distinct_keys(upsert_all(questions, filed(added))),
        forall|i: int|
            0 <= i < added.len() ==> lookup(
                upsert_all(questions, filed(added)),
                (#[trigger] added[i]).id,
            ) == Some(added[i]),
        forall|i: int|
            0 <= i < added.len() ==> values(upsert_all(questions, filed(added))).contains(
                #[trigger] added[i],
            ),
        forall|id: Seq<char>|
            !has_key(filed(added), id) ==> #[trigger] lookup(
                upsert_all(questions, filed(added)),
                id,
            ) == lookup(questions, id),
{
    let after = upsert_all(questions, filed(added));
    lemma_upsert_all(questions, filed(added));
    assert forall|i: int| 0 <= i < added.len() implies lookup(after, (#[trigger] added[i]).id)
        == Some(added[i]) && values(after).contains(added[i]) by {
        assert(filed(added)[i] == (added[i].id, added[i]));
        let at = position(after, added[i].id);
        assert(values(after)[at] == added[i]);
    }
}

} // verus!
