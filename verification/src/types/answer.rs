//! Answers and their identifiers.

use crate::types::question::QuestionId;
use vstd::prelude::*;

verus! {

/// The identifier of an answer: the text under which the store files it.
#[derive(Debug, PartialEq, Eq, Hash)]
pub struct AnswerId(pub String);

impl View for AnswerId {
    type V = Seq<char>;

    open spec fn view(&self) -> Seq<char> {
        self.0@
    }
}

impl Clone for AnswerId {
    fn clone(&self) -> (copy: Self)
        ensures
            copy@ == self@,
    {
        AnswerId(self.0.clone())
    }
}

/// What an answer holds, as plain mathematical values.
pub struct AnswerView {
    pub id: Seq<char>,
    pub content: Seq<char>,
    pub question_id: Seq<char>,
}

/// An answer: an identifier, a text, and the identifier of the question it answers.
#[derive(Debug, PartialEq, Eq)]
pub struct Answer {
    pub id: AnswerId,
    pub content: String,
    pub question_id: QuestionId,
}

impl View for Answer {
    type V = AnswerView;

    open spec fn view(&self) -> AnswerView {
        AnswerView { id: self.id@, content: self.content@, question_id: self.question_id@ }
    }
}

impl Clone for Answer {
    fn clone(&self) -> (copy: Self)
        ensures
            copy@ == self@,
    {
        Answer {
            id: self.id.clone(),
            content: self.content.clone(),
            question_id: self.question_id.clone(),
        }
    }
}

} // verus!
