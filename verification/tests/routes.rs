use qa_store::error::{Error, PaginationField};
use qa_store::response::Response;
use qa_store::routes::answer::{add_answer, file_answer, prepare_answer};
use qa_store::routes::question::{add_question, delete_question, get_questions, update_question};
use qa_store::store::Store;
use qa_store::table::Table;
use qa_store::types::answer::{Answer, AnswerId};
use qa_store::types::pagination::extract_pagination;
use qa_store::types::question::{Question, QuestionId};

fn params(pairs: &[(&str, &str)]) -> Table<String> {
    let mut table: Table<String> = Table::new();
    for (key, value) in pairs {
        table.insert(key.to_string(), value.to_string());
    }
    table
}

fn question(id: &str) -> Question {
    Question {
        id: QuestionId(id.to_string()),
        title: format!("title {}", id),
        content: format!("content {}", id),
        tags: None,
    }
}

fn store_of(n: usize) -> Store {
    Store::new((0..n).map(|i| (QuestionId(i.to_string()), question(&i.to_string()))).collect())
}

fn seeded() -> Store {
    Store::new(vec![(
        QuestionId("1".to_string()),
        Question {
            id: QuestionId("1".to_string()),
            title: "T".to_string(),
            content: "C".to_string(),
            tags: None,
        },
    )])
}

fn confirmed(text: &str) -> Response {
    Response { status: 200, body: text.to_string() }
}

#[test]
fn a_seeded_store_walked_through() {
    let mut store = seeded();

    let all = get_questions(params(&[]), &store.questions).unwrap();
    assert_eq!(all.len(), 1);
    assert_eq!(all[0].id, QuestionId("1".to_string()));
    assert_eq!(all[0].title, "T");
    assert_eq!(all[0].content, "C");
    assert_eq!(all[0].tags, None);

    let range = extract_pagination(params(&[("start", "0"), ("end", "1")]), 1).unwrap();
    assert_eq!(range.start(), 0);
    assert_eq!(range.end(), 1);

    assert_eq!(
        extract_pagination(params(&[("start", "2"), ("end", "1")]), 1).unwrap_err(),
        Error::NonProcessable
    );

    assert_eq!(
        update_question("99".to_string(), &mut store.questions, question("99")),
        Err(Error::QuestionNotFound)
    );

    assert_eq!(
        add_answer(
            &store.questions,
            &mut store.answers,
            params(&[("content", "text")]),
            AnswerId("a".to_string()),
        ),
        Err(Error::MissingParameters)
    );
    assert!(store.answers.is_empty());
    assert_eq!(get_questions(params(&[]), &store.questions).unwrap(), all);
}

#[test]
fn get_questions_without_parameters_lists_everything() {
    let store = store_of(4);
    assert_eq!(get_questions(params(&[]), &store.questions).unwrap(), store.list_questions());
    let nothing = store_of(0);
    assert_eq!(get_questions(params(&[]), &nothing.questions).unwrap(), Vec::<Question>::new());
}

#[test]
fn get_questions_cuts_every_valid_range_out_of_the_listing() {
    let store = store_of(5);
    let listing = store.list_questions();
    for start in 0..=5usize {
        for end in start..=5usize {
            let page = get_questions(
                params(&[("start", &start.to_string()), ("end", &end.to_string())]),
                &store.questions,
            )
            .unwrap();
            assert_eq!(page.len(), end - start);
            assert_eq!(page, listing[start..end].to_vec());
        }
    }
}

#[test]
fn get_questions_with_an_empty_range_lists_nothing() {
    let store = store_of(3);
    assert!(get_questions(params(&[("start", "1"), ("end", "1")]), &store.questions)
        .unwrap()
        .is_empty());
    assert!(get_questions(params(&[("start", "3"), ("end", "3")]), &store.questions)
        .unwrap()
        .is_empty());
}

#[test]
fn get_questions_with_the_full_range_lists_everything() {
    let store = store_of(3);
    assert_eq!(
        get_questions(params(&[("start", "0"), ("end", "3")]), &store.questions).unwrap(),
        store.list_questions()
    );
}

#[test]
fn get_questions_with_other_parameters_only_misses_its_own() {
    let store = store_of(3);
    assert_eq!(
        get_questions(params(&[("page", "1")]), &store.questions),
        Err(Error::MissingParameters)
    );
    assert_eq!(
        get_questions(params(&[("start", "1")]), &store.questions),
        Err(Error::MissingParameters)
    );
    assert_eq!(
        get_questions(params(&[("end", "1")]), &store.questions),
        Err(Error::MissingParameters)
    );
}

#[test]
fn get_questions_hands_on_what_the_range_fails_on() {
    let store = store_of(3);
    assert_eq!(
        get_questions(params(&[("start", "one"), ("end", "2")]), &store.questions),
        Err(Error::ParseError("one".to_string(), PaginationField::Start))
    );
    assert_eq!(
        get_questions(params(&[("start", "1"), ("end", "two")]), &store.questions),
        Err(Error::ParseError("two".to_string(), PaginationField::End))
    );
    assert_eq!(
        get_questions(params(&[("start", "2"), ("end", "1")]), &store.questions),
        Err(Error::NonProcessable)
    );
    assert_eq!(
        get_questions(params(&[("start", "0"), ("end", "4")]), &store.questions),
        Err(Error::OutOfBounds)
    );
    assert_eq!(
        get_questions(params(&[("start", "0"), ("end", "1")]), &store_of(0).questions),
        Err(Error::OutOfBounds)
    );
}

#[test]
fn get_questions_checks_the_range_against_the_present_length() {
    let mut store = store_of(2);
    assert_eq!(
        get_questions(params(&[("start", "0"), ("end", "3")]), &store.questions),
        Err(Error::OutOfBounds)
    );
    add_question(&mut store.questions, question("new"));
    assert_eq!(
        get_questions(params(&[("start", "0"), ("end", "3")]), &store.questions).unwrap(),
        store.list_questions()
    );
    assert_eq!(
        delete_question("0".to_string(), &mut store.questions),
        Ok(confirmed("Question deleted"))
    );
    assert_eq!(
        delete_question("1".to_string(), &mut store.questions),
        Ok(confirmed("Question deleted"))
    );
    assert_eq!(
        get_questions(params(&[("start", "0"), ("end", "3")]), &store.questions),
        Err(Error::OutOfBounds)
    );
}

#[test]
fn add_question_confirms_and_files_the_question() {
    let mut store = store_of(0);
    assert_eq!(add_question(&mut store.questions, question("1")), confirmed("Question added"));
    assert_eq!(store.list_questions(), vec![question("1")]);
    assert_eq!(add_question(&mut store.questions, question("1")), confirmed("Question added"));
    assert_eq!(store.list_questions(), vec![question("1")]);
}

#[test]
fn update_question_confirms_and_replaces() {
    let mut store = store_of(2);
    let mut changed = question("1");
    changed.title = "changed".to_string();
    changed.tags = Some(vec!["edited".to_string()]);
    assert_eq!(
        update_question("1".to_string(), &mut store.questions, changed.clone()),
        Ok(confirmed("Question updated"))
    );
    assert_eq!(store.list_questions(), vec![question("0"), changed]);
}

#[test]
fn update_question_on_an_unknown_identifier_is_refused() {
    let mut store = store_of(2);
    let before = store.list_questions();
    assert_eq!(
        update_question("7".to_string(), &mut store.questions, question("7")),
        Err(Error::QuestionNotFound)
    );
    assert_eq!(store.list_questions(), before);
}

#[test]
fn delete_question_confirms_and_removes() {
    let mut store = store_of(3);
    assert_eq!(
        delete_question("1".to_string(), &mut store.questions),
        Ok(confirmed("Question deleted"))
    );
    assert_eq!(store.list_questions(), vec![question("0"), question("2")]);
}

#[test]
fn delete_question_on_an_unknown_identifier_is_refused() {
    let mut store = store_of(3);
    let before = store.list_questions();
    assert_eq!(
        delete_question("3".to_string(), &mut store.questions),
        Err(Error::QuestionNotFound)
    );
    assert_eq!(
        delete_question("".to_string(), &mut store.questions),
        Err(Error::QuestionNotFound)
    );
    assert_eq!(store.list_questions(), before);
}

#[test]
fn add_answer_confirms_and_files_the_answer() {
    let mut store = store_of(2);
    assert_eq!(
        add_answer(
            &store.questions,
            &mut store.answers,
            params(&[("content", "Because."), ("questionId", "1")]),
            AnswerId("a1".to_string()),
        ),
        Ok(confirmed("Answer created"))
    );
    assert_eq!(
        store.get_answer(&AnswerId("a1".to_string())),
        Some(Answer {
            id: AnswerId("a1".to_string()),
            content: "Because.".to_string(),
            question_id: QuestionId("1".to_string()),
        })
    );
}

#[test]
fn add_answer_needs_both_parameters() {
    let mut store = store_of(2);
    assert_eq!(
        add_answer(
            &store.questions,
            &mut store.answers,
            params(&[]),
            AnswerId("a".to_string()),
        ),
        Err(Error::MissingParameters)
    );
    assert_eq!(
        add_answer(
            &store.questions,
            &mut store.answers,
            params(&[("questionId", "1")]),
            AnswerId("a".to_string()),
        ),
        Err(Error::MissingParameters)
    );
    assert_eq!(
        add_answer(
            &store.questions,
            &mut store.answers,
            params(&[("content", "text")]),
            AnswerId("a".to_string()),
        ),
        Err(Error::MissingParameters)
    );
    assert_eq!(
        add_answer(
            &store.questions,
            &mut store.answers,
            params(&[("content", "text"), ("question_id", "1")]),
            AnswerId("a".to_string()),
        ),
        Err(Error::MissingParameters)
    );
    assert!(store.answers.is_empty());
}

#[test]
fn add_answer_with_an_empty_text_is_a_missing_parameter() {
    let mut store = store_of(2);
    assert_eq!(
        add_answer(
            &store.questions,
            &mut store.answers,
            params(&[("content", ""), ("questionId", "1")]),
            AnswerId("a".to_string()),
        ),
        Err(Error::MissingParameters)
    );
    assert_eq!(
        add_answer(
            &store.questions,
            &mut store.answers,
            params(&[("content", ""), ("questionId", "none")]),
            AnswerId("a".to_string()),
        ),
        Err(Error::MissingParameters)
    );
    assert!(store.answers.is_empty());
}

#[test]
fn a_missing_parameter_counts_before_an_unknown_question() {
    let mut store = store_of(0);
    assert_eq!(
        add_answer(
            &store.questions,
            &mut store.answers,
            params(&[("questionId", "none")]),
            AnswerId("a".to_string()),
        ),
        Err(Error::MissingParameters)
    );
}

#[test]
fn add_answer_to_an_unknown_question_is_refused_and_files_nothing() {
    let mut store = store_of(2);
    assert_eq!(
        add_answer(
            &store.questions,
            &mut store.answers,
            params(&[("content", "first"), ("questionId", "0")]),
            AnswerId("a".to_string()),
        ),
        Ok(confirmed("Answer created"))
    );
    assert_eq!(
        add_answer(
            &store.questions,
            &mut store.answers,
            params(&[("content", "second"), ("questionId", "2")]),
            AnswerId("a".to_string()),
        ),
        Err(Error::QuestionNotFound)
    );
    assert_eq!(store.answers.len(), 1);
    assert_eq!(store.get_answer(&AnswerId("a".to_string())).unwrap().content, "first");
    assert_eq!(store.list_questions().len(), 2);
}

#[test]
fn prepare_answer_reads_the_answer_and_changes_nothing() {
    let store = store_of(2);
    let answer = prepare_answer(
        &store.questions,
        params(&[("questionId", "1"), ("content", "Because."), ("more", "x")]),
        AnswerId("a1".to_string()),
    );
    assert_eq!(
        answer,
        Ok(Answer {
            id: AnswerId("a1".to_string()),
            content: "Because.".to_string(),
            question_id: QuestionId("1".to_string()),
        })
    );
    assert!(store.answers.is_empty());
}

#[test]
fn prepare_answer_refuses_what_add_answer_refuses() {
    let store = store_of(2);
    let id = AnswerId("a".to_string());
    assert_eq!(
        prepare_answer(&store.questions, params(&[("content", "text")]), id.clone()),
        Err(Error::MissingParameters)
    );
    assert_eq!(
        prepare_answer(&store.questions, params(&[("questionId", "1")]), id.clone()),
        Err(Error::MissingParameters)
    );
    assert_eq!(
        prepare_answer(
            &store.questions,
            params(&[("content", ""), ("questionId", "1")]),
            id.clone()
        ),
        Err(Error::MissingParameters)
    );
    assert_eq!(
        prepare_answer(
            &store.questions,
            params(&[("content", "text"), ("questionId", "5")]),
            id.clone()
        ),
        Err(Error::QuestionNotFound)
    );
}

#[test]
fn file_answer_files_what_was_prepared_even_after_the_question_is_gone() {
    let mut store = store_of(2);
    let answer = prepare_answer(
        &store.questions,
        params(&[("content", "late"), ("questionId", "1")]),
        AnswerId("a1".to_string()),
    )
    .unwrap();
    assert_eq!(
        delete_question("1".to_string(), &mut store.questions),
        Ok(confirmed("Question deleted"))
    );
    assert_eq!(file_answer(&mut store.answers, answer), confirmed("Answer created"));
    assert_eq!(
        store.get_answer(&AnswerId("a1".to_string())),
        Some(Answer {
            id: AnswerId("a1".to_string()),
            content: "late".to_string(),
            question_id: QuestionId("1".to_string()),
        })
    );
    assert_eq!(store.get_question(&QuestionId("1".to_string())), None);
}

#[test]
fn the_two_steps_together_do_what_add_answer_does() {
    let mut one = store_of(3);
    let mut other = store_of(3);
    let request = [("content", "same"), ("questionId", "2")];
    let whole = add_answer(
        &one.questions,
        &mut one.answers,
        params(&request),
        AnswerId("a".to_string()),
    );
    let answer =
        prepare_answer(&other.questions, params(&request), AnswerId("a".to_string())).unwrap();
    let stepwise = file_answer(&mut other.answers, answer);
    assert_eq!(whole, Ok(stepwise));
    assert_eq!(
        one.get_answer(&AnswerId("a".to_string())),
        other.get_answer(&AnswerId("a".to_string()))
    );
    assert_eq!(one.answers.len(), other.answers.len());
}
