use quiz::data_structs::{ConfigFile, Question};
use quiz::files::load_str;
use quiz::quiz::{AnswerOutcome, QuizState, QuizStatus};

fn set_of(questions: &[(&str, &[&str])]) -> ConfigFile {
    ConfigFile {
        questions: questions
            .iter()
            .map(|(q, a)| Question {
                question: q.to_string(),
                answers: a.iter().map(|s| s.to_string()).collect(),
            })
            .collect(),
        set_name: "set".to_string(),
    }
}

fn loaded(questions: &[(&str, &[&str])]) -> QuizState {
    let mut s = QuizState::new();
    s.load_question_set(set_of(questions));
    s
}

#[test]
fn two_question_scenario() {
    let text = r#"{"set_name":"S","questions":[{"question":"Q1","answers":["a"]},{"question":"Q2","answers":["b"]}]}"#;
    let mut s = QuizState::new();
    s.load_question_set(load_str(text).unwrap());
    assert_eq!(s.status(), QuizStatus::InProgress);
    assert_eq!(s.current_question().unwrap().question, "Q1");
    assert_eq!(s.submit_answer("a"), AnswerOutcome::Correct);
    assert_eq!(s.question_id(), 1);
    assert_eq!(s.submit_answer("x"), AnswerOutcome::Incorrect);
    assert_eq!(s.question_id(), 1);
    assert_eq!(s.current_question().unwrap().question, "Q2");
    assert_eq!(s.submit_answer("b"), AnswerOutcome::Correct);
    assert_eq!(s.question_id(), 2);
    assert_eq!(s.status(), QuizStatus::Complete);
    assert!(s.current_question().is_none());
}

#[test]
fn upper_case_input_matches_lower_case_answer() {
    let mut s = loaded(&[("What is 2 + 2?", &["4", "four"])]);
    assert_eq!(s.submit_answer("FOUR"), AnswerOutcome::Correct);
    assert_eq!(s.question_id(), 1);
}

#[test]
fn lower_case_input_misses_upper_case_answer() {
    let mut s = loaded(&[("What is 2 + 2?", &["FOUR"])]);
    assert_eq!(s.submit_answer("four"), AnswerOutcome::Incorrect);
    assert_eq!(s.submit_answer("FOUR"), AnswerOutcome::Incorrect);
    assert_eq!(s.question_id(), 0);
}

#[test]
fn prepared_answer_compares_as_stored() {
    let mut s = loaded(&[("Q", &["four"])]);
    assert_eq!(s.submit_prepared("FOUR", &"Four".to_string()), AnswerOutcome::Incorrect);
    assert_eq!(s.submit_prepared("x", &"four".to_string()), AnswerOutcome::Correct);
    assert_eq!(s.status(), QuizStatus::Complete);
}

#[test]
fn prepared_empty_trim_is_empty_input() {
    let mut s = loaded(&[("Q", &["four"])]);
    assert_eq!(s.submit_prepared("", &"four".to_string()), AnswerOutcome::EmptyInput);
    assert_eq!(s.question_id(), 0);
}

#[test]
fn empty_and_blank_input_do_not_advance() {
    let mut s = loaded(&[("Q", &["", " ", "a"])]);
    s.set_answer("typed".to_string());
    assert_eq!(s.submit_answer(""), AnswerOutcome::EmptyInput);
    assert_eq!(s.submit_answer("   "), AnswerOutcome::EmptyInput);
    assert_eq!(s.submit_answer("\t\n"), AnswerOutcome::EmptyInput);
    assert_eq!(s.question_id(), 0);
    assert_eq!(s.answer(), "typed");
}

#[test]
fn surrounding_whitespace_is_kept_for_matching() {
    let mut s = loaded(&[("Q", &["a"])]);
    assert_eq!(s.submit_answer(" a"), AnswerOutcome::Incorrect);
    assert_eq!(s.submit_answer("a"), AnswerOutcome::Correct);
}

#[test]
fn incorrect_keeps_answer_correct_clears_it() {
    let mut s = loaded(&[("Q1", &["a"]), ("Q2", &["b"])]);
    s.set_answer("x".to_string());
    assert_eq!(s.submit_answer("x"), AnswerOutcome::Incorrect);
    assert_eq!(s.answer(), "x");
    s.set_answer("A".to_string());
    assert_eq!(s.submit_answer("A"), AnswerOutcome::Correct);
    assert_eq!(s.answer(), "");
}

#[test]
fn finished_quiz_ignores_further_answers() {
    let mut s = loaded(&[("Q1", &["a"]), ("Q2", &["b"]), ("Q3", &["c"])]);
    for t in ["a", "b", "c"] {
        assert_eq!(s.submit_answer(t), AnswerOutcome::Correct);
    }
    assert_eq!(s.status(), QuizStatus::Complete);
    assert!(s.current_question().is_none());
    assert_eq!(s.submit_answer("c"), AnswerOutcome::NotApplicable);
    assert_eq!(s.submit_answer("a"), AnswerOutcome::NotApplicable);
    assert_eq!(s.question_id(), 3);
}

#[test]
fn index_never_decreases_over_submissions() {
    let mut s = loaded(&[("Q1", &["a"]), ("Q2", &["b"])]);
    let mut last = s.question_id();
    for t in ["x", "a", "", "a", "B", "b", "b", " "] {
        s.submit_answer(t);
        assert!(s.question_id() >= last);
        last = s.question_id();
    }
    assert_eq!(last, 2);
}

#[test]
fn new_state_is_empty() {
    let mut s = QuizState::new();
    assert_eq!(s.status(), QuizStatus::Empty);
    assert!(s.current_question().is_none());
    assert!(s.config_data().is_none());
    assert_eq!(s.submit_answer("a"), AnswerOutcome::NotApplicable);
    assert_eq!(s.question_id(), 0);
}

#[test]
fn zero_question_set_is_complete_at_once() {
    let mut s = loaded(&[]);
    assert_eq!(s.status(), QuizStatus::Complete);
    assert!(s.current_question().is_none());
    assert_eq!(s.submit_answer("a"), AnswerOutcome::NotApplicable);
}

#[test]
fn question_without_answers_accepts_nothing() {
    let mut s = loaded(&[("Q", &[])]);
    assert_eq!(s.submit_answer("a"), AnswerOutcome::Incorrect);
    assert_eq!(s.status(), QuizStatus::InProgress);
}

#[test]
fn reset_goes_back_to_first_question() {
    let mut s = loaded(&[("Q1", &["a"]), ("Q2", &["b"])]);
    s.submit_answer("a");
    s.set_answer("half".to_string());
    s.reset();
    assert_eq!(s.question_id(), 0);
    assert_eq!(s.answer(), "");
    assert_eq!(s.status(), QuizStatus::InProgress);
    assert_eq!(s.current_question().unwrap().question, "Q1");
}

#[test]
fn reset_without_set_stays_empty() {
    let mut s = QuizState::new();
    s.reset();
    assert_eq!(s.status(), QuizStatus::Empty);
}

#[test]
fn reset_data_drops_the_set() {
    let mut s = loaded(&[("Q1", &["a"])]);
    s.submit_answer("a");
    s.reset_data();
    assert_eq!(s.status(), QuizStatus::Empty);
    assert!(s.config_data().is_none());
    assert_eq!(s.question_id(), 0);
}

#[test]
fn load_replaces_everything() {
    let mut s = loaded(&[("Q1", &["a"])]);
    s.submit_answer("a");
    s.set_answer("left".to_string());
    s.load_question_set(set_of(&[("R1", &["r"]), ("R2", &["s"])]));
    assert_eq!(s.question_id(), 0);
    assert_eq!(s.answer(), "");
    assert_eq!(s.current_question().unwrap().question, "R1");
    assert_eq!(s.config_data().as_ref().unwrap().questions.len(), 2);
}
