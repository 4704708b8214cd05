use vstd::prelude::*;

verus! {

/// What a question is, as mathematical values: its text and the answers it
/// accepts, each as stored.
pub struct QuestionView {
    pub question: Seq<char>,
    pub answers: Seq<Seq<char>>,
}

/// What a question set is, as mathematical values.
pub struct ConfigView {
    pub questions: Seq<QuestionView>,
    pub set_name: Seq<char>,
}

/// The whole question set of one JSON document.
#[derive(Debug, PartialEq, Clone)]
pub struct ConfigFile {
    pub questions: Vec<Question>,
    pub set_name: String,
}

/// One question of a set, with the answers that it accepts.
#[derive(Debug, PartialEq, Clone)]
pub struct Question {
    pub question: String,
    pub answers: Vec<String>,
}

pub open spec fn strings_view(v: Seq<String>) -> Seq<Seq<char>> {
    v.map_values(|s: String| s@)
}

impl View for Question {
    type V = QuestionView;

    open spec fn view(&self) -> QuestionView {
        QuestionView { question: self.question@, answers: strings_view(self.answers@) }
    }
}

impl View for ConfigFile {
    type V = ConfigView;

    open spec fn view(&self) -> ConfigView {
        ConfigView {
            questions: self.questions@.map_values(|q: Question| q@),
            set_name: self.set_name@,
        }
    }
}

impl Default for ConfigFile {
    fn default() -> (r: ConfigFile)
        ensures
            r@.questions.len() == 0,
            r@.set_name.len() == 0,
    {
        ConfigFile { questions: Vec::new(), set_name: String::new() }
    }
}

impl Default for Question {
    fn default() -> (r: Question)
        ensures
            r@.question.len() == 0,
            r@.answers.len() == 0,
    {
        Question { question: String::new(), answers: Vec::new() }
    }
}

} // verus!
