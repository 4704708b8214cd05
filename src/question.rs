use vstd::prelude::*;

use crate::data_structs::{strings_view, QuestionView};

verus! {

/// A question on its own, outside any set: its text and the answers it
/// accepts.
#[derive(Debug, PartialEq, Clone)]
pub struct Question {
    pub question: String,
    pub answers: Vec<String>,
}

impl View for Question {
    type V = QuestionView;

    open spec fn view(&self) -> QuestionView {
        QuestionView { question: self.question@, answers: strings_view(self.answers@) }
    }
}

} // verus!
