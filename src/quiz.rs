use vstd::prelude::*;

use crate::data_structs::{strings_view, ConfigFile, ConfigView, Question, QuestionView};

verus! {

/// What `str::to_lowercase` returns for a text.
pub uninterp spec fn lower_of(s: Seq<char>) -> Seq<char>;

/// What `str::trim` returns for a text.
pub uninterp spec fn trim_of(s: Seq<char>) -> Seq<char>;

/// Relies on `str::to_lowercase`: the result depends on the characters alone,
/// and an empty text stays empty.
#[verifier::external_body]
fn lowercase(s: &str) -> (r: String)
    ensures
        r@ == lower_of(s@),
        s@.len() == 0 ==> r@.len() == 0,
{
    s.to_lowercase()
}

/// Relies on `str::trim`: the text without its leading and trailing
/// whitespace; an empty text stays empty.
#[verifier::external_body]
fn trim(s: &str) -> (r: &str)
    ensures
        r@ == trim_of(s@),
        s@.len() == 0 ==> r@.len() == 0,
{
    s.trim()
}

/// Whether `lowered` is one of `answers`, compared exactly.
fn contains_answer(answers: &Vec<String>, lowered: &String) -> (r: bool)
    ensures
        r == strings_view(answers@).contains(lowered@),
{
    let mut i: usize = 0;
    while i < answers.len()
        invariant
            i <= answers.len(),
            forall|j: int| 0 <= j < i ==> answers@[j]@ != lowered@,
        decreases answers.len() - i,
    {
        if answers[i] == *lowered {
            assert(strings_view(answers@)[i as int] == lowered@);
            return true;
        }
        i = i + 1;
    }
    assert(!strings_view(answers@).contains(lowered@)) by {
        if strings_view(answers@).contains(lowered@) {
            let k = choose|k: int| 0 <= k < answers@.len() && strings_view(answers@)[k] == lowered@;
        }
    }
    false
}

/// What a submitted answer did.
#[derive(Debug, Clone, Copy, PartialEq, Eq, Structural)]
pub enum AnswerOutcome {
    /// The answer matched: the quiz moved on to the next question.
    Correct,
    /// The answer matched none of the accepted ones.
    Incorrect,
    /// Nothing but whitespace was submitted.
    EmptyInput,
    /// No question was open: no set is loaded, or the set is finished.
    NotApplicable,
}

/// Where the quiz stands, as the player sees it.
#[derive(Debug, Clone, Copy, PartialEq, Eq, Structural)]
pub enum QuizStatus {
    /// No question set is loaded.
    Empty,
    /// A question is open.
    InProgress,
    /// Every question of the set has been answered.
    Complete,
}

/// The state of a quiz as mathematical values.
pub struct QuizView {
    pub set: Option<ConfigView>,
    pub index: nat,
    pub answer: Seq<char>,
}

/// Number of questions in the loaded set; none for no set.
pub open spec fn set_len(s: QuizView) -> nat {
    match s.set {
        Some(c) => c.questions.len(),
        None => 0,
    }
}

pub open spec fn in_progress(s: QuizView) -> bool {
    s.set is Some && s.index < set_len(s)
}

pub open spec fn status_of(s: QuizView) -> QuizStatus {
    if s.set is None {
        QuizStatus::Empty
    } else if s.index < set_len(s) {
        QuizStatus::InProgress
    } else {
        QuizStatus::Complete
    }
}

/// The question that is open; only meaningful where `in_progress(s)`.
pub open spec fn open_question(s: QuizView) -> QuestionView {
    s.set->0.questions[s.index as int]
}

/// Whether a question takes an answer already folded to lower case: it must
/// equal one of the stored answers exactly, as stored.
pub open spec fn accepts(q: QuestionView, lowered: Seq<char>) -> bool {
    q.answers.contains(lowered)
}

/// One submission, given the trimmed and the lower-cased text.
pub open spec fn step_prepared(s: QuizView, trimmed: Seq<char>, lowered: Seq<char>) -> (
    QuizView,
    AnswerOutcome,
) {
    if !in_progress(s) {
        (s, AnswerOutcome::NotApplicable)
    } else if trimmed.len() == 0 {
        (s, AnswerOutcome::EmptyInput)
    } else if accepts(open_question(s), lowered) {
        (QuizView { index: s.index + 1, answer: Seq::empty(), ..s }, AnswerOutcome::Correct)
    } else {
        (s, AnswerOutcome::Incorrect)
    }
}

/// One submission of the text `text`.
pub open spec fn step(s: QuizView, text: Seq<char>) -> (QuizView, AnswerOutcome) {
    step_prepared(s, trim_of(text), lower_of(text))
}

/// The state after submitting each text of `texts` in turn.
pub open spec fn run(s: QuizView, texts: Seq<Seq<char>>) -> QuizView
    decreases texts.len(),
{
    if texts.len() == 0 {
        s
    } else {
        step(run(s, texts.drop_last()), texts.last()).0
    }
}

/// Whatever texts are submitted, one after another, the loaded set stays and
/// the open question never moves back: only `reset`, `reset_data` and
/// `load_question_set` bring it back.
pub proof fn lemma_index_never_decreases(s: QuizView, texts: Seq<Seq<char>>)
    ensures
        run(s, texts).set == s.set,
        run(s, texts).index >= s.index,
    decreases texts.len(),
{
    if texts.len() > 0 {
        lemma_index_never_decreases(s, texts.drop_last());
    }
}

/// Over a set of `n` questions, `n` correct answers in a row from the first
/// question finish the quiz: no question is open any more, the status is
/// complete, and any further submission changes nothing.
pub proof fn lemma_completion(s: QuizView, texts: Seq<Seq<char>>)
    requires
        s.set is Some,
        s.index == 0,
        texts.len() == set_len(s),
        forall|i: int|
            0 <= i < texts.len() ==> (#[trigger] step(run(s, texts.take(i)), texts[i])).1
                == AnswerOutcome::Correct,
    ensures
        run(s, texts).index == set_len(s),
        !in_progress(run(s, texts)),
        status_of(run(s, texts)) == QuizStatus::Complete,
        forall|t: Seq<char>|
            #[trigger] step(run(s, texts), t) == (run(s, texts), AnswerOutcome::NotApplicable),
{
    lemma_correct_prefix(s, texts, texts.len() as int);
    assert(texts.take(texts.len() as int) =~= texts);
    lemma_index_never_decreases(s, texts);
}

proof fn lemma_correct_prefix(s: QuizView, texts: Seq<Seq<char>>, k: int)
    requires
        0 <= k <= texts.len(),
        forall|i: int|
            0 <= i < texts.len() ==> (#[trigger] step(run(s, texts.take(i)), texts[i])).1
                == AnswerOutcome::Correct,
    ensures
        run(s, texts.take(k)).index == s.index + k,
    decreases k,
{
    if k > 0 {
        lemma_correct_prefix(s, texts, k - 1);
        assert(texts.take(k).drop_last() =~= texts.take(k - 1));
        assert(texts.take(k).last() == texts[k - 1]);
        let _ = step(run(s, texts.take(k - 1)), texts[k - 1]);
    } else {
        assert(texts.take(0) =~= Seq::<Seq<char>>::empty());
    }
}

/// The progression through a question set: which set is loaded, which
/// question is open, and the answer being typed.
pub struct QuizState {
    config_data: Option<ConfigFile>,
    question_id: usize,
    answer: String,
}

impl View for QuizState {
    type V = QuizView;

    closed spec fn view(&self) -> QuizView {
        QuizView {
            set: match self.config_data {
                Some(c) => Some(c@),
                None => None,
            },
            index: self.question_id as nat,
            answer: self.answer@,
        }
    }
}

impl QuizState {
    /// The open question never lies past the end of the set.
    pub open spec fn wf(&self) -> bool {
        self@.index <= set_len(self@)
    }

    /// A quiz with no question set loaded.
    pub fn new() -> (r: QuizState)
        ensures
            r.wf(),
            r@ == (QuizView { set: None, index: 0, answer: Seq::empty() }),
    {
        QuizState { config_data: None, question_id: 0, answer: String::new() }
    }

    /// Rebuilds a saved state: the set `config_data` with its question
    /// number `question_id` open and an empty answer. None where that
    /// question lies past the end of the set, or is not the first one where
    /// no set is given.
    pub fn restore(config_data: Option<ConfigFile>, question_id: usize) -> (r: Option<QuizState>)
        ensures
            r is Some == (question_id <= match config_data {
                Some(c) => c@.questions.len(),
                None => 0,
            }),
            r is Some ==> r->0.wf() && r->0@ == (QuizView {
                set: match config_data {
                    Some(c) => Some(c@),
                    None => None,
                },
                index: question_id as nat,
                answer: Seq::empty(),
            }),
    {
        let len = match &config_data {
            Some(c) => c.questions.len(),
            None => 0,
        };
        if question_id <= len {
            Some(QuizState { config_data, question_id, answer: String::new() })
        } else {
            None
        }
    }

    /// Replaces the whole state by the set `qs`, at its first question, with
    /// an empty answer.
    pub fn load_question_set(&mut self, qs: ConfigFile)
        ensures
            final(self).wf(),
            final(self)@ == (QuizView { set: Some(qs@), index: 0, answer: Seq::empty() }),
    {
        self.config_data = Some(qs);
        self.question_id = 0;
        self.answer = String::new();
    }

    /// Goes back to the first question of the loaded set, if any, with an
    /// empty answer; the set stays.
    pub fn reset(&mut self)
        requires
            old(self).wf(),
        ensures
            final(self).wf(),
            final(self)@ == (QuizView { index: 0, answer: Seq::empty(), ..old(self)@ }),
    {
        self.question_id = 0;
        self.answer = String::new();
    }

    /// Puts the quiz back to its first state: the loaded set is dropped too.
    pub fn reset_data(&mut self)
        ensures
            final(self).wf(),
            final(self)@ == (QuizView { set: None, index: 0, answer: Seq::empty() }),
    {
        *self = QuizState::new();
    }

    /// The loaded set, if any.
    pub fn config_data(&self) -> (r: &Option<ConfigFile>)
        ensures
            r is Some == self@.set is Some,
            r is Some ==> r->0@ == self@.set->0,
    {
        &self.config_data
    }

    /// Position of the open question in the set.
    pub fn question_id(&self) -> (r: usize)
        ensures
            r == self@.index,
    {
        self.question_id
    }

    /// The answer being typed.
    pub fn answer(&self) -> (r: &String)
        ensures
            r@ == self@.answer,
    {
        &self.answer
    }

    /// Replaces the answer being typed; nothing else changes.
    pub fn set_answer(&mut self, text: String)
        ensures
            final(self)@ == (QuizView { answer: text@, ..old(self)@ }),
            final(self).wf() == old(self).wf(),
    {
        self.answer = text;
    }

    /// Where the quiz stands.
    pub fn status(&self) -> (r: QuizStatus)
        ensures
            r == status_of(self@),
    {
        match &self.config_data {
            None => QuizStatus::Empty,
            Some(c) => {
                if self.question_id < c.questions.len() {
                    QuizStatus::InProgress
                } else {
                    QuizStatus::Complete
                }
            },
        }
    }

    /// The open question: none where no set is loaded or the set is finished.
    pub fn current_question(&self) -> (r: Option<&Question>)
        ensures
            r is Some == in_progress(self@),
            r is Some ==> r->0@ == open_question(self@),
    {
        match &self.config_data {
            None => None,
            Some(c) => {
                if self.question_id < c.questions.len() {
                    Some(&c.questions[self.question_id])
                } else {
                    None
                }
            },
        }
    }
    /// Submits an answer, given the text with its surrounding whitespace
    /// trimmed (`trimmed`) and folded to lower case (`lowered`). Where a
    /// question is open and `trimmed` is not empty, the answer is correct
    /// exactly when `lowered` equals one of the question's stored answers; a
    /// correct answer opens the next question and clears the answer being
    /// typed. Nothing else changes the state.
    pub fn submit_prepared(&mut self, trimmed: &str, lowered: &String) -> (r: AnswerOutcome)
        requires
            old(self).wf(),
        ensures
            final(self).wf(),
            (final(self)@, r) == step_prepared(old(self)@, trimmed@, lowered@),
    {
        let ghost s0 = self@;
        let ok = match &self.config_data {
            None => None,
            Some(c) => {
                if self.question_id < c.questions.len() {
                    Some(contains_answer(&c.questions[self.question_id].answers, lowered))
                } else {
                    None
                }
            },
        };
        match ok {
            None => AnswerOutcome::NotApplicable,
            Some(found) => {
                if trimmed.is_empty() {
                    AnswerOutcome::EmptyInput
                } else if found {
                    self.question_id = self.question_id + 1;
                    self.answer = String::new();
                    assert(self@ == step_prepared(s0, trimmed@, lowered@).0);
                    AnswerOutcome::Correct
                } else {
                    AnswerOutcome::Incorrect
                }
            },
        }
    }

    /// Submits the answer `text`: it counts when, trimmed, it is not empty,
    /// and, folded to lower case, it equals one of the open question's
    /// stored answers as stored.
    pub fn submit_answer(&mut self, text: &str) -> (r: AnswerOutcome)
        requires
            old(self).wf(),
        ensures
            final(self).wf(),
            (final(self)@, r) == step(old(self)@, text@),
            final(self)@.set == old(self)@.set,
            final(self)@.index >= old(self)@.index,
            text@.len() == 0 ==> final(self)@ == old(self)@,
            text@.len() == 0 && in_progress(old(self)@) ==> r == AnswerOutcome::EmptyInput,
    {
        let trimmed = trim(text);
        let lowered = lowercase(text);
        self.submit_prepared(trimmed, &lowered)
    }
}

} // verus!
