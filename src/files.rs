use vstd::prelude::*;

use crate::data_structs::{strings_view, ConfigFile, ConfigView, Question, QuestionView};

verus! {

#[verifier::external_type_specification]
#[verifier::external_body]
pub struct ExValue(serde_json::Value);

#[verifier::external_type_specification]
#[verifier::external_body]
pub struct ExJsonError(serde_json::Error);

/// The JSON value that `serde_json::from_str` reads from a text; none where
/// the text is not one JSON document.
pub uninterp spec fn json_of(text: Seq<char>) -> Option<serde_json::Value>;

/// What `Value::get` returns for a key: the member of an object under it.
pub uninterp spec fn member_of(v: serde_json::Value, key: Seq<char>) -> Option<serde_json::Value>;

/// What `Value::as_str` returns: the text of a JSON string.
pub uninterp spec fn str_of(v: serde_json::Value) -> Option<Seq<char>>;

/// What `Value::as_array` returns: the elements of a JSON array.
pub uninterp spec fn array_of(v: serde_json::Value) -> Option<Seq<serde_json::Value>>;

/// Relies on `serde_json::from_str::<Value>`: it reads one JSON document, or
/// fails; the result depends on the text alone.
#[verifier::external_body]
fn parse_json(text: &str) -> (r: Result<serde_json::Value, serde_json::Error>)
    ensures
        match r {
            Ok(v) => json_of(text@) == Some(v),
            Err(_) => json_of(text@) is None,
        },
{
    serde_json::from_str(text)
}

/// Relies on `Value::get` with a `&str` key: the member of an object under
/// that key; none for a missing key or a value that is not an object.
#[verifier::external_body]
fn member<'a>(v: &'a serde_json::Value, key: &str) -> (r: Option<&'a serde_json::Value>)
    ensures
        match r {
            Some(m) => member_of(*v, key@) == Some(*m),
            None => member_of(*v, key@) is None,
        },
{
    v.get(key)
}

/// Relies on `Value::as_str`: the text of a JSON string; none for any other
/// value.
#[verifier::external_body]
fn as_text(v: &serde_json::Value) -> (r: Option<&str>)
    ensures
        match r {
            Some(t) => str_of(*v) == Some(t@),
            None => str_of(*v) is None,
        },
{
    v.as_str()
}

/// Relies on `Value::as_array`: the elements of a JSON array; none for any
/// other value.
#[verifier::external_body]
fn as_items(v: &serde_json::Value) -> (r: Option<&Vec<serde_json::Value>>)
    ensures
        match r {
            Some(a) => array_of(*v) == Some(a@),
            None => array_of(*v) is None,
        },
{
    v.as_array()
}

/// Relies on `serde_json::Error`'s `Display`: a message that says where the
/// text stops being JSON.
#[verifier::external_body]
fn error_message(e: &serde_json::Error) -> (r: String) {
    e.to_string()
}

/// Why a text could not be read as a question set.
#[derive(Debug, PartialEq, Clone)]
pub enum LoadError {
    /// The text is not JSON, or not of the shape of a question set.
    Malformed(String),
}

/// The texts of JSON values that are all strings; none where one is not.
pub open spec fn texts_of(items: Seq<serde_json::Value>) -> Option<Seq<Seq<char>>> {
    if forall|i: int| 0 <= i < items.len() ==> (#[trigger] str_of(items[i])) is Some {
        Some(Seq::new(items.len(), |i: int| str_of(items[i])->0))
    } else {
        None
    }
}

/// The question that a JSON value holds: an object with the string
/// `question` and the array of strings `answers`; other members are ignored.
pub open spec fn question_of(v: serde_json::Value) -> Option<QuestionView> {
    let q = member_of(v, "question"@);
    let a = member_of(v, "answers"@);
    if q is Some && str_of(q->0) is Some && a is Some && array_of(a->0) is Some && texts_of(
        array_of(a->0)->0,
    ) is Some {
        Some(QuestionView { question: str_of(q->0)->0, answers: texts_of(array_of(a->0)->0)->0 })
    } else {
        None
    }
}

/// The question set that a JSON value holds: an object with the string
/// `set_name` and the array `questions`, each element of which holds a
/// question; other members are ignored.
pub open spec fn config_of(v: serde_json::Value) -> Option<ConfigView> {
    let n = member_of(v, "set_name"@);
    let q = member_of(v, "questions"@);
    if n is Some && str_of(n->0) is Some && q is Some && array_of(q->0) is Some && (forall|i: int|
        0 <= i < array_of(q->0)->0.len() ==> (#[trigger] question_of(array_of(q->0)->0[i])) is Some) {
        let items = array_of(q->0)->0;
        Some(ConfigView {
            questions: Seq::new(items.len(), |i: int| question_of(items[i])->0),
            set_name: str_of(n->0)->0,
        })
    } else {
        None
    }
}

/// The question set that a text holds, where it is one.
pub open spec fn load_of(text: Seq<char>) -> Option<ConfigView> {
    match json_of(text) {
        Some(v) => config_of(v),
        None => None,
    }
}

fn texts_from(items: &Vec<serde_json::Value>) -> (r: Option<Vec<String>>)
    ensures
        match r {
            Some(t) => texts_of(items@) == Some(strings_view(t@)),
            None => texts_of(items@) is None,
        },
{
    let mut out: Vec<String> = Vec::new();
    let mut i: usize = 0;
    while i < items.len()
        invariant
            i <= items.len(),
            out@.len() == i,
            forall|j: int| 0 <= j < i ==> str_of(items@[j]) == Some(#[trigger] out@[j]@),
        decreases items.len() - i,
    {
        match as_text(&items[i]) {
            Some(t) => out.push(t.to_owned()),
            None => {
                return None;
            },
        }
        i = i + 1;
    }
    assert forall|j: int| 0 <= j < items@.len() implies (#[trigger] str_of(items@[j])) is Some by {
        assert(str_of(items@[j]) == Some(out@[j]@));
    }
    assert(strings_view(out@) =~= Seq::new(items@.len(), |j: int| str_of(items@[j])->0));
    Some(out)
}

fn question_from(v: &serde_json::Value) -> (r: Option<Question>)
    ensures
        match r {
            Some(q) => question_of(*v) == Some(q@),
            None => question_of(*v) is None,
        },
{
    let q = match member(v, "question") {
        Some(m) => m,
        None => {
            return None;
        },
    };
    let text = match as_text(q) {
        Some(t) => t,
        None => {
            return None;
        },
    };
    let a = match member(v, "answers") {
        Some(m) => m,
        None => {
            return None;
        },
    };
    let items = match as_items(a) {
        Some(x) => x,
        None => {
            return None;
        },
    };
    let answers = match texts_from(items) {
        Some(x) => x,
        None => {
            return None;
        },
    };
    Some(Question { question: text.to_owned(), answers })
}

/// Reads a question set out of a JSON value: an object with the string
/// `set_name` and the array `questions`, each element of which is an object
/// with the string `question` and the array of strings `answers`. Other
/// members are ignored; anything else fails, and nothing is kept of it.
pub fn config_from_value(v: &serde_json::Value) -> (r: Result<ConfigFile, LoadError>)
    ensures
        match r {
            Ok(c) => config_of(*v) == Some(c@),
            Err(_) => config_of(*v) is None,
        },
{
    let n = match member(v, "set_name") {
        Some(m) => m,
        None => {
            return Err(LoadError::Malformed("missing field `set_name`".to_owned()));
        },
    };
    let name = match as_text(n) {
        Some(t) => t,
        None => {
            return Err(LoadError::Malformed("`set_name` is not a string".to_owned()));
        },
    };
    let q = match member(v, "questions") {
        Some(m) => m,
        None => {
            return Err(LoadError::Malformed("missing field `questions`".to_owned()));
        },
    };
    let items = match as_items(q) {
        Some(x) => x,
        None => {
            return Err(LoadError::Malformed("`questions` is not an array".to_owned()));
        },
    };
    let mut questions: Vec<Question> = Vec::new();
    let mut i: usize = 0;
    while i < items.len()
        invariant
            i <= items.len(),
            questions@.len() == i,
            member_of(*v, "questions"@) == Some(*q),
            array_of(*q) == Some(items@),
            forall|j: int| 0 <= j < i ==> question_of(items@[j]) == Some(#[trigger] questions@[j]@),
        decreases items.len() - i,
    {
        match question_from(&items[i]) {
            Some(x) => questions.push(x),
            None => {
                assert(question_of(items@[i as int]) is None);
                assert(!(forall|k: int|
                    0 <= k < items@.len() ==> (#[trigger] question_of(items@[k])) is Some));
                return Err(
                    LoadError::Malformed(
                        "a question lacks the string `question` or the array of strings `answers`".to_owned(),
                    ),
                );
            },
        }
        i = i + 1;
    }
    assert forall|j: int| 0 <= j < items@.len() implies (#[trigger] question_of(items@[j])) is Some by {
        assert(question_of(items@[j]) == Some(questions@[j]@));
    }
    let c = ConfigFile { questions, set_name: name.to_owned() };
    assert(c@.questions =~= Seq::new(items@.len(), |j: int| question_of(items@[j])->0));
    Ok(c)
}

/// Reads a question set out of a JSON text: it fails where the text is not
/// one JSON document, and where the document is not of the shape that
/// `config_from_value` reads.
pub fn load_str(file: &str) -> (r: Result<ConfigFile, LoadError>)
    ensures
        match r {
            Ok(c) => load_of(file@) == Some(c@),
            Err(_) => load_of(file@) is None,
        },
{
    match parse_json(file) {
        Ok(v) => config_from_value(&v),
        Err(e) => Err(LoadError::Malformed(error_message(&e))),
    }
}

/// A JSON document without the member `set_name` or without the member
/// `questions` is no question set: `load_str` fails on it.
pub proof fn lemma_missing_field_rejected(text: Seq<char>)
    requires
        json_of(text) is Some,
        member_of(json_of(text)->0, "set_name"@) is None || member_of(
            json_of(text)->0,
            "questions"@,
        ) is None,
    ensures
        load_of(text) is None,
{
}

/// A JSON document whose question number `i` has, as its answer number `j`,
/// something other than a string is no question set: `load_str` fails on it.
pub proof fn lemma_non_string_answer_rejected(text: Seq<char>, i: int, j: int)
    requires
        json_of(text) is Some,
        member_of(json_of(text)->0, "questions"@) is Some,
        array_of(member_of(json_of(text)->0, "questions"@)->0) is Some,
        0 <= i < array_of(member_of(json_of(text)->0, "questions"@)->0)->0.len(),
        ({
            let q = array_of(member_of(json_of(text)->0, "questions"@)->0)->0[i];
            &&& member_of(q, "answers"@) is Some
            &&& array_of(member_of(q, "answers"@)->0) is Some
            &&& 0 <= j < array_of(member_of(q, "answers"@)->0)->0.len()
            &&& str_of(array_of(member_of(q, "answers"@)->0)->0[j]) is None
        }),
    ensures
        load_of(text) is None,
{
    let items = array_of(member_of(json_of(text)->0, "questions"@)->0)->0;
    let q = items[i];
    let answers = array_of(member_of(q, "answers"@)->0)->0;
    assert(str_of(answers[j]) is None);
    assert(texts_of(answers) is None);
    assert(question_of(q) is None);
}

} // verus!
