//! The question bank as the quiz pages read it, and the forms that the
//! pages send back.

use crate::text::{same_text, supported_language, views, LANGUAGES};
use vstd::prelude::*;

verus! {

/// A question of the bank. `question` holds the text once, or once per
/// language; `options`, where there are any, holds one list per language;
/// `answer` holds every answer that counts as right.
#[derive(Debug, Hash)]
pub struct Question {
    pub topic: String,
    pub question: Vec<String>,
    pub options: Option<Vec<Vec<String>>>,
    pub answer: Vec<String>,
}

/// The form that asks for another language.
#[derive(Debug)]
pub struct LangChange {
    pub lang_id: String,
}

/// The form that answers a question.
#[derive(Debug)]
pub struct Answer {
    pub topic: String,
    pub qstn_id: u8,
    pub answer: String,
}

/// The error of `str::parse` for integers, carried through unread.
#[verifier::external_type_specification]
#[verifier::external_body]
pub struct ExParseIntError(std::num::ParseIntError);

/// The number that a text stands for as a `u8`, `None` where it stands for none.
pub uninterp spec fn parsed_u8(text: Seq<char>) -> Option<u8>;

/// Calls `str::parse::<u8>`. Trusted: what it returns is a function of the text.
#[verifier::external_body]
fn parse_u8(text: &str) -> (r: Result<u8, std::num::ParseIntError>)
    ensures
        match r {
            Ok(n) => parsed_u8(text@) == Some(n),
            Err(_) => parsed_u8(text@) is None,
        },
{
    text.parse::<u8>()
}

/// The language that a form asks for, `None` where the text is no number or
/// names no language of the table.
pub open spec fn language_asked(text: Seq<char>) -> Option<u8> {
    match parsed_u8(text) {
        Some(id) => if supported_language(id) {
            Some(id)
        } else {
            None
        },
        None => None,
    }
}

/// Reads the language id of a form and rejects one that the table lacks.
pub fn language_of(form: &LangChange) -> (id: Option<u8>)
    ensures
        id == language_asked(form.lang_id@),
        id matches Some(l) ==> supported_language(l),
{
    match parse_u8(form.lang_id.as_str()) {
        Ok(id) => if id < LANGUAGES {
            Some(id)
        } else {
            None
        },
        Err(_) => None,
    }
}

/// The place of the text of a question in a language: the one text where
/// there is only one, else the text of that language.
pub open spec fn text_slot(texts: int, language_id: u8) -> int {
    if texts > 1 {
        language_id as int
    } else {
        0
    }
}

/// The text of a question in a language, `None` where the question has no
/// such text.
pub fn question_text(question: &Question, language_id: u8) -> (shown: Option<String>)
    ensures
        match shown {
            Some(s) => {
                let at = text_slot(question.question@.len() as int, language_id);
                at < question.question@.len() && s@ == question.question@[at]@
            },
            None => text_slot(question.question@.len() as int, language_id)
                >= question.question@.len(),
        },
{
    let at: usize = if question.question.len() > 1 {
        language_id as usize
    } else {
        0
    };
    if at < question.question.len() {
        Some(question.question[at].clone())
    } else {
        None
    }
}

/// A copy of a list of texts.
pub fn copy_texts(texts: &Vec<String>) -> (copy: Vec<String>)
    ensures
        views(copy@) == views(texts@),
{
    let mut copy: Vec<String> = Vec::new();
    let mut i: usize = 0;
    while i < texts.len()
        invariant
            i <= texts@.len(),
            copy@.len() == i,
            forall|j: int| 0 <= j < i ==> copy@[j]@ == texts@[j]@,
        decreases texts@.len() - i,
    {
        copy.push(texts[i].clone());
        i += 1;
    }
    assert(views(copy@) =~= views(texts@));
    copy
}

/// The options of a question in a language, `None` where the question has
/// none for it.
pub fn question_options(question: &Question, language_id: u8) -> (shown: Option<Vec<String>>)
    ensures
        match shown {
            Some(list) => question.options matches Some(all) && language_id < all@.len() && views(
                list@,
            ) == views(all@[language_id as int]@),
            None => question.options matches Some(all) ==> language_id >= all@.len(),
        },
{
    match &question.options {
        Some(all) => {
            let at = language_id as usize;
            if at < all.len() {
                Some(copy_texts(&all[at]))
            } else {
                None
            }
        },
        None => None,
    }
}

/// Whether an answer is one of those that count as right.
pub fn is_right(question: &Question, answer: &str) -> (right: bool)
    ensures
        right == views(question.answer@).contains(answer@),
{
    let mut i: usize = 0;
    while i < question.answer.len()
        invariant
            i <= question.answer@.len(),
            forall|j: int| 0 <= j < i ==> views(question.answer@)[j] != answer@,
        decreases question.answer@.len() - i,
    {
        if same_text(question.answer[i].as_str(), answer) {
            assert(views(question.answer@)[i as int] == answer@);
            return true;
        }
        i += 1;
    }
    false
}

/// Marks the answer of a form: `None` where the bank has no question of
/// that number, else whether the answer is right.
pub fn mark(questions: &Vec<Question>, form: &Answer) -> (marked: Option<bool>)
    ensures
        match marked {
            Some(right) => form.qstn_id < questions@.len() && right == views(
                questions@[form.qstn_id as int].answer@,
            ).contains(form.answer@),
            None => form.qstn_id >= questions@.len(),
        },
{
    let at = form.qstn_id as usize;
    if at < questions.len() {
        Some(is_right(&questions[at], form.answer.as_str()))
    } else {
        None
    }
}

} // verus!
