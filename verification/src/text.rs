//! The table of user-facing messages, one text per supported language.

use vstd::prelude::*;
use vstd::string::*;

verus! {

/// Number of supported languages. A language id is an index below this.
pub const LANGUAGES: u8 = 2;

/// Language of a request that carries no session.
pub const DEFAULT_LANGUAGE: u8 = 0;

// The rows of the table: the English text, then the Russian.

pub const USERNAME_SHORT: [&'static str; 2] = [
    "Username should be longer than 5 symbols",
    "Юзернейм должен быть длинее 5-и символов",
];

pub const PASSWORD_SHORT: [&'static str; 2] = [
    "Password should be longer than 8 symbols",
    "Пароль должен быть длинее 8-и символов",
];

pub const PASSWORD_LONG: [&'static str; 2] = [
    "Password should be shorter than 30 symbols",
    "Пароль должен быть короче 30-и символов",
];

pub const USERNAME_LONG: [&'static str; 2] = [
    "Username should be shorter than 15 symbols",
    "Юзернейм должен быть короче 15-и символов",
];

pub const USERNAME_CONT: [&'static str; 2] = [
    "Username should consist only from alphanumeric symbols",
    "Юзернейм должен состоять лишь из букв и чисел",
];

pub const PASSWORD_CONT: [&'static str; 2] = [
    "Password should consist only from alphanumeric symbols + !@#$%^&*()_+=-?><",
    "Пароль должен состоять лишь из букв и чисел + !@#$%^&*()_+=-?><",
];

pub const USER_REGISTERED: [&'static str; 2] = [
    "Username is already registered",
    "Юзернейм уже зарегистрирован",
];

pub const USER_NOT_REGISTERED: [&'static str; 2] = [
    "Username is not registered",
    "Юзернейм не зарегистрирован",
];

pub const SORRY: [&'static str; 2] = ["Sorry, try again later", "Извините, попробуйте позже"];

pub const LOGIN_WRONG: [&'static str; 2] = [
    "Wrong username of password",
    "Неверный логин или пароль",
];

/// The keys of the message table.
#[derive(Clone, Copy, Debug, PartialEq, Eq, Structural)]
pub enum Message {
    UsernameShort,
    PasswordShort,
    PasswordLong,
    UsernameLong,
    UsernameCont,
    PasswordCont,
    UserRegistered,
    UserNotRegistered,
    Sorry,
    LoginWrong,
}

/// The row of the table that belongs to `key`: its text in each language.
pub open spec fn translations(key: Message) -> [&'static str; 2] {
    match key {
        Message::UsernameShort => USERNAME_SHORT,
        Message::PasswordShort => PASSWORD_SHORT,
        Message::PasswordLong => PASSWORD_LONG,
        Message::UsernameLong => USERNAME_LONG,
        Message::UsernameCont => USERNAME_CONT,
        Message::PasswordCont => PASSWORD_CONT,
        Message::UserRegistered => USER_REGISTERED,
        Message::UserNotRegistered => USER_NOT_REGISTERED,
        Message::Sorry => SORRY,
        Message::LoginWrong => LOGIN_WRONG,
    }
}

/// The text of `key` in the language `language_id`.
pub open spec fn message_text(key: Message, language_id: u8) -> Seq<char> {
    translations(key)[language_id as int]@
}

/// Whether `language_id` selects a language of the table.
pub open spec fn supported_language(language_id: u8) -> bool {
    language_id < LANGUAGES
}

/// Looks `key` up in the table and returns its text in the given language.
pub fn text(key: Message, language_id: u8) -> (s: String)
    requires
        supported_language(language_id),
    ensures
        s@ == message_text(key, language_id),
{
    let i: usize = language_id as usize;
    let row: [&'static str; 2] = match key {
        Message::UsernameShort => USERNAME_SHORT,
        Message::PasswordShort => PASSWORD_SHORT,
        Message::PasswordLong => PASSWORD_LONG,
        Message::UsernameLong => USERNAME_LONG,
        Message::UsernameCont => USERNAME_CONT,
        Message::PasswordCont => PASSWORD_CONT,
        Message::UserRegistered => USER_REGISTERED,
        Message::UserNotRegistered => USER_NOT_REGISTERED,
        Message::Sorry => SORRY,
        Message::LoginWrong => LOGIN_WRONG,
    };
    String::from_str(row[i])
}

/// Whether two texts are the same.
pub fn same_text(a: &str, b: &str) -> (same: bool)
    ensures
        same == (a@ == b@),
{
    let left = a.to_owned();
    let right = b.to_owned();
    left == right
}

/// The texts of a list of keys, in the same order.
pub open spec fn message_texts(keys: Seq<Message>, language_id: u8) -> Seq<Seq<char>> {
    keys.map_values(|key: Message| message_text(key, language_id))
}

/// The views of a list of strings, in the same order.
pub open spec fn views(strings: Seq<String>) -> Seq<Seq<char>> {
    strings.map_values(|s: String| s@)
}

} // verus!
