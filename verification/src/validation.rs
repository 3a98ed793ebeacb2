//! The rules that a username and a password must meet at registration. All
//! rules are checked every time; the messages come out in the rules' order.

use crate::text::{message_texts, supported_language, text, views, Message};
use vstd::prelude::*;
use vstd::utf8::encode_utf8;

verus! {

/// Shortest username, in bytes.
pub const USERNAME_MIN: usize = 5;

/// Longest username, in bytes.
pub const USERNAME_MAX: usize = 15;

/// Shortest password, in bytes.
pub const PASSWORD_MIN: usize = 8;

/// Longest password, in bytes.
pub const PASSWORD_MAX: usize = 30;

/// Whether a character is a letter or a digit of any script.
pub uninterp spec fn is_alphanumeric(c: char) -> bool;

/// Calls `char::is_alphanumeric`. Trusted: the answer is a function of the character.
#[verifier::external_body]
fn char_is_alphanumeric(c: char) -> (r: bool)
    ensures
        r == is_alphanumeric(c),
{
    c.is_alphanumeric()
}

/// Length of a text in bytes, which is how the limits are counted.
pub open spec fn byte_len(s: Seq<char>) -> nat {
    encode_utf8(s).len()
}

/// The punctuation that a password may hold besides letters and digits.
pub open spec fn is_password_symbol(c: char) -> bool {
    c == '!' || c == '@' || c == '#' || c == '$' || c == '%' || c == '^' || c == '&' || c == '*'
        || c == '(' || c == ')' || c == '_' || c == '+' || c == '=' || c == '-' || c == '?' || c
        == '>' || c == '<'
}

/// Whether a character may stand in a password.
pub open spec fn is_password_char(c: char) -> bool {
    is_alphanumeric(c) || is_password_symbol(c)
}

/// Whether a username is made of letters and digits only.
pub open spec fn username_chars_ok(username: Seq<char>) -> bool {
    forall|i: int| 0 <= i < username.len() ==> is_alphanumeric(#[trigger] username[i])
}

/// Whether a password is made of letters, digits and the listed punctuation only.
pub open spec fn password_chars_ok(password: Seq<char>) -> bool {
    forall|i: int| 0 <= i < password.len() ==> is_password_char(#[trigger] password[i])
}

/// `key` where the rule is broken, nothing where it is kept.
pub open spec fn broken(rule_broken: bool, key: Message) -> Seq<Message> {
    if rule_broken {
        seq![key]
    } else {
        Seq::empty()
    }
}

/// The rules that a username and a password break, each named by its
/// message, in the order in which the messages are shown.
pub open spec fn violations(username: Seq<char>, password: Seq<char>) -> Seq<Message> {
    broken(byte_len(username) < USERNAME_MIN, Message::UsernameShort) + broken(
        byte_len(password) < PASSWORD_MIN,
        Message::PasswordShort,
    ) + broken(byte_len(password) > PASSWORD_MAX, Message::PasswordLong) + broken(
        byte_len(username) > USERNAME_MAX,
        Message::UsernameLong,
    ) + broken(!username_chars_ok(username), Message::UsernameCont) + broken(
        !password_chars_ok(password),
        Message::PasswordCont,
    )
}

/// A username and password that break no rule.
pub open spec fn acceptable(username: Seq<char>, password: Seq<char>) -> bool {
    &&& USERNAME_MIN <= byte_len(username) <= USERNAME_MAX
    &&& PASSWORD_MIN <= byte_len(password) <= PASSWORD_MAX
    &&& username_chars_ok(username)
    &&& password_chars_ok(password)
}

/// Breaking no rule is the same as having no violation to report.
pub proof fn lemma_acceptable_iff_no_violation(username: Seq<char>, password: Seq<char>)
    ensures
        acceptable(username, password) <==> violations(username, password).len() == 0,
{
}

/// Whether every character of `s` is a letter or a digit.
pub fn all_alphanumeric(s: &str) -> (ok: bool)
    ensures
        ok == username_chars_ok(s@),
{
    let mut ok: bool = true;
    for c in it: s.chars()
        invariant
            it.seq() == s@,
            ok == forall|i: int| 0 <= i < it.index() ==> is_alphanumeric(#[trigger] s@[i]),
    {
        if !char_is_alphanumeric(c) {
            ok = false;
        }
    }
    ok
}

/// Whether `c` may stand in a password.
pub fn password_char(c: char) -> (ok: bool)
    ensures
        ok == is_password_char(c),
{
    char_is_alphanumeric(c) || c == '!' || c == '@' || c == '#' || c == '$' || c == '%' || c == '^'
        || c == '&' || c == '*' || c == '(' || c == ')' || c == '_' || c == '+' || c == '=' || c
        == '-' || c == '?' || c == '>' || c == '<'
}

/// Whether every character of `s` may stand in a password.
pub fn all_password_chars(s: &str) -> (ok: bool)
    ensures
        ok == password_chars_ok(s@),
{
    let mut ok: bool = true;
    for c in it: s.chars()
        invariant
            it.seq() == s@,
            ok == forall|i: int| 0 <= i < it.index() ==> is_password_char(#[trigger] s@[i]),
    {
        if !password_char(c) {
            ok = false;
        }
    }
    ok
}

/// The texts of a list of rules with one more rule looked at are the texts so
/// far followed by that rule's text where it is broken. Returns the longer list.
proof fn lemma_reported(
    rules: Seq<Message>,
    rule_broken: bool,
    key: Message,
    language_id: u8,
) -> (longer: Seq<Message>)
    ensures
        longer == rules + broken(rule_broken, key),
        message_texts(longer, language_id) == message_texts(rules, language_id) + message_texts(
            broken(rule_broken, key),
            language_id,
        ),
{
    let longer = rules + broken(rule_broken, key);
    assert(message_texts(longer, language_id) =~= message_texts(rules, language_id)
        + message_texts(broken(rule_broken, key), language_id));
    longer
}

/// Adds the text of `key` to the messages where the rule is broken.
fn report(errs: &mut Vec<String>, rule_broken: bool, key: Message, language_id: u8)
    requires
        supported_language(language_id),
    ensures
        views(final(errs)@) == views(old(errs)@) + message_texts(
            broken(rule_broken, key),
            language_id,
        ),
{
    if rule_broken {
        errs.push(text(key, language_id));
    }
    assert(views(errs@) =~= views(old(errs)@) + message_texts(
        broken(rule_broken, key),
        language_id,
    ));
}

/// Checks a username and a password against every rule. `Ok` where none is
/// broken; otherwise the messages of all broken rules in the given language.
pub fn validate(username: &str, password: &str, language_id: u8) -> (r: Result<(), Vec<String>>)
    requires
        supported_language(language_id),
    ensures
        match r {
            Ok(_) => acceptable(username@, password@),
            Err(errs) => !acceptable(username@, password@) && views(errs@) == message_texts(
                violations(username@, password@),
                language_id,
            ),
        },
{
    let username_len = username.as_bytes().len();
    let password_len = password.as_bytes().len();
    let mut errs: Vec<String> = Vec::new();
    let ghost rules = Seq::<Message>::empty();
    assert(views(errs@) =~= message_texts(rules, language_id));
    let username_short = username_len < USERNAME_MIN;
    report(&mut errs, username_short, Message::UsernameShort, language_id);
    proof {
        rules = lemma_reported(rules, username_short, Message::UsernameShort, language_id);
    }
    let password_short = password_len < PASSWORD_MIN;
    report(&mut errs, password_short, Message::PasswordShort, language_id);
    proof {
        rules = lemma_reported(rules, password_short, Message::PasswordShort, language_id);
    }
    let password_long = password_len > PASSWORD_MAX;
    report(&mut errs, password_long, Message::PasswordLong, language_id);
    proof {
        rules = lemma_reported(rules, password_long, Message::PasswordLong, language_id);
    }
    let username_long = username_len > USERNAME_MAX;
    report(&mut errs, username_long, Message::UsernameLong, language_id);
    proof {
        rules = lemma_reported(rules, username_long, Message::UsernameLong, language_id);
    }
    let username_ok = all_alphanumeric(username);
    report(&mut errs, !username_ok, Message::UsernameCont, language_id);
    proof {
        rules = lemma_reported(rules, !username_ok, Message::UsernameCont, language_id);
    }
    let password_ok = all_password_chars(password);
    report(&mut errs, !password_ok, Message::PasswordCont, language_id);
    proof {
        rules = lemma_reported(rules, !password_ok, Message::PasswordCont, language_id);
        assert(rules =~= violations(username@, password@));
        assert(views(errs@).len() == errs@.len());
        assert(message_texts(rules, language_id).len() == rules.len());
        lemma_acceptable_iff_no_violation(username@, password@);
    }
    if errs.is_empty() {
        Ok(())
    } else {
        Err(errs)
    }
}

} // verus!
