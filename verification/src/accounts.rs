//! Registration and login. Each flow is a decision on what the account table
//! answered: `register_start`, `creation_result` and `login_with` take that
//! answer as a value, for a caller that keeps the table elsewhere, and
//! `register`, `add_user`, `get_user` and `login` run the same decisions on
//! an `AccountStore`.
//!
//! `register` makes the account and returns no session: a caller that wants
//! one calls `login` next, which cannot fail on the credentials just registered.

use crate::credentials::{
    bcrypt_hash, hash_password, password_matches, salt_from_secret, salt_of, verify_password,
};
use crate::store::{
    distinct_usernames, fresh_account, found, holds, is_leaderboard, is_row_of, lemma_row_of,
    lemma_with_account, lemma_with_point, row_of, rows, score_of, subject_named, subject_of,
    with_account, with_point, Account, AccountStore, Creation, Lookup, LookupView, Subject, User,
};
use crate::text::{
    message_text, message_texts, supported_language, text, views, Message, DEFAULT_LANGUAGE,
};
use crate::token::{
    encode_token, issued, lemma_token_round_trip, token_claims, token_text, TOKEN_LIFETIME,
};
use crate::validation::{acceptable, validate, violations};
use vstd::prelude::*;

verus! {

/// What a deployment fixes at start: the salt of all password hashes, the
/// key that signs session tokens, and whether a token minted at login keeps
/// the language of the request or starts in the default language.
pub struct AuthConfig {
    pub salt: [u8; 16],
    pub signing_key: Vec<u8>,
    pub login_keeps_language: bool,
}

impl AuthConfig {
    /// The configuration for a salt secret and a signing key. `None` where
    /// the secret holds no salt.
    pub fn from_secrets(
        salt_secret: &str,
        signing_key: Vec<u8>,
        login_keeps_language: bool,
    ) -> (config: Option<AuthConfig>)
        ensures
            match config {
                Some(c) => salt_of(salt_secret@) == Some(c.salt@) && c.signing_key@ == signing_key@
                    && c.login_keeps_language == login_keeps_language,
                None => salt_of(salt_secret@) is None,
            },
    {
        match salt_from_secret(salt_secret) {
            Some(salt) => Some(AuthConfig { salt, signing_key, login_keeps_language }),
            None => None,
        }
    }

    /// The language of a token minted at login for a request in `language_id`.
    pub open spec fn login_language(&self, language_id: u8) -> u8 {
        if self.login_keeps_language {
            language_id
        } else {
            DEFAULT_LANGUAGE
        }
    }
}

/// A result of texts as plain values.
pub open spec fn text_outcome(r: Result<String, String>) -> Result<Seq<char>, Seq<char>> {
    match r {
        Ok(s) => Ok(s@),
        Err(e) => Err(e@),
    }
}

/// A result with a list of messages as plain values.
pub open spec fn list_outcome(r: Result<(), Vec<String>>) -> Result<(), Seq<Seq<char>>> {
    match r {
        Ok(_) => Ok(()),
        Err(errs) => Err(views(errs@)),
    }
}

/// The row that a lookup gave, or the message that says why there is none.
pub open spec fn user_or_message(sought: LookupView, language_id: u8) -> Result<
    Account,
    Seq<char>,
> {
    match sought {
        LookupView::Found(row) => Ok(row),
        LookupView::Missing => Err(message_text(Message::UserNotRegistered, language_id)),
        LookupView::Unavailable => Err(message_text(Message::Sorry, language_id)),
    }
}

/// What a login attempt gives: the token for the user where the stored hash
/// accepts the password; otherwise the message for a wrong password, an
/// unknown user or a table that did not answer.
pub open spec fn login_result(
    key: Seq<u8>,
    token_language: u8,
    sought: LookupView,
    username: Seq<char>,
    password: Seq<char>,
    language_id: u8,
    now: u64,
) -> Result<Seq<char>, Seq<char>> {
    match sought {
        LookupView::Found(row) => if password_matches(password, row.password) {
            Ok(token_text(key, issued(username, token_language, now)))
        } else {
            Err(message_text(Message::LoginWrong, language_id))
        },
        LookupView::Missing => Err(message_text(Message::UserNotRegistered, language_id)),
        LookupView::Unavailable => Err(message_text(Message::Sorry, language_id)),
    }
}

/// The message for an attempt to make a row that made none.
pub open spec fn creation_message(outcome: Creation) -> Option<Message> {
    match outcome {
        Creation::Created => None,
        Creation::UsernameTaken => Some(Message::UserRegistered),
        Creation::Unavailable => Some(Message::Sorry),
    }
}

/// What a registration gives on a table: the messages of all broken rules;
/// with no rule broken, the one message that the username is taken; else success.
pub open spec fn register_result(
    accounts: Seq<Account>,
    username: Seq<char>,
    password: Seq<char>,
    language_id: u8,
) -> Result<(), Seq<Seq<char>>> {
    if !acceptable(username, password) {
        Err(message_texts(violations(username, password), language_id))
    } else if holds(accounts, username) {
        Err(seq![message_text(Message::UserRegistered, language_id)])
    } else {
        Ok(())
    }
}

/// The table after a registration: with the new row where the registration
/// succeeded, unchanged where it failed.
pub open spec fn registered(
    accounts: Seq<Account>,
    salt: Seq<u8>,
    username: Seq<char>,
    password: Seq<char>,
) -> Seq<Account> {
    if acceptable(username, password) {
        with_account(accounts, username, bcrypt_hash(password, salt))
    } else {
        accounts
    }
}

/// Turns the answer of a lookup into the row or a message.
pub fn found_user(sought: Lookup, language_id: u8) -> (r: Result<User, String>)
    requires
        supported_language(language_id),
    ensures
        match r {
            Ok(user) => user_or_message(sought@, language_id) == Ok::<Account, Seq<char>>(user@),
            Err(e) => user_or_message(sought@, language_id) == Err::<Account, Seq<char>>(e@),
        },
{
    match sought {
        Lookup::Found(user) => Ok(user),
        Lookup::Missing => Err(text(Message::UserNotRegistered, language_id)),
        Lookup::Unavailable => Err(text(Message::Sorry, language_id)),
    }
}

/// Looks a user up in the table.
pub fn get_user(store: &AccountStore, username: &str, language_id: u8) -> (r: Result<User, String>)
    requires
        supported_language(language_id),
    ensures
        match r {
            Ok(user) => holds(store@, username@) && user@ == row_of(store@, username@),
            Err(e) => !holds(store@, username@) && e@ == message_text(
                Message::UserNotRegistered,
                language_id,
            ),
        },
{
    found_user(store.find_by_username(username), language_id)
}

/// Decides a login attempt on what the lookup of the username gave.
pub fn login_with(
    config: &AuthConfig,
    sought: &Lookup,
    username: &str,
    password: &str,
    language_id: u8,
    now: u64,
) -> (r: Result<String, String>)
    requires
        supported_language(language_id),
        now + TOKEN_LIFETIME <= u64::MAX,
    ensures
        text_outcome(r) == login_result(
            config.signing_key@,
            config.login_language(language_id),
            sought@,
            username@,
            password@,
            language_id,
            now,
        ),
{
    match sought {
        Lookup::Found(user) => {
            if verify_password(password, user.password.as_str()) {
                let token_language = if config.login_keeps_language {
                    language_id
                } else {
                    DEFAULT_LANGUAGE
                };
                Ok(encode_token(config.signing_key.as_slice(), username, token_language, now))
            } else {
                Err(text(Message::LoginWrong, language_id))
            }
        },
        Lookup::Missing => Err(text(Message::UserNotRegistered, language_id)),
        Lookup::Unavailable => Err(text(Message::Sorry, language_id)),
    }
}

/// Logs a user in: looks the username up, checks the password against the
/// stored hash and mints a token.
pub fn login(
    store: &AccountStore,
    config: &AuthConfig,
    username: &str,
    password: &str,
    language_id: u8,
    now: u64,
) -> (r: Result<String, String>)
    requires
        supported_language(language_id),
        now + TOKEN_LIFETIME <= u64::MAX,
    ensures
        text_outcome(r) == login_result(
            config.signing_key@,
            config.login_language(language_id),
            found(store@, username@),
            username@,
            password@,
            language_id,
            now,
        ),
{
    let sought = store.find_by_username(username);
    login_with(config, &sought, username, password, language_id, now)
}

/// First step of a registration.
pub enum Registration {
    /// A rule is broken: the messages of all broken rules.
    Rejected(Vec<String>),
    /// No rule is broken: the row to make.
    Insert(User),
}

/// Checks the rules and, where none is broken, hashes the password and
/// returns the row to make.
pub fn register_start(salt: &[u8; 16], username: &str, password: &str, language_id: u8) -> (step:
    Registration)
    requires
        supported_language(language_id),
    ensures
        match step {
            Registration::Rejected(errs) => !acceptable(username@, password@) && views(errs@)
                == message_texts(violations(username@, password@), language_id),
            Registration::Insert(user) => acceptable(username@, password@) && user@
                == fresh_account(username@, bcrypt_hash(password@, salt@)) && password_matches(
                password@,
                user@.password,
            ),
        },
{
    match validate(username, password, language_id) {
        Err(errs) => Registration::Rejected(errs),
        Ok(_) => Registration::Insert(
            User::new(username.to_owned(), hash_password(password, salt)),
        ),
    }
}

/// Turns the answer of an attempt to make a row into success or a message.
pub fn creation_result(outcome: Creation, language_id: u8) -> (r: Result<(), String>)
    requires
        supported_language(language_id),
    ensures
        match r {
            Ok(_) => creation_message(outcome) is None,
            Err(e) => creation_message(outcome) matches Some(key) && e@ == message_text(
                key,
                language_id,
            ),
        },
{
    match outcome {
        Creation::Created => Ok(()),
        Creation::UsernameTaken => Err(text(Message::UserRegistered, language_id)),
        Creation::Unavailable => Err(text(Message::Sorry, language_id)),
    }
}

/// Last step of a registration: the answer of the table as the result of
/// the registration, a failure as a list of one message.
pub fn register_finish(outcome: Creation, language_id: u8) -> (r: Result<(), Vec<String>>)
    requires
        supported_language(language_id),
    ensures
        match r {
            Ok(_) => creation_message(outcome) is None,
            Err(errs) => creation_message(outcome) matches Some(key) && views(errs@) == seq![
                message_text(key, language_id),
            ],
        },
{
    match creation_result(outcome, language_id) {
        Ok(_) => Ok(()),
        Err(e) => {
            let mut errs: Vec<String> = Vec::new();
            errs.push(e);
            assert(views(errs@) =~= seq![e@]);
            Err(errs)
        },
    }
}

/// Makes the account of a new user with the hash of the password, unless
/// the username is taken.
pub fn add_user(
    store: &mut AccountStore,
    salt: &[u8; 16],
    username: &str,
    password: &str,
    language_id: u8,
) -> (r: Result<(), String>)
    requires
        supported_language(language_id),
    ensures
        final(store)@ == with_account(old(store)@, username@, bcrypt_hash(password@, salt@)),
        distinct_usernames(final(store)@),
        match r {
            Ok(_) => !holds(old(store)@, username@) && password_matches(
                password@,
                row_of(final(store)@, username@).password,
            ),
            Err(e) => holds(old(store)@, username@) && e@ == message_text(
                Message::UserRegistered,
                language_id,
            ),
        },
{
    let hashed = hash_password(password, salt);
    let outcome = store.create_account(username, hashed);
    proof {
        if !holds(old(store)@, username@) {
            let n = old(store)@.len() as int;
            assert(is_row_of(store@, username@, n));
            lemma_row_of(store@, username@, n);
        }
    }
    creation_result(outcome, language_id)
}

/// Registers a user: checks every rule, then makes the account. The result
/// is the list of all messages where a rule is broken, the one message that
/// the username is taken, or success; only success changes the table.
pub fn register(
    store: &mut AccountStore,
    config: &AuthConfig,
    username: &str,
    password: &str,
    language_id: u8,
) -> (r: Result<(), Vec<String>>)
    requires
        supported_language(language_id),
    ensures
        list_outcome(r) == register_result(old(store)@, username@, password@, language_id),
        final(store)@ == registered(old(store)@, config.salt@, username@, password@),
        distinct_usernames(final(store)@),
        r is Ok ==> holds(final(store)@, username@) && password_matches(
            password@,
            row_of(final(store)@, username@).password,
        ),
        r is Err ==> final(store)@ == old(store)@,
{
    let rows_before = store.len();
    match register_start(&config.salt, username, password, language_id) {
        Registration::Rejected(errs) => Err(errs),
        Registration::Insert(user) => {
            let outcome = store.create_account(username, user.password);
            proof {
                if !holds(old(store)@, username@) {
                    assert(is_row_of(store@, username@, rows_before as int));
                    lemma_row_of(store@, username@, rows_before as int);
                }
            }
            register_finish(outcome, language_id)
        },
    }
}

/// The leaderboard of the table, at most `limit` rows long.
pub fn get_top(store: &AccountStore, limit: usize) -> (top: Vec<User>)
    ensures
        is_leaderboard(rows(top@), store@, limit as int),
        top@.len() == if limit < store@.len() {
            limit as int
        } else {
            store@.len() as int
        },
{
    store.top_scores(limit)
}

/// The table after a correct answer in a topic: a point for the user in the
/// subject of that name, no change for a name that is no subject.
pub open spec fn rewarded(accounts: Seq<Account>, username: Seq<char>, topic: Seq<char>) -> Seq<
    Account,
> {
    match subject_named(topic) {
        Some(subject) => with_point(accounts, username, subject),
        None => accounts,
    }
}

/// Gives the user a point in a topic. An unknown user or topic changes nothing.
pub fn update_user(store: &mut AccountStore, username: &str, topic: &str)
    ensures
        final(store)@ == rewarded(old(store)@, username@, topic@),
{
    match subject_of(topic) {
        Some(subject) => store.update_score(username, subject),
        None => {},
    }
}

/// A point changes no username and no password hash, makes no row and
/// lowers no score.
pub proof fn lemma_rewarded_keeps_table(
    accounts: Seq<Account>,
    username: Seq<char>,
    topic: Seq<char>,
)
    requires
        distinct_usernames(accounts),
    ensures
        distinct_usernames(rewarded(accounts, username, topic)),
        rewarded(accounts, username, topic).len() == accounts.len(),
        forall|i: int, subject: Subject|
            #![trigger score_of(rewarded(accounts, username, topic)[i], subject)]
            0 <= i < accounts.len() ==> {
                let after = rewarded(accounts, username, topic)[i];
                &&& after.username == accounts[i].username
                &&& after.password == accounts[i].password
                &&& score_of(after, subject) >= score_of(accounts[i], subject)
            },
{
    match subject_named(topic) {
        Some(subject) => {
            lemma_with_point(accounts, username, subject);
        },
        None => {},
    }
}

/// Whoever registers can log in. A registration that breaks no rule under
/// a free username succeeds; and where the hash that it stored accepts the
/// password, as every hash that `hash_password` makes does, a login with
/// the same credentials gives a token, and until it expires the token
/// proves the username.
pub proof fn lemma_register_then_login(
    accounts: Seq<Account>,
    salt: Seq<u8>,
    key: Seq<u8>,
    token_language: u8,
    username: Seq<char>,
    password: Seq<char>,
    language_id: u8,
    now: u64,
    later: u64,
)
    requires
        distinct_usernames(accounts),
        acceptable(username, password),
        !holds(accounts, username),
        supported_language(token_language),
        now + TOKEN_LIFETIME <= u64::MAX,
        later < now + TOKEN_LIFETIME,
    ensures
        register_result(accounts, username, password, language_id) is Ok,
        password_matches(password, bcrypt_hash(password, salt)) ==> {
            let after = registered(accounts, salt, username, password);
            let token = token_text(key, issued(username, token_language, now));
            &&& login_result(
                key,
                token_language,
                found(after, username),
                username,
                password,
                language_id,
                now,
            ) == Ok::<Seq<char>, Seq<char>>(token)
            &&& token_claims(key, token, later) matches Some(claims) && claims.username
                == username
        },
{
    lemma_with_account(accounts, username, bcrypt_hash(password, salt));
    lemma_token_round_trip(key, issued(username, token_language, now), later);
}

/// A login to an account whose stored hash accepts the password gives a
/// token, and until it expires the token proves the username; a login with
/// a password that the stored hash does not accept fails with the message
/// for wrong credentials.
pub proof fn lemma_login_by_stored_hash(
    accounts: Seq<Account>,
    key: Seq<u8>,
    token_language: u8,
    username: Seq<char>,
    password: Seq<char>,
    language_id: u8,
    now: u64,
    later: u64,
)
    requires
        holds(accounts, username),
        supported_language(token_language),
        now + TOKEN_LIFETIME <= u64::MAX,
        later < now + TOKEN_LIFETIME,
    ensures
        ({
            let outcome = login_result(
                key,
                token_language,
                found(accounts, username),
                username,
                password,
                language_id,
                now,
            );
            let token = token_text(key, issued(username, token_language, now));
            if password_matches(password, row_of(accounts, username).password) {
                &&& outcome == Ok::<Seq<char>, Seq<char>>(token)
                &&& token_claims(key, token, later) == Some(issued(username, token_language, now))
            } else {
                outcome == Err::<Seq<char>, Seq<char>>(
                    message_text(Message::LoginWrong, language_id),
                )
            }
        }),
{
    lemma_token_round_trip(key, issued(username, token_language, now), later);
}

/// A login ends in a token or in one of three messages of the table, whatever
/// the lookup gave.
pub proof fn lemma_login_outcomes(
    key: Seq<u8>,
    token_language: u8,
    sought: LookupView,
    username: Seq<char>,
    password: Seq<char>,
    language_id: u8,
    now: u64,
)
    ensures
        match login_result(key, token_language, sought, username, password, language_id, now) {
            Ok(token) => token == token_text(key, issued(username, token_language, now)),
            Err(e) => e == message_text(Message::LoginWrong, language_id) || e == message_text(
                Message::UserNotRegistered,
                language_id,
            ) || e == message_text(Message::Sorry, language_id),
        },
{
}

/// A registration under a username that the table holds fails with the one
/// message that the username is taken, and leaves the table as it was.
pub proof fn lemma_taken_username_rejected(
    accounts: Seq<Account>,
    salt: Seq<u8>,
    username: Seq<char>,
    password: Seq<char>,
    language_id: u8,
)
    requires
        holds(accounts, username),
        acceptable(username, password),
    ensures
        register_result(accounts, username, password, language_id) == Err::<(), Seq<Seq<char>>>(
            seq![message_text(Message::UserRegistered, language_id)],
        ),
        registered(accounts, salt, username, password) == accounts,
{
}

/// Of two registrations under one free username, the first makes the
/// account and the second finds the username taken: the table ends with one
/// row for it, the row of the first.
pub proof fn lemma_one_registration_wins(
    accounts: Seq<Account>,
    salt: Seq<u8>,
    username: Seq<char>,
    first_password: Seq<char>,
    second_password: Seq<char>,
    language_id: u8,
)
    requires
        distinct_usernames(accounts),
        !holds(accounts, username),
        acceptable(username, first_password),
        acceptable(username, second_password),
    ensures
        ({
            let between = registered(accounts, salt, username, first_password);
            let after = registered(between, salt, username, second_password);
            &&& register_result(accounts, username, first_password, language_id) is Ok
            &&& register_result(between, username, second_password, language_id) == Err::<
                (),
                Seq<Seq<char>>,
            >(seq![message_text(Message::UserRegistered, language_id)])
            &&& after == accounts.push(
                fresh_account(username, bcrypt_hash(first_password, salt)),
            )
            &&& distinct_usernames(after)
        }),
{
    lemma_with_account(accounts, username, bcrypt_hash(first_password, salt));
}

/// A registration never makes a second row for a username, and changes no
/// other user's row.
pub proof fn lemma_registration_keeps_table(
    accounts: Seq<Account>,
    salt: Seq<u8>,
    username: Seq<char>,
    password: Seq<char>,
)
    requires
        distinct_usernames(accounts),
    ensures
        distinct_usernames(registered(accounts, salt, username, password)),
        forall|other: Seq<char>|
            other != username ==> found(registered(accounts, salt, username, password), other)
                == found(accounts, other),
{
    lemma_with_account(accounts, username, bcrypt_hash(password, salt));
}

} // verus!
