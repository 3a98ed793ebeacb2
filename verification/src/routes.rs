//! What each page of the site answers. A reply is a value: a redirect with
//! or without a session cookie, a page with what it shows, or nothing. The
//! server turns it into a response.
//!
//! The session cookie is always named `token`. The cookie of a new
//! session is set on path `/`, `HttpOnly` and `SameSite=Lax`, for as long
//! as its token lasts; the cookie that ends a session is empty, of age
//! nought, and names none of the three.

use crate::accounts::{
    found_user, login, login_result, register, register_result, registered, rewarded, update_user,
    user_or_message, AuthConfig,
};
use crate::quiz::{
    language_asked, language_of, mark, question_options, question_text, text_slot, Answer,
    LangChange, Question,
};
use crate::session::{get_lang_id, session_language, Session};
use crate::store::{
    distinct_usernames, found, holds, is_leaderboard, is_row_of, rows, slot_of, AccountStore,
    Lookup, User,
};
use crate::text::{message_text, text, views, Message};
use crate::token::{encode_token, issued, token_text, TOKEN_LIFETIME};
use rand::Rng;
use vstd::prelude::*;
use vstd::string::*;

verus! {

/// Name of the session cookie.
pub const COOKIE_NAME: &'static str = "token";

/// Path on which a session cookie is set.
pub const COOKIE_PATH: &'static str = "/";

/// Where a redirect leads.
#[derive(Clone, Copy, Debug, PartialEq, Eq, Structural)]
pub enum Route {
    Home,
    Login,
    Profile,
    Answer,
}

impl Route {
    /// The path of the route as a plain value.
    pub open spec fn path_text(self) -> Seq<char> {
        match self {
            Route::Home => "/"@,
            Route::Login => "/login"@,
            Route::Profile => "/profile"@,
            Route::Answer => "/answer"@,
        }
    }

    /// The path of the route.
    pub fn path(self) -> (p: &'static str)
        ensures
            p@ == self.path_text(),
    {
        match self {
            Route::Home => "/",
            Route::Login => "/login",
            Route::Profile => "/profile",
            Route::Answer => "/answer",
        }
    }
}

/// The session cookie that a reply sets: its value, its age in seconds,
/// and whether it is set on path `/`, kept from scripts (`HttpOnly`) and
/// sent with same-site requests and top-level navigation only (`SameSite=Lax`).
#[derive(Debug)]
pub struct SessionCookie {
    pub value: String,
    pub max_age: u64,
    pub root_path: bool,
    pub http_only: bool,
    pub same_site_lax: bool,
}

impl SessionCookie {
    /// Whether the cookie carries the attributes of a session cookie.
    pub open spec fn guarded(self) -> bool {
        self.root_path && self.http_only && self.same_site_lax
    }
}

/// A page and what it shows.
#[derive(Debug)]
pub enum Page {
    Login { err: Option<String> },
    Register { errs: Vec<String> },
    Profile { username: String },
    Top { users: Vec<User> },
    Question { topic: String, question: String, qstn_id: usize, options: Option<Vec<String>> },
}

/// What a request is answered with.
#[derive(Debug)]
pub enum Reply {
    /// Status 303 to a route, with the cookie to set where there is one.
    SeeOther { location: Route, cookie: Option<SessionCookie> },
    /// A rendered page.
    Html(Page),
    /// Status 204.
    NoContent,
}

/// The reply that starts a session: to the profile, with the token in a
/// cookie that lasts as long as the token.
pub open spec fn opens_session(reply: Reply, token: Seq<char>) -> bool {
    match reply {
        Reply::SeeOther { location, cookie: Some(c) } => location == Route::Profile && c.value@
            == token && c.max_age == TOKEN_LIFETIME && c.guarded(),
        _ => false,
    }
}

/// The reply that ends a session: to the home page, with an empty cookie of age nought.
pub open spec fn closes_session(reply: Reply) -> bool {
    match reply {
        Reply::SeeOther { location, cookie: Some(c) } => location == Route::Home && c.value@
            == Seq::<char>::empty() && c.max_age == 0 && !c.root_path && !c.http_only
            && !c.same_site_lax,
        _ => false,
    }
}

/// A redirect that leaves the cookie alone.
pub open spec fn redirects(reply: Reply, to: Route) -> bool {
    match reply {
        Reply::SeeOther { location, cookie: None } => location == to,
        _ => false,
    }
}

/// The login page with one message.
pub open spec fn shows_login(reply: Reply, message: Seq<char>) -> bool {
    match reply {
        Reply::Html(Page::Login { err: Some(e) }) => e@ == message,
        _ => false,
    }
}

/// The registration page with a list of messages.
pub open spec fn shows_register(reply: Reply, messages: Seq<Seq<char>>) -> bool {
    match reply {
        Reply::Html(Page::Register { errs }) => views(errs@) == messages,
        _ => false,
    }
}

/// The profile page of a user.
pub open spec fn shows_profile(reply: Reply, name: Seq<char>) -> bool {
    match reply {
        Reply::Html(Page::Profile { username }) => username@ == name,
        _ => false,
    }
}

/// The cookie of a new session.
pub fn session_cookie(token: String) -> (cookie: SessionCookie)
    ensures
        cookie.value@ == token@,
        cookie.max_age == TOKEN_LIFETIME,
        cookie.guarded(),
{
    SessionCookie {
        value: token,
        max_age: TOKEN_LIFETIME,
        root_path: true,
        http_only: true,
        same_site_lax: true,
    }
}

/// The reply to a login attempt: a session for a token, the login page
/// with the message for a failure.
pub fn login_reply(outcome: Result<String, String>) -> (reply: Reply)
    ensures
        match outcome {
            Ok(token) => opens_session(reply, token@),
            Err(e) => shows_login(reply, e@),
        },
{
    match outcome {
        Ok(token) => Reply::SeeOther {
            location: Route::Profile,
            cookie: Some(session_cookie(token)),
        },
        Err(e) => Reply::Html(Page::Login { err: Some(e) }),
    }
}

/// The registration page with the messages of a rejected registration.
pub fn register_page(errs: Vec<String>) -> (reply: Reply)
    ensures
        shows_register(reply, views(errs@)),
{
    Reply::Html(Page::Register { errs })
}

/// The reply to the login that follows a registration: a session for a
/// token, the registration page with the one message for a failure.
pub fn registered_reply(outcome: Result<String, String>) -> (reply: Reply)
    ensures
        match outcome {
            Ok(token) => opens_session(reply, token@),
            Err(e) => shows_register(reply, seq![e@]),
        },
{
    match outcome {
        Ok(token) => Reply::SeeOther {
            location: Route::Profile,
            cookie: Some(session_cookie(token)),
        },
        Err(e) => {
            let mut errs: Vec<String> = Vec::new();
            errs.push(e);
            assert(views(errs@) =~= seq![e@]);
            Reply::Html(Page::Register { errs })
        },
    }
}

/// Answers a login form.
pub fn login_processing(
    store: &AccountStore,
    config: &AuthConfig,
    session: &Session,
    username: &str,
    password: &str,
    now: u64,
) -> (reply: Reply)
    requires
        now + TOKEN_LIFETIME <= u64::MAX,
    ensures
        match login_result(
            config.signing_key@,
            config.login_language(session_language(*session)),
            found(store@, username@),
            username@,
            password@,
            session_language(*session),
            now,
        ) {
            Ok(token) => opens_session(reply, token),
            Err(e) => shows_login(reply, e),
        },
{
    let language_id = get_lang_id(session);
    login_reply(login(store, config, username, password, language_id, now))
}

/// Answers a registration form: registers the user and, where that
/// succeeds, logs them in. Whoever has just registered gets a session for
/// their username; the table changes as `register` changes it.
pub fn register_processing(
    store: &mut AccountStore,
    config: &AuthConfig,
    session: &Session,
    username: &str,
    password: &str,
    now: u64,
) -> (reply: Reply)
    requires
        now + TOKEN_LIFETIME <= u64::MAX,
    ensures
        final(store)@ == registered(old(store)@, config.salt@, username@, password@),
        distinct_usernames(final(store)@),
        match register_result(old(store)@, username@, password@, session_language(*session)) {
            Ok(_) => opens_session(
                reply,
                token_text(
                    config.signing_key@,
                    issued(username@, config.login_language(session_language(*session)), now),
                ),
            ),
            Err(messages) => shows_register(reply, messages),
        },
{
    let language_id = get_lang_id(session);
    match register(store, config, username, password, language_id) {
        Err(errs) => register_page(errs),
        Ok(_) => registered_reply(login(store, config, username, password, language_id, now)),
    }
}

/// The reply to a request for the profile page, on what the lookup of the
/// session's user gave: the page of the user; the login page with the
/// message for a lookup without a row, and without a session the message
/// that asks to try again.
pub fn profile_reply(session: &Session, sought: Lookup) -> (reply: Reply)
    ensures
        match *session {
            Session::Authenticated(_) => match user_or_message(
                sought@,
                session_language(*session),
            ) {
                Ok(row) => shows_profile(reply, row.username),
                Err(e) => shows_login(reply, e),
            },
            Session::Unauthenticated => shows_login(
                reply,
                message_text(Message::Sorry, session_language(*session)),
            ),
        },
{
    let language_id = get_lang_id(session);
    match session {
        Session::Authenticated(_) => match found_user(sought, language_id) {
            Ok(user) => Reply::Html(Page::Profile { username: user.username }),
            Err(e) => Reply::Html(Page::Login { err: Some(e) }),
        },
        Session::Unauthenticated => Reply::Html(
            Page::Login { err: Some(text(Message::Sorry, language_id)) },
        ),
    }
}

/// Answers a request for the profile page: the page of the user of the
/// session; the login page with a message where there is no session or the
/// user has no row.
pub fn profile(store: &AccountStore, session: &Session) -> (reply: Reply)
    ensures
        match *session {
            Session::Authenticated(claims) => if holds(store@, claims.username@) {
                shows_profile(reply, claims.username@)
            } else {
                shows_login(
                    reply,
                    message_text(Message::UserNotRegistered, session_language(*session)),
                )
            },
            Session::Unauthenticated => shows_login(
                reply,
                message_text(Message::Sorry, session_language(*session)),
            ),
        },
{
    match session {
        Session::Authenticated(claims) => {
            let sought = store.find_by_username(claims.username.as_str());
            proof {
                if holds(store@, claims.username@) {
                    let at = slot_of(store@, claims.username@);
                    assert(is_row_of(store@, claims.username@, at));
                }
            }
            profile_reply(session, sought)
        },
        Session::Unauthenticated => profile_reply(session, Lookup::Missing),
    }
}

/// Answers a logout.
pub fn logout() -> (reply: Reply)
    ensures
        closes_session(reply),
{
    Reply::SeeOther {
        location: Route::Home,
        cookie: Some(
            SessionCookie {
                value: String::new(),
                max_age: 0,
                root_path: false,
                http_only: false,
                same_site_lax: false,
            },
        ),
    }
}

/// Answers a request for another language: a new token for the user of the
/// session in the language asked for. A form that names no language of the
/// table changes nothing; without a session the reply leads to the login page.
pub fn language_change(key: &[u8], session: &Session, form: &LangChange, now: u64) -> (reply: Reply)
    requires
        now + TOKEN_LIFETIME <= u64::MAX,
    ensures
        match *session {
            Session::Authenticated(claims) => match language_asked(form.lang_id@) {
                Some(language_id) => opens_session(
                    reply,
                    token_text(key@, issued(claims.username@, language_id, now)),
                ),
                None => reply is NoContent,
            },
            Session::Unauthenticated => redirects(reply, Route::Login),
        },
{
    match session {
        Session::Authenticated(claims) => match language_of(form) {
            Some(language_id) => Reply::SeeOther {
                location: Route::Profile,
                cookie: Some(
                    session_cookie(encode_token(key, claims.username.as_str(), language_id, now)),
                ),
            },
            None => Reply::NoContent,
        },
        Session::Unauthenticated => Reply::SeeOther { location: Route::Login, cookie: None },
    }
}

/// Answers a request for the leaderboard.
pub fn top(store: &AccountStore, limit: usize) -> (reply: Reply)
    ensures
        match reply {
            Reply::Html(Page::Top { users }) => is_leaderboard(rows(users@), store@, limit as int),
            _ => false,
        },
{
    Reply::Html(Page::Top { users: store.top_scores(limit) })
}

/// Whether an answer form holds a right answer to a question of the bank.
pub open spec fn answered_right(questions: Seq<Question>, form: Answer) -> bool {
    form.qstn_id < questions.len() && views(questions[form.qstn_id as int].answer@).contains(
        form.answer@,
    )
}

/// Whether a marked answer earns a point: it is right, and the request has a session.
pub open spec fn earns_point(session: Session, marked: Option<bool>) -> bool {
    session is Authenticated && marked == Some(true)
}

/// The reply to an answer form that was marked: on to the next question
/// where the answer earns a point, to the login page where it does not.
pub fn answer_reply(session: &Session, marked: Option<bool>) -> (reply: Reply)
    ensures
        redirects(
            reply,
            if earns_point(*session, marked) {
                Route::Answer
            } else {
                Route::Login
            },
        ),
{
    match (session, marked) {
        (Session::Authenticated(_), Some(true)) => Reply::SeeOther {
            location: Route::Answer,
            cookie: None,
        },
        _ => Reply::SeeOther { location: Route::Login, cookie: None },
    }
}

/// Answers an answer form. A right answer in a session gives the user a
/// point in the topic of the form and leads to the next question; anything
/// else leads to the login page and changes nothing.
pub fn check_answer(
    store: &mut AccountStore,
    questions: &Vec<Question>,
    session: &Session,
    form: &Answer,
) -> (reply: Reply)
    ensures
        match *session {
            Session::Authenticated(claims) => if answered_right(questions@, *form) {
                final(store)@ == rewarded(old(store)@, claims.username@, form.topic@) && redirects(
                    reply,
                    Route::Answer,
                )
            } else {
                final(store)@ == old(store)@ && redirects(reply, Route::Login)
            },
            Session::Unauthenticated => final(store)@ == old(store)@ && redirects(
                reply,
                Route::Login,
            ),
        },
{
    let marked = mark(questions, form);
    match (session, marked) {
        (Session::Authenticated(claims), Some(true)) => {
            update_user(store, claims.username.as_str(), form.topic.as_str());
        },
        _ => {},
    }
    answer_reply(session, marked)
}

/// Whether the bank can show question `qstn_id` in a language: the
/// question and its text exist, and its options, where it has any, exist
/// for the language.
pub open spec fn can_show(questions: Seq<Question>, qstn_id: int, language_id: u8) -> bool {
    &&& 0 <= qstn_id < questions.len()
    &&& text_slot(questions[qstn_id].question@.len() as int, language_id)
        < questions[qstn_id].question@.len()
    &&& questions[qstn_id].options matches Some(all) ==> language_id < all@.len()
}

/// Whether a page is the page of question `qstn_id` in a language: its
/// topic, its text and, where it has any, its options in that language.
pub open spec fn is_question_page(
    page: Page,
    questions: Seq<Question>,
    qstn_id: int,
    language_id: u8,
) -> bool {
    match page {
        Page::Question { topic, question, qstn_id: shown, options } => {
            let asked = questions[qstn_id];
            &&& can_show(questions, qstn_id, language_id)
            &&& shown == qstn_id
            &&& topic@ == asked.topic@
            &&& question@ == asked.question@[text_slot(asked.question@.len() as int, language_id)]@
            &&& match options {
                Some(list) => asked.options matches Some(all) && views(list@) == views(
                    all@[language_id as int]@,
                ),
                None => asked.options is None,
            }
        },
        _ => false,
    }
}

/// The page of a question in the language of the session, `None` where the
/// bank cannot show it.
pub fn get_question(questions: &Vec<Question>, qstn_id: usize, session: &Session) -> (page: Option<
    Page,
>)
    ensures
        match page {
            Some(shown) => is_question_page(
                shown,
                questions@,
                qstn_id as int,
                session_language(*session),
            ),
            None => !can_show(questions@, qstn_id as int, session_language(*session)),
        },
{
    let language_id = get_lang_id(session);
    if qstn_id >= questions.len() {
        return None;
    }
    let asked = &questions[qstn_id];
    let question = match question_text(asked, language_id) {
        Some(question) => question,
        None => {
            return None;
        },
    };
    let options = question_options(asked, language_id);
    if asked.options.is_some() && options.is_none() {
        return None;
    }
    Some(Page::Question { topic: asked.topic.clone(), question, qstn_id, options })
}

/// Draws a number with `random_range` of `rand::rng()` on `0..bound`, which
/// panics on an empty range. Trusted: the number drawn is below the bound;
/// nothing is said of which one it is.
#[verifier::external_body]
fn random_below(bound: usize) -> (drawn: usize)
    requires
        bound > 0,
    ensures
        drawn < bound,
{
    rand::rng().random_range(0..bound)
}

/// The page of a question drawn at random from the bank, in the language
/// of the session. `None` where the bank is empty or cannot show the
/// question that was drawn.
pub fn random_question(questions: &Vec<Question>, session: &Session) -> (page: Option<Page>)
    ensures
        match page {
            Some(shown) => exists|qstn_id: int|
                #[trigger] is_question_page(
                    shown,
                    questions@,
                    qstn_id,
                    session_language(*session),
                ),
            None => questions@.len() == 0 || exists|qstn_id: int|
                0 <= qstn_id < questions@.len() && !#[trigger] can_show(
                    questions@,
                    qstn_id,
                    session_language(*session),
                ),
        },
{
    if questions.len() == 0 {
        return None;
    }
    let qstn_id = random_below(questions.len());
    get_question(questions, qstn_id, session)
}

} // verus!
