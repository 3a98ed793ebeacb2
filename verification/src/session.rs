//! What every request starts with: reading the session cookie. A request is
//! authenticated where its cookie holds a token that is valid now, and
//! unauthenticated otherwise; nothing here changes the cookie.

use crate::text::{supported_language, DEFAULT_LANGUAGE, LANGUAGES};
use crate::token::{decode_token, token_claims, Claims, SessionClaims};
use vstd::prelude::*;

verus! {

/// The state of a request.
#[derive(Debug, Clone)]
pub enum Session {
    Unauthenticated,
    Authenticated(SessionClaims),
}

/// The claims that a cookie proves at the time `now`, `None` without a
/// cookie or with one that holds no valid token.
pub open spec fn cookie_claims(key: Seq<u8>, cookie: Option<Seq<char>>, now: u64) -> Option<
    Claims,
> {
    match cookie {
        Some(token) => token_claims(key, token, now),
        None => None,
    }
}

/// The claims of a session, `None` for an unauthenticated one.
pub open spec fn session_claims(session: Session) -> Option<Claims> {
    match session {
        Session::Authenticated(claims) => Some(claims@),
        Session::Unauthenticated => None,
    }
}

/// The language in which a request is answered: the language of its
/// session where that is a language of the table, else the default.
pub open spec fn session_language(session: Session) -> u8 {
    match session {
        Session::Authenticated(claims) => if supported_language(claims.language_id) {
            claims.language_id
        } else {
            DEFAULT_LANGUAGE
        },
        Session::Unauthenticated => DEFAULT_LANGUAGE,
    }
}

/// The text of an optional cookie as a plain value.
pub open spec fn cookie_text(cookie: Option<&str>) -> Option<Seq<char>> {
    match cookie {
        Some(token) => Some(token@),
        None => None,
    }
}

/// Decides the state of a request from its session cookie.
pub fn authenticate(key: &[u8], cookie: Option<&str>, now: u64) -> (session: Session)
    ensures
        session_claims(session) == cookie_claims(key@, cookie_text(cookie), now),
{
    match cookie {
        Some(token) => match decode_token(key, token, now) {
            Some(claims) => Session::Authenticated(claims),
            None => Session::Unauthenticated,
        },
        None => Session::Unauthenticated,
    }
}

/// The language in which to answer a request.
pub fn get_lang_id(session: &Session) -> (language_id: u8)
    ensures
        language_id == session_language(*session),
        supported_language(language_id),
{
    match session {
        Session::Authenticated(claims) => if claims.language_id < LANGUAGES {
            claims.language_id
        } else {
            DEFAULT_LANGUAGE
        },
        Session::Unauthenticated => DEFAULT_LANGUAGE,
    }
}

} // verus!
