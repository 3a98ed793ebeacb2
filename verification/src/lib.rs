//! Account sessions for a quiz site.
//!
//! - `text`: the table of messages, one text per language.
//! - `validation`: the rules for usernames and passwords at registration.
//! - `credentials`: password hashing with the deployment's salt.
//! - `hex`: the hex text in which tokens are written.
//! - `token`: signed session tokens that carry a username and a language.
//! - `store`: the account table, with unique usernames and scores that only grow.
//! - `accounts`: registration and login, as decisions on what the table answered.
//! - `session`: the state of a request, read from its session cookie.
//! - `quiz`: the question bank and the forms of the quiz pages.
//! - `routes`: what each page answers, as a value for the server to send.

pub mod accounts;
pub mod credentials;
pub mod hex;
pub mod quiz;
pub mod routes;
pub mod session;
pub mod store;
pub mod text;
pub mod token;
pub mod validation;
