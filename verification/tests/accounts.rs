use quiz_auth::accounts::{
    add_user, creation_result, found_user, get_top, get_user, login, login_with, register,
    register_finish, register_start, update_user, AuthConfig, Registration,
};
use quiz_auth::store::{AccountStore, Creation, Lookup, User};
use quiz_auth::token::decode_token;

const SALT: [u8; 16] = [38, 113, 212, 141, 108, 213, 195, 166, 201, 38, 20, 13, 47, 40, 104, 18];
const NOW: u64 = 1_700_000_000;
const KNOWN_PASSWORD: &str = "My S3cre7 P@55w0rd!";
const KNOWN_HASH: &str = "$2b$05$HlFShUxTu4ZHHfOLJwfmCeDj/kuKFKboanXtDJXxCC7aIPTUgxNDe";

fn config() -> AuthConfig {
    AuthConfig { salt: SALT, signing_key: b"secret-key".to_vec(), login_keeps_language: false }
}

fn store_with(username: &str) -> AccountStore {
    let mut store = AccountStore::new();
    assert_eq!(store.create_account(username, KNOWN_HASH.to_string()), Creation::Created);
    store
}

#[test]
fn register_then_login_scenario() {
    let mut store = AccountStore::new();
    let config = config();
    assert_eq!(register(&mut store, &config, "alice123", "Secret1!", 0), Ok(()));
    let token = login(&store, &config, "alice123", "Secret1!", 0, NOW).unwrap();
    assert!(!token.is_empty());
    let claims = decode_token(&config.signing_key, &token, NOW).unwrap();
    assert_eq!(claims.username, "alice123");
    assert_eq!(
        login(&store, &config, "alice123", "wrong", 0, NOW),
        Err("Wrong username of password".to_string())
    );
}

#[test]
fn configuration_from_secrets() {
    let config = AuthConfig::from_secrets("HlFShUxTu4ZHHfOLJwfmCeDj", b"key".to_vec(), true).unwrap();
    assert_eq!(config.salt, SALT);
    assert_eq!(config.signing_key, b"key".to_vec());
    assert!(config.login_keeps_language);
    assert!(AuthConfig::from_secrets("short", b"key".to_vec(), false).is_none());
    assert!(AuthConfig::from_secrets("", Vec::new(), false).is_none());
}

#[test]
fn login_with_wrong_password_after_registration() {
    let mut store = AccountStore::new();
    let config = config();
    assert_eq!(register(&mut store, &config, "alice123", "Secret1!", 0), Ok(()));
    assert_eq!(
        login(&store, &config, "alice123", "wrong", 0, NOW),
        Err("Wrong username of password".to_string())
    );
}

#[test]
fn registration_stores_the_salted_hash() {
    let mut store = AccountStore::new();
    assert_eq!(register(&mut store, &config(), "alice123", "Secret1!", 0), Ok(()));
    assert_eq!(store.len(), 1);
    let user = get_user(&store, "alice123", 0).unwrap();
    assert_eq!(user.password, "$2b$12$HlFShUxTu4ZHHfOLJwfmCevKXQYjqOXE3ohTvIZi0xmGmQql60op2");
    assert_eq!((user.algebra, user.chemistry, user.geometry, user.physics), (0, 0, 0, 0));
}

#[test]
fn register_with_taken_username() {
    let mut store = store_with("alice123");
    assert_eq!(
        register(&mut store, &config(), "alice123", "Secret1!", 0),
        Err(vec!["Username is already registered".to_string()])
    );
    assert_eq!(store.len(), 1);
    assert_eq!(get_user(&store, "alice123", 0).unwrap().password, KNOWN_HASH);
}

#[test]
fn two_registrations_of_one_username() {
    let mut store = AccountStore::new();
    let config = config();
    let first = register(&mut store, &config, "racer", "Secret1!", 0);
    let second = register(&mut store, &config, "racer", "Secret2!", 1);
    assert_eq!(first, Ok(()));
    assert_eq!(second, Err(vec!["Юзернейм уже зарегистрирован".to_string()]));
    assert_eq!(store.len(), 1);
}

#[test]
fn rejected_registration_changes_nothing() {
    let mut store = store_with("alice123");
    assert_eq!(
        register(&mut store, &config(), "ab", "!", 0),
        Err(vec![
            "Username should be longer than 5 symbols".to_string(),
            "Password should be longer than 8 symbols".to_string(),
        ])
    );
    assert_eq!(
        register(&mut store, &config(), "alice123", "!", 0),
        Err(vec!["Password should be longer than 8 symbols".to_string()])
    );
    assert_eq!(store.len(), 1);
    assert!(get_user(&store, "ab", 0).is_err());
}

#[test]
fn login_checks_the_stored_hash() {
    let store = store_with("alice123");
    let config = config();
    assert!(login(&store, &config, "alice123", KNOWN_PASSWORD, 0, NOW).is_ok());
    assert_eq!(
        login(&store, &config, "alice123", "wrong", 0, NOW),
        Err("Wrong username of password".to_string())
    );
    assert_eq!(
        login(&store, &config, "alice123", "wrong", 1, NOW),
        Err("Неверный логин или пароль".to_string())
    );
}

#[test]
fn login_of_unknown_user() {
    let store = store_with("alice123");
    assert_eq!(
        login(&store, &config(), "bob12345", KNOWN_PASSWORD, 0, NOW),
        Err("Username is not registered".to_string())
    );
    assert_eq!(
        login(&AccountStore::new(), &config(), "alice123", KNOWN_PASSWORD, 1, NOW),
        Err("Юзернейм не зарегистрирован".to_string())
    );
}

#[test]
fn login_against_an_unreadable_hash_fails_closed() {
    let mut store = AccountStore::new();
    store.create_account("alice123", "not a hash".to_string());
    assert_eq!(
        login(&store, &config(), "alice123", "not a hash", 0, NOW),
        Err("Wrong username of password".to_string())
    );
}

#[test]
fn login_token_is_the_token_of_the_user() {
    let store = store_with("alice123");
    let config = config();
    assert_eq!(
        login(&store, &config, "alice123", KNOWN_PASSWORD, 1, NOW),
        Ok("0000f153650000000010ff536500000000616c696365313233.035cb2a30ebdcb5152be139d7f0b2cb86fc2e5b92fdf5dec9736d35e2f59a799".to_string())
    );
}

#[test]
fn login_token_language_follows_the_configuration() {
    let store = store_with("alice123");
    let mut config = config();
    let token = login(&store, &config, "alice123", KNOWN_PASSWORD, 1, NOW).unwrap();
    assert_eq!(decode_token(&config.signing_key, &token, NOW).unwrap().language_id, 0);
    config.login_keeps_language = true;
    let token = login(&store, &config, "alice123", KNOWN_PASSWORD, 1, NOW).unwrap();
    assert_eq!(decode_token(&config.signing_key, &token, NOW).unwrap().language_id, 1);
    let token = login(&store, &config, "alice123", KNOWN_PASSWORD, 0, NOW).unwrap();
    assert_eq!(decode_token(&config.signing_key, &token, NOW).unwrap().language_id, 0);
}

#[test]
fn login_on_what_a_lookup_gave() {
    let config = config();
    let found = Lookup::Found(User::new("alice123".to_string(), KNOWN_HASH.to_string()));
    assert!(login_with(&config, &found, "alice123", KNOWN_PASSWORD, 0, NOW).is_ok());
    assert_eq!(
        login_with(&config, &found, "alice123", "wrong", 0, NOW),
        Err("Wrong username of password".to_string())
    );
    assert_eq!(
        login_with(&config, &Lookup::Missing, "alice123", KNOWN_PASSWORD, 0, NOW),
        Err("Username is not registered".to_string())
    );
    assert_eq!(
        login_with(&config, &Lookup::Unavailable, "alice123", KNOWN_PASSWORD, 0, NOW),
        Err("Sorry, try again later".to_string())
    );
    assert_eq!(
        login_with(&config, &Lookup::Unavailable, "alice123", KNOWN_PASSWORD, 1, NOW),
        Err("Извините, попробуйте позже".to_string())
    );
}

#[test]
fn user_or_message_of_a_lookup() {
    let found = Lookup::Found(User::new("alice123".to_string(), "h".to_string()));
    assert_eq!(found_user(found, 0).unwrap().username, "alice123");
    assert_eq!(found_user(Lookup::Missing, 0).unwrap_err(), "Username is not registered");
    assert_eq!(found_user(Lookup::Unavailable, 0).unwrap_err(), "Sorry, try again later");
    assert_eq!(found_user(Lookup::Missing, 1).unwrap_err(), "Юзернейм не зарегистрирован");
}

#[test]
fn get_user_of_the_table() {
    let store = store_with("alice123");
    let user = get_user(&store, "alice123", 0).unwrap();
    assert_eq!(user.username, "alice123");
    assert_eq!(user.password, KNOWN_HASH);
    assert_eq!(get_user(&store, "bob12345", 0).unwrap_err(), "Username is not registered");
    assert_eq!(get_user(&store, "bob12345", 1).unwrap_err(), "Юзернейм не зарегистрирован");
}

#[test]
fn registration_steps() {
    match register_start(&SALT, "ab", "!", 0) {
        Registration::Rejected(errs) => assert_eq!(errs.len(), 2),
        Registration::Insert(_) => panic!("accepted"),
    }
    match register_start(&SALT, "alice123", "Secret1!", 0) {
        Registration::Insert(user) => {
            assert_eq!(user.username, "alice123");
            assert_eq!(
                user.password,
                "$2b$12$HlFShUxTu4ZHHfOLJwfmCevKXQYjqOXE3ohTvIZi0xmGmQql60op2"
            );
        }
        Registration::Rejected(errs) => panic!("rejected: {:?}", errs),
    }
    assert_eq!(register_finish(Creation::Created, 0), Ok(()));
    assert_eq!(
        register_finish(Creation::UsernameTaken, 0),
        Err(vec!["Username is already registered".to_string()])
    );
    assert_eq!(
        register_finish(Creation::Unavailable, 0),
        Err(vec!["Sorry, try again later".to_string()])
    );
    assert_eq!(creation_result(Creation::Created, 1), Ok(()));
    assert_eq!(
        creation_result(Creation::UsernameTaken, 1),
        Err("Юзернейм уже зарегистрирован".to_string())
    );
    assert_eq!(
        creation_result(Creation::Unavailable, 1),
        Err("Извините, попробуйте позже".to_string())
    );
}

#[test]
fn add_user_hashes_and_inserts() {
    let mut store = AccountStore::new();
    assert_eq!(add_user(&mut store, &SALT, "alice123", "Secret1!", 0), Ok(()));
    assert_eq!(
        get_user(&store, "alice123", 0).unwrap().password,
        "$2b$12$HlFShUxTu4ZHHfOLJwfmCevKXQYjqOXE3ohTvIZi0xmGmQql60op2"
    );
}

#[test]
fn add_user_with_taken_username() {
    let mut store = store_with("alice123");
    assert_eq!(
        add_user(&mut store, &SALT, "alice123", "Secret1!", 0),
        Err("Username is already registered".to_string())
    );
    assert_eq!(store.len(), 1);
    assert_eq!(get_user(&store, "alice123", 0).unwrap().password, KNOWN_HASH);
}

#[test]
fn points_and_leaderboard() {
    let mut store = store_with("alice123");
    store.create_account("bob12345", "h".to_string());
    update_user(&mut store, "bob12345", "physics");
    update_user(&mut store, "bob12345", "algebra");
    update_user(&mut store, "alice123", "geometry");
    update_user(&mut store, "alice123", "history");
    update_user(&mut store, "carol", "physics");
    let bob = get_user(&store, "bob12345", 0).unwrap();
    assert_eq!((bob.algebra, bob.chemistry, bob.geometry, bob.physics), (1, 0, 0, 1));
    let alice = get_user(&store, "alice123", 0).unwrap();
    assert_eq!((alice.algebra, alice.chemistry, alice.geometry, alice.physics), (0, 0, 1, 0));
    let top = get_top(&store, 10);
    assert_eq!(top.len(), 2);
    assert_eq!(top[0].username, "bob12345");
    assert_eq!(top[1].username, "alice123");
    assert_eq!(top[0].password, "");
    assert_eq!(top[1].password, "");
    assert_eq!(get_top(&store, 1).len(), 1);
}
