use quiz_auth::validation::{all_alphanumeric, all_password_chars, password_char, validate};

const USERNAME_SHORT: &str = "Username should be longer than 5 symbols";
const PASSWORD_SHORT: &str = "Password should be longer than 8 symbols";
const PASSWORD_LONG: &str = "Password should be shorter than 30 symbols";
const USERNAME_LONG: &str = "Username should be shorter than 15 symbols";
const USERNAME_CONT: &str = "Username should consist only from alphanumeric symbols";
const PASSWORD_CONT: &str =
    "Password should consist only from alphanumeric symbols + !@#$%^&*()_+=-?><";

fn messages(username: &str, password: &str) -> Vec<String> {
    match validate(username, password, 0) {
        Ok(()) => Vec::new(),
        Err(errs) => errs,
    }
}

#[test]
fn short_username_and_password_give_two_messages() {
    let errs = validate("ab", "!", 0).unwrap_err();
    assert_eq!(errs, vec![USERNAME_SHORT.to_string(), PASSWORD_SHORT.to_string()]);
    assert_ne!(errs[0], errs[1]);
}

#[test]
fn valid_credentials_pass() {
    assert_eq!(validate("alice123", "Secret1!", 0), Ok(()));
    assert_eq!(validate("alice123", "Secret1!", 1), Ok(()));
}

#[test]
fn every_broken_rule_is_reported_in_order() {
    assert_eq!(
        messages("a b", "p w"),
        vec![USERNAME_SHORT, PASSWORD_SHORT, USERNAME_CONT, PASSWORD_CONT]
    );
    assert_eq!(
        messages("aaaaaaaaaaaaaaa!", "pppppppppppppppppppppppppppppp~"),
        vec![PASSWORD_LONG, USERNAME_LONG, USERNAME_CONT, PASSWORD_CONT]
    );
}

#[test]
fn username_length_limits() {
    assert_eq!(messages("abcd", "Secret1!"), vec![USERNAME_SHORT]);
    assert!(messages("abcde", "Secret1!").is_empty());
    assert!(messages("abcdefghijklmno", "Secret1!").is_empty());
    assert_eq!(messages("abcdefghijklmnop", "Secret1!"), vec![USERNAME_LONG]);
    assert_eq!(messages("", "Secret1!"), vec![USERNAME_SHORT]);
}

#[test]
fn password_length_limits() {
    assert_eq!(messages("alice123", "1234567"), vec![PASSWORD_SHORT]);
    assert!(messages("alice123", "12345678").is_empty());
    assert!(messages("alice123", "123456789012345678901234567890").is_empty());
    assert_eq!(messages("alice123", "1234567890123456789012345678901"), vec![PASSWORD_LONG]);
    assert_eq!(messages("alice123", ""), vec![PASSWORD_SHORT]);
}

#[test]
fn lengths_are_counted_in_bytes() {
    assert!(messages("привет", "Secret1!").is_empty());
    assert_eq!(messages("при", "Secret1!"), Vec::<String>::new());
    assert_eq!(messages("пр", "Secret1!"), vec![USERNAME_SHORT]);
    assert_eq!(messages("приветик", "Secret1!"), vec![USERNAME_LONG]);
    assert_eq!(messages("alice123", "пароль"), Vec::<String>::new());
}

#[test]
fn username_takes_letters_and_digits_only() {
    assert_eq!(messages("alice_123", "Secret1!"), vec![USERNAME_CONT]);
    assert_eq!(messages("alice 123", "Secret1!"), vec![USERNAME_CONT]);
    assert_eq!(messages("alice!", "Secret1!"), vec![USERNAME_CONT]);
    assert!(messages("Alice123", "Secret1!").is_empty());
}

#[test]
fn password_takes_letters_digits_and_the_listed_punctuation() {
    assert!(messages("alice123", "!@#$%^&*()_+=-?><").is_empty());
    assert_eq!(messages("alice123", "Secret 1!"), vec![PASSWORD_CONT]);
    assert_eq!(messages("alice123", "Secret1!~"), vec![PASSWORD_CONT]);
    assert_eq!(messages("alice123", "Secret1!."), vec![PASSWORD_CONT]);
    assert_eq!(messages("alice123", "Secret1;;"), vec![PASSWORD_CONT]);
}

#[test]
fn messages_come_in_the_language_asked_for() {
    assert_eq!(
        validate("ab", "!", 1).unwrap_err(),
        vec![
            "Юзернейм должен быть длинее 5-и символов".to_string(),
            "Пароль должен быть длинее 8-и символов".to_string(),
        ]
    );
}

#[test]
fn character_checks() {
    assert!(all_alphanumeric("abcXYZ019"));
    assert!(all_alphanumeric(""));
    assert!(all_alphanumeric("жук7"));
    assert!(!all_alphanumeric("abc-"));
    assert!(all_password_chars("abc-"));
    assert!(!all_password_chars("abc,"));
    for c in "!@#$%^&*()_+=-?><aZ5".chars() {
        assert!(password_char(c));
    }
    for c in " ~.,;:'\"[]{}|\\/`".chars() {
        assert!(!password_char(c));
    }
}
