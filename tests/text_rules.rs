use guestbook::text::sanitize_text;
use guestbook::validate::{validate_submission, validate_update, ValidationError};

fn sanitized(s: &str) -> String {
    let mut t = s.to_string();
    sanitize_text(&mut t);
    t
}

#[test]
fn nested_markup_sanitizes_to_empty() {
    assert_eq!(sanitized("<<script>>"), "");
}

#[test]
fn sanitize_strips_each_forbidden_substring() {
    assert_eq!(sanitized("a<b>c\"d'e;f--g"), "abcdefg");
    assert_eq!(sanitized("postscript"), "post");
    assert_eq!(sanitized("Hola, ¿qué tal?"), "Hola, ¿qué tal?");
}

#[test]
fn sanitize_repeats_until_nothing_is_left() {
    assert_eq!(sanitized("scrscriptipt"), "");
    assert_eq!(sanitized("-script-"), "");
    assert_eq!(sanitized("scr<ipt"), "");
    assert_eq!(sanitized("---"), "-");
}

#[test]
fn sanitize_twice_changes_nothing_more() {
    for s in ["<<script>>", "a--b;c", "x-<->y", "plain text", "ss<cript>t"] {
        let once = sanitized(s);
        assert_eq!(sanitized(&once), once);
        for f in ["<", ">", "\"", "'", ";", "--", "script"] {
            assert!(!once.contains(f));
        }
    }
}

fn check_name(name: &str) -> Result<(), ValidationError> {
    validate_submission(name.to_string(), "un mensaje valido".to_string(), "token").map(|_| ())
}

#[test]
fn name_length_bounds() {
    assert_eq!(check_name("Al"), Err(ValidationError::InvalidName));
    assert_eq!(check_name("Ana"), Ok(()));
    assert_eq!(check_name(&"a".repeat(50)), Ok(()));
    assert_eq!(check_name(&"a".repeat(51)), Err(ValidationError::InvalidName));
}

#[test]
fn name_characters() {
    assert_eq!(check_name("José Núñez"), Ok(()));
    assert_eq!(check_name("ÁÉÍÓÚ áéíóú Ññ"), Ok(()));
    assert_eq!(check_name("Ana\tMaría"), Ok(()));
    assert_eq!(check_name("Ana2"), Err(ValidationError::InvalidName));
    assert_eq!(check_name("Ana!"), Err(ValidationError::InvalidName));
    assert_eq!(check_name("Ana 🙂"), Err(ValidationError::InvalidName));
    assert_eq!(check_name("Anaü"), Err(ValidationError::InvalidName));
}

#[test]
fn name_is_checked_after_sanitizing() {
    assert_eq!(check_name("script"), Err(ValidationError::InvalidName));
    assert_eq!(check_name("<Ana>"), Ok(()));
    let draft = validate_submission("<b>Luis<b>".to_string(), "hola a todos".to_string(), "t").unwrap();
    assert_eq!(draft.author_name, "bLuisb");
    assert_eq!(check_name("<b>Luis</b>"), Err(ValidationError::InvalidName));
}

fn check_body(body: &str) -> Result<(), ValidationError> {
    validate_submission("Ana".to_string(), body.to_string(), "token").map(|_| ())
}

#[test]
fn body_length_bounds() {
    assert_eq!(check_body(&"x".repeat(9)), Err(ValidationError::InvalidBody));
    assert_eq!(check_body(&"x".repeat(10)), Ok(()));
    assert_eq!(check_body(&"x".repeat(500)), Ok(()));
    assert_eq!(check_body(&"x".repeat(501)), Err(ValidationError::InvalidBody));
}

#[test]
fn body_counts_characters_not_bytes() {
    assert_eq!(check_body(&"ñ".repeat(10)), Ok(()));
    assert_eq!(check_body(&"ñ".repeat(500)), Ok(()));
}

#[test]
fn body_is_measured_after_sanitizing() {
    assert_eq!(check_body("<<<<<<<<<<hola"), Err(ValidationError::InvalidBody));
    let draft = validate_submission("Ana".to_string(), "hola; mundo <3".to_string(), "t").unwrap();
    assert_eq!(draft.body, "hola mundo 3");
}

#[test]
fn verification_token_must_be_present() {
    let r = validate_submission("Ana".to_string(), "hola a todos".to_string(), "");
    assert_eq!(r.err(), Some(ValidationError::MissingVerification));
}

#[test]
fn checks_come_in_order() {
    let r = validate_submission("A1".to_string(), "corto".to_string(), "");
    assert_eq!(r.err(), Some(ValidationError::InvalidName));
    let r = validate_submission("Ana".to_string(), "corto".to_string(), "");
    assert_eq!(r.err(), Some(ValidationError::InvalidBody));
}

#[test]
fn update_needs_no_token() {
    let draft = validate_update("Ana María".to_string(), "mensaje editado".to_string()).unwrap();
    assert_eq!(draft.author_name, "Ana María");
    assert_eq!(draft.body, "mensaje editado");
    assert_eq!(validate_update("A".to_string(), "mensaje editado".to_string()).err(), Some(ValidationError::InvalidName));
    assert_eq!(validate_update("Ana".to_string(), "corto".to_string()).err(), Some(ValidationError::InvalidBody));
}
