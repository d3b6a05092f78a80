//! Validation of a submitted message: sanitize both fields, then check the
//! name against the allowed characters, the body's length, and the presence
//! of a human-verification token.

use vstd::prelude::*;
use crate::text::{contains, forbidden_patterns, has_char, is_clean, is_forbidden_char, occurs_at,
    sanitize_text, sanitized, lemma_clean_unchanged, lemma_sanitize_keeps_char};

verus! {

/// The pattern an author's name must match after sanitization.
pub const NAME_PATTERN: &'static str = "^[a-zA-ZáéíóúÁÉÍÓÚñÑ\\s]{3,50}$";

/// Fewest characters in a name.
pub const NAME_MIN: usize = 3;
/// Most characters in a name.
pub const NAME_MAX: usize = 50;
/// Fewest characters in a message body.
pub const BODY_MIN: usize = 10;
/// Most characters in a message body.
pub const BODY_MAX: usize = 500;

/// Unicode white space, as the `White_Space` property lists it.
pub open spec fn is_white_space(c: char) -> bool {
    ||| ('\t' <= c && c <= '\r')
    ||| c == ' '
    ||| c == '\u{85}'
    ||| c == '\u{a0}'
    ||| c == '\u{1680}'
    ||| ('\u{2000}' <= c && c <= '\u{200a}')
    ||| c == '\u{2028}'
    ||| c == '\u{2029}'
    ||| c == '\u{202f}'
    ||| c == '\u{205f}'
    ||| c == '\u{3000}'
}

/// A character allowed in a name: a basic Latin letter, an accented vowel or
/// ñ in either case, or white space.
pub open spec fn is_name_char(c: char) -> bool {
    ||| ('a' <= c && c <= 'z')
    ||| ('A' <= c && c <= 'Z')
    ||| c == 'á' || c == 'é' || c == 'í' || c == 'ó' || c == 'ú'
    ||| c == 'Á' || c == 'É' || c == 'Í' || c == 'Ó' || c == 'Ú'
    ||| c == 'ñ' || c == 'Ñ'
    ||| is_white_space(c)
}

/// `s` is an acceptable name: 3 to 50 characters, each allowed in a name.
pub open spec fn name_allowed(s: Seq<char>) -> bool {
    &&& NAME_MIN <= s.len() <= NAME_MAX
    &&& forall|i: int| 0 <= i < s.len() ==> is_name_char(#[trigger] s[i])
}

/// `s` is an acceptable message body: 10 to 500 characters.
pub open spec fn body_allowed(s: Seq<char>) -> bool {
    BODY_MIN <= s.len() <= BODY_MAX
}

/// Relies on regex's `Regex::new` and `Regex::is_match`: the name pattern,
/// anchored at both ends, matches exactly the texts of 3 to 50 characters
/// drawn from its class (`\s` being Unicode white space).
#[verifier::external_body]
fn pattern_matches(pattern: &str, text: &str) -> (r: bool)
    requires
        pattern@ == NAME_PATTERN@,
    ensures
        r == name_allowed(text@),
{
    regex::Regex::new(pattern).map_or(false, |re| re.is_match(text))
}

/// Which field of a submission failed, and why.
#[derive(Debug, Clone, Copy, PartialEq, Eq, Structural)]
pub enum ValidationError {
    InvalidName,
    InvalidBody,
    MissingVerification,
}

/// The first check that a submission fails, if any: the sanitized name, then
/// the sanitized body, then the token (checked only when `token` is given).
pub open spec fn submission_error(
    name: Seq<char>,
    body: Seq<char>,
    token: Option<Seq<char>>,
) -> Option<ValidationError> {
    if !name_allowed(sanitized(name)) {
        Some(ValidationError::InvalidName)
    } else if !body_allowed(sanitized(body)) {
        Some(ValidationError::InvalidBody)
    } else if token is Some && token->Some_0.len() == 0 {
        Some(ValidationError::MissingVerification)
    } else {
        None
    }
}

/// A message's fields, sanitized and validated, ready to be stored.
pub struct MessageDraft {
    pub author_name: String,
    pub body: String,
}

/// Sanitizes both fields and checks them, the name first.
fn check_fields(author_name: String, body: String) -> (r: Result<MessageDraft, ValidationError>)
    ensures
        r is Ok <==> submission_error(author_name@, body@, None) is None,
        r is Err ==> Some(r->Err_0) == submission_error(author_name@, body@, None),
        r is Ok ==> r->Ok_0.author_name@ == sanitized(author_name@) && r->Ok_0.body@ == sanitized(body@),
{
    let mut name = author_name;
    let mut text = body;
    sanitize_text(&mut name);
    sanitize_text(&mut text);
    if !pattern_matches(NAME_PATTERN, name.as_str()) {
        return Err(ValidationError::InvalidName);
    }
    let len = text.as_str().unicode_len();
    if len < BODY_MIN || len > BODY_MAX {
        return Err(ValidationError::InvalidBody);
    }
    Ok(MessageDraft { author_name: name, body: text })
}

/// Validates a new public submission: sanitized name, sanitized body, and a
/// non-empty human-verification token, checked in that order.
pub fn validate_submission(author_name: String, body: String, verification_token: &str) -> (r: Result<
    MessageDraft,
    ValidationError,
>)
    ensures
        r is Ok <==> submission_error(author_name@, body@, Some(verification_token@)) is None,
        r is Err ==> Some(r->Err_0) == submission_error(author_name@, body@, Some(verification_token@)),
        r is Ok ==> r->Ok_0.author_name@ == sanitized(author_name@) && r->Ok_0.body@ == sanitized(body@),
{
    let draft = check_fields(author_name, body)?;
    if verification_token.is_empty() {
        return Err(ValidationError::MissingVerification);
    }
    Ok(draft)
}

/// Validates an edit of a stored message: sanitized name, then sanitized body.
pub fn validate_update(author_name: String, body: String) -> (r: Result<MessageDraft, ValidationError>)
    ensures
        r is Ok <==> submission_error(author_name@, body@, None) is None,
        r is Err ==> Some(r->Err_0) == submission_error(author_name@, body@, None),
        r is Ok ==> r->Ok_0.author_name@ == sanitized(author_name@) && r->Ok_0.body@ == sanitized(body@),
{
    check_fields(author_name, body)
}

/// The one forbidden substring spelled with name characters alone.
pub open spec fn script_word() -> Seq<char> {
    seq!['s', 'c', 'r', 'i', 'p', 't']
}

proof fn lemma_name_chars_clean(s: Seq<char>)
    requires
        forall|i: int| 0 <= i < s.len() ==> is_name_char(#[trigger] s[i]),
        !contains(s, script_word()),
    ensures
        is_clean(s),
{
    assert(forbidden_patterns()[6] == script_word());
    assert forall|k: int| 0 <= k < forbidden_patterns().len() implies !contains(
        s,
        #[trigger] forbidden_patterns()[k],
    ) by {
        if k < 6 {
            let p = forbidden_patterns()[k];
            if contains(s, p) {
                let i = choose|i: int| occurs_at(s, p, i);
                assert(s.subrange(i, i + p.len())[0] == s[i]);
                assert(is_name_char(s[i]));
            }
        }
    }
}

/// A name of 3 to 50 allowed characters that does not hold "script" comes
/// out of sanitization unchanged and passes the name check.
pub proof fn lemma_allowed_name_passes(s: Seq<char>)
    requires
        name_allowed(s),
        !contains(s, script_word()),
    ensures
        sanitized(s) == s,
        name_allowed(sanitized(s)),
{
    lemma_name_chars_clean(s);
    lemma_clean_unchanged(s);
}

/// A name of 2 or of 51 allowed characters that does not hold "script"
/// fails the name check.
pub proof fn lemma_name_length_bounds(s: Seq<char>)
    requires
        forall|i: int| 0 <= i < s.len() ==> is_name_char(#[trigger] s[i]),
        !contains(s, script_word()),
        s.len() == 2 || s.len() == 51,
    ensures
        !name_allowed(sanitized(s)),
{
    lemma_name_chars_clean(s);
    lemma_clean_unchanged(s);
}

/// A name that holds a digit fails the name check, whatever else it holds.
pub proof fn lemma_name_with_digit_fails(s: Seq<char>, i: int)
    requires
        0 <= i < s.len(),
        '0' <= s[i] && s[i] <= '9',
    ensures
        !name_allowed(sanitized(s)),
{
    let c = s[i];
    assert(has_char(s, c));
    assert(!is_forbidden_char(c)) by {
        assert forall|k: int| 0 <= k < forbidden_patterns().len() implies !#[trigger] has_char(
            forbidden_patterns()[k],
            c,
        ) by {
            let p = forbidden_patterns()[k];
            assert forall|j: int| 0 <= j < p.len() implies p[j] != c by {
                assert(!('0' <= p[j] && p[j] <= '9'));
            }
        }
    }
    lemma_sanitize_keeps_char(s, c);
    let t = sanitized(s);
    let j = choose|j: int| 0 <= j < t.len() && t[j] == c;
    assert(!is_name_char(t[j]));
}

/// For a body free of forbidden substrings the body check passes exactly
/// when it has 10 to 500 characters, both bounds included.
pub proof fn lemma_body_bounds(b: Seq<char>)
    requires
        is_clean(b),
    ensures
        body_allowed(sanitized(b)) <==> BODY_MIN <= b.len() <= BODY_MAX,
{
    lemma_clean_unchanged(b);
}

} // verus!
