use vstd::prelude::*;

verus! {

/// `regex::Regex`, a compiled pattern, carried opaquely.
#[verifier::external_type_specification]
#[verifier::external_body]
pub struct ExRegex(regex::Regex);

/// `regex::Error`, why a pattern could not be compiled, carried opaquely.
#[verifier::external_type_specification]
#[verifier::external_body]
pub struct ExRegexError(regex::Error);

/// The shape an entered address must have: word characters and dots, an
/// `@`, dot-terminated words, and a final part of two to four characters.
pub const EMAIL_PATTERN: &'static str = r"^[\w\.]+@([\w]+\.)+[\w-]{2,4}$";

/// Whether the address pattern matches the whole of `s`.
pub uninterp spec fn matches_email_pattern(s: Seq<char>) -> bool;

/// Whether the regex engine compiles `p` with its default settings.
pub uninterp spec fn pattern_compiles(p: Seq<char>) -> bool;

/// Relies on `regex::Regex::new`: compiles a pattern, or reports why it
/// cannot be compiled. Whether it succeeds depends on the pattern alone.
#[verifier::external_body]
fn compile(pattern: &str) -> (r: Result<regex::Regex, regex::Error>)
    ensures
        r is Ok <==> pattern_compiles(pattern@),
{
    regex::Regex::new(pattern)
}

/// The address pattern, compiled.
pub struct EmailPattern {
    re: regex::Regex,
}

impl EmailPattern {
    /// Compiles the address pattern; `None` if the regex engine refuses it.
    pub fn new() -> (r: Option<EmailPattern>)
        ensures
            r is Some <==> pattern_compiles(EMAIL_PATTERN@),
    {
        match compile(EMAIL_PATTERN) {
            Ok(re) => Some(EmailPattern { re }),
            Err(_) => None,
        }
    }

    /// Relies on `regex::Regex::is_match`. The field is only ever compiled
    /// from `EMAIL_PATTERN`, so the answer depends on the text alone.
    #[verifier::external_body]
    fn is_match(&self, value: &str) -> (r: bool)
        ensures
            r == matches_email_pattern(value@),
    {
        self.re.is_match(value)
    }

    /// Whether `value` has the shape of an address.
    pub fn accepts(&self, value: &str) -> (r: bool)
        ensures
            r == matches_email_pattern(value@),
    {
        self.is_match(value)
    }
}

/// The verdict on an entered value.
#[derive(Debug)]
pub enum Validation {
    Valid,
    /// Rejected, with the message to show.
    Invalid(String),
}

/// The message shown for a value that is not an address.
pub open spec fn not_an_email_message(value: Seq<char>) -> Seq<char> {
    value + " is not a valid email"@
}

/// The message shown when the pattern could not be compiled.
pub open spec fn broken_pattern_message() -> Seq<char> {
    "Sorry Something went wrong"@
}

/// The verdict on `value`, given whether the address pattern matched it, or
/// `None` if the pattern could not be compiled.
pub fn email_validation(value: &str, matched: Option<bool>) -> (r: Validation)
    ensures
        match matched {
            Some(true) => r is Valid,
            Some(false) => r matches Validation::Invalid(m) && m@ == not_an_email_message(value@),
            None => r matches Validation::Invalid(m) && m@ == broken_pattern_message(),
        },
{
    match matched {
        Some(true) => Validation::Valid,
        Some(false) => Validation::Invalid(String::from_str(value).concat(" is not a valid email")),
        None => Validation::Invalid(String::from_str("Sorry Something went wrong")),
    }
}

/// Checks that `value` has the shape of an address.
pub fn val(value: &str) -> (r: Validation)
    ensures
        r is Valid ==> matches_email_pattern(value@),
        r matches Validation::Invalid(m) ==> (!matches_email_pattern(value@) && m@ == not_an_email_message(
            value@,
        )) || m@ == broken_pattern_message(),
        !matches_email_pattern(value@) ==> r is Invalid,
        pattern_compiles(EMAIL_PATTERN@) ==> (r is Valid <==> matches_email_pattern(value@)),
        !pattern_compiles(EMAIL_PATTERN@) ==> (r matches Validation::Invalid(m) && m@
            == broken_pattern_message()),
{
    match EmailPattern::new() {
        Some(pattern) => {
            let matched = pattern.accepts(value);
            email_validation(value, Some(matched))
        },
        None => email_validation(value, None),
    }
}

} // verus!
