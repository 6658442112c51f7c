use vstd::prelude::*;
use vstd::utf8::{decode_utf8, valid_utf8};

verus! {

/// The outcome of every fallible step of a generation run.
pub type SdResult<T> = Result<T, ShadowError>;

/// The single fatal error of a generation run: a human-readable message.
#[derive(Debug)]
pub enum ShadowError {
    String(String),
}

/// `git2::Error`, the error of every call into the repository. Nothing inside
/// it is read here but through its text.
#[verifier::external_type_specification]
#[verifier::external_body]
pub struct ExGitError(git2::Error);

/// `std::string::FromUtf8Error`, the error of `String::from_utf8`. Nothing
/// inside it is read here but through its text.
#[verifier::external_type_specification]
#[verifier::external_body]
pub struct ExFromUtf8Error(std::string::FromUtf8Error);

/// The text that `git2::Error` shows itself as.
pub uninterp spec fn git_error_text(e: git2::Error) -> String;

/// The text that `std::string::FromUtf8Error` shows itself as.
pub uninterp spec fn utf8_error_text(e: std::string::FromUtf8Error) -> String;

/// What `String::from_utf8` returns for the bytes.
pub uninterp spec fn from_utf8_result(bytes: Seq<u8>) -> Result<
    String,
    std::string::FromUtf8Error,
>;

/// `<git2::Error as ToString>::to_string`: the text that the error's `Display`
/// writes, which is its message, followed by its class and its code where they
/// are not the generic ones. The text depends on the error alone.
#[verifier::external_body]
fn git_error_to_string(e: &git2::Error) -> (s: String)
    ensures
        s == git_error_text(*e),
{
    e.to_string()
}

/// `<FromUtf8Error as ToString>::to_string`: the text that the error's
/// `Display` writes, which says where the bytes stop being UTF-8. The text
/// depends on the error alone.
#[verifier::external_body]
fn utf8_error_to_string(e: &std::string::FromUtf8Error) -> (s: String)
    ensures
        s == utf8_error_text(*e),
{
    e.to_string()
}

/// `String::from_utf8` gives the text that the bytes encode where they are
/// valid UTF-8, and an error where they are not. The result depends on the
/// bytes alone.
pub assume_specification[ std::string::String::from_utf8 ](vec: std::vec::Vec<u8>) -> (r: Result<
    std::string::String,
    std::string::FromUtf8Error,
>)
    ensures
        r == from_utf8_result(vec@),
        r is Ok <==> valid_utf8(vec@),
        r matches Ok(s) ==> s@ == decode_utf8(vec@),
;

impl ShadowError {
    /// The message that the error carries.
    pub open spec fn message(self) -> Seq<char> {
        match self {
            ShadowError::String(s) => s@,
        }
    }

    /// The error with the given message.
    pub fn new(message: &str) -> (e: ShadowError)
        ensures
            e.message() == message@,
    {
        ShadowError::String(message.to_owned())
    }

    /// The message that the error carries.
    pub fn to_string(&self) -> (s: String)
        ensures
            s@ == self.message(),
    {
        match self {
            ShadowError::String(s) => s.clone(),
        }
    }
}

impl From<git2::Error> for ShadowError {
    fn from(e: git2::Error) -> (r: ShadowError) {
        ShadowError::String(git_error_to_string(&e))
    }
}

impl vstd::std_specs::convert::FromSpecImpl<git2::Error> for ShadowError {
    open spec fn obeys_from_spec() -> bool {
        true
    }

    open spec fn from_spec(e: git2::Error) -> ShadowError {
        ShadowError::String(git_error_text(e))
    }
}

impl From<std::string::FromUtf8Error> for ShadowError {
    fn from(e: std::string::FromUtf8Error) -> (r: ShadowError) {
        ShadowError::String(utf8_error_to_string(&e))
    }
}

impl vstd::std_specs::convert::FromSpecImpl<std::string::FromUtf8Error> for ShadowError {
    open spec fn obeys_from_spec() -> bool {
        true
    }

    open spec fn from_spec(e: std::string::FromUtf8Error) -> ShadowError {
        ShadowError::String(utf8_error_text(e))
    }
}

/// What decoding the bytes gives: the text that they encode, or the message of
/// the conversion error.
pub open spec fn decoded(bytes: Seq<u8>) -> Result<Seq<char>, Seq<char>> {
    if valid_utf8(bytes) {
        Ok(decode_utf8(bytes))
    } else {
        Err(utf8_error_text(from_utf8_result(bytes)->Err_0)@)
    }
}

/// Reads bytes as UTF-8 text; bytes that are no UTF-8 give a conversion error.
pub fn decode_text(bytes: Vec<u8>) -> (r: SdResult<String>)
    ensures
        r is Ok <==> valid_utf8(bytes@),
        r matches Ok(s) ==> decoded(bytes@) == Ok::<Seq<char>, Seq<char>>(s@),
        r matches Err(e) ==> decoded(bytes@) == Err::<Seq<char>, Seq<char>>(e.message()),
{
    match String::from_utf8(bytes) {
        Ok(s) => Ok(s),
        Err(e) => Err(ShadowError::from(e)),
    }
}

} // verus!
