//! The error type shared by every part of the library.

use vstd::prelude::*;

verus! {

/// `std::io::Error` travels through the library unchanged inside
/// [`RamzError::Io`]; nothing in the library looks inside it.
#[verifier::external_type_specification]
#[verifier::external_body]
pub struct ExIoError(std::io::Error);

/// Everything that can go wrong while packing, verifying or extracting.
/// Paths are carried as their textual form.
#[derive(Debug)]
pub enum RamzError {
    PathNotFound(String),
    EmptySource(String),
    ArchiveExists(String),
    PasswordMismatch,
    EmptyPassword,
    Backend(String),
    VerificationFailed(String),
    ResumeMismatch(String),
    DryRunAborted,
    IncompatibleFlag(String),
    SecureDelete(String),
    Io(std::io::Error),
}

/// The display text of an error that carries no I/O error.
pub open spec fn message_of(e: RamzError) -> Seq<char> {
    match e {
        RamzError::PathNotFound(p) => "path not found: "@ + p@,
        RamzError::EmptySource(p) => "source is empty: "@ + p@,
        RamzError::ArchiveExists(p) => "archive already exists: "@ + p@,
        RamzError::PasswordMismatch => "passwords do not match"@,
        RamzError::EmptyPassword => "empty password not allowed"@,
        RamzError::Backend(m) => "backend engine error: "@ + m@,
        RamzError::VerificationFailed(m) => "integrity verification failed: "@ + m@,
        RamzError::ResumeMismatch(m) => "resume state mismatch: "@ + m@,
        RamzError::DryRunAborted => "dry run aborted"@,
        RamzError::IncompatibleFlag(m) => "incompatible backend flag: "@ + m@,
        RamzError::SecureDelete(m) => "secure delete failed: "@ + m@,
        RamzError::Io(_) => Seq::empty(),
    }
}

/// The display text of an I/O error (`<std::io::Error as Display>::fmt`).
/// Nothing is claimed: the text comes from the operating system.
#[verifier::external_body]
fn io_error_text(e: &std::io::Error) -> String {
    e.to_string()
}

fn prefixed(prefix: &str, rest: &str) -> (m: String)
    ensures
        m@ == prefix@ + rest@,
{
    let mut m = String::new();
    m.append(prefix);
    m.append(rest);
    m
}

impl RamzError {
    /// The human-readable text of the error; an I/O error shows the text of
    /// the underlying I/O error.
    pub fn message(&self) -> (m: String)
        ensures
            !(*self is Io) ==> m@ == message_of(*self),
    {
        proof {
            reveal_strlit("path not found: ");
            reveal_strlit("source is empty: ");
            reveal_strlit("archive already exists: ");
            reveal_strlit("passwords do not match");
            reveal_strlit("empty password not allowed");
            reveal_strlit("backend engine error: ");
            reveal_strlit("integrity verification failed: ");
            reveal_strlit("resume state mismatch: ");
            reveal_strlit("dry run aborted");
            reveal_strlit("incompatible backend flag: ");
            reveal_strlit("secure delete failed: ");
        }
        match self {
            RamzError::PathNotFound(p) => prefixed("path not found: ", p.as_str()),
            RamzError::EmptySource(p) => prefixed("source is empty: ", p.as_str()),
            RamzError::ArchiveExists(p) => prefixed("archive already exists: ", p.as_str()),
            RamzError::PasswordMismatch => "passwords do not match".to_owned(),
            RamzError::EmptyPassword => "empty password not allowed".to_owned(),
            RamzError::Backend(m) => prefixed("backend engine error: ", m.as_str()),
            RamzError::VerificationFailed(m) => prefixed("integrity verification failed: ", m.as_str()),
            RamzError::ResumeMismatch(m) => prefixed("resume state mismatch: ", m.as_str()),
            RamzError::DryRunAborted => "dry run aborted".to_owned(),
            RamzError::IncompatibleFlag(m) => prefixed("incompatible backend flag: ", m.as_str()),
            RamzError::SecureDelete(m) => prefixed("secure delete failed: ", m.as_str()),
            RamzError::Io(e) => io_error_text(e),
        }
    }
}

/// An I/O error is carried as it is.
impl From<std::io::Error> for RamzError {
    fn from(e: std::io::Error) -> (r: RamzError) {
        RamzError::Io(e)
    }
}

impl vstd::std_specs::convert::FromSpecImpl<std::io::Error> for RamzError {
    open spec fn obeys_from_spec() -> bool {
        true
    }

    open spec fn from_spec(v: std::io::Error) -> RamzError {
        RamzError::Io(v)
    }
}

/// `r` failed with a backend error whose message is exactly `msg`.
pub open spec fn is_backend_error<T>(r: Result<T, RamzError>, msg: Seq<char>) -> bool {
    r matches Err(RamzError::Backend(m)) && m@ == msg
}

/// `r` failed with a backend error whose message starts with `prefix`.
pub open spec fn is_backend_error_with_prefix<T>(r: Result<T, RamzError>, prefix: Seq<char>) -> bool {
    r matches Err(RamzError::Backend(m)) && prefix.len() <= m@.len() && m@.take(
        prefix.len() as int,
    ) == prefix
}

/// Builds a backend error whose message is `prefix` followed by `detail`.
pub fn backend_error(prefix: &str, detail: &str) -> (e: RamzError)
    ensures
        e matches RamzError::Backend(m) && m@ == prefix@ + detail@,
{
    let mut m = String::new();
    m.append(prefix);
    m.append(detail);
    RamzError::Backend(m)
}

/// Builds a backend error whose message is exactly `msg`.
pub fn backend_message(msg: &str) -> (e: RamzError)
    ensures
        e matches RamzError::Backend(m) && m@ == msg@,
{
    RamzError::Backend(msg.to_owned())
}

} // verus!
