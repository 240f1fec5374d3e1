//! The failures of a synchronisation, and how each is worded.

use crate::text::{decimal, decimal_string, followed_by};
use vstd::prelude::*;

verus! {

/// Why the synchronisation of one package stopped.
///
/// What the network or the file system reported is kept as the text of that
/// report: the library passes it on and never looks inside.
#[derive(Debug, Clone, PartialEq, Eq)]
pub enum ErrorKind {
    /// The release service answered with a status other than success.
    GithubAPI(u16, String),
    /// The request never got an answer.
    Network(String),
    /// The local file system refused an operation.
    IO(String),
    /// The archive is damaged or holds what cannot be unpacked.
    Zip(String),
    /// No asset of the release ends with the suffix of the package.
    NoMatchingPattern(String),
    /// The archive's extension names no format that can be unpacked.
    UnsupportedFormat(String),
}

/// An `ErrorKind` with its texts as character sequences.
pub enum ErrorView {
    GithubAPI(u16, Seq<char>),
    Network(Seq<char>),
    IO(Seq<char>),
    Zip(Seq<char>),
    NoMatchingPattern(Seq<char>),
    UnsupportedFormat(Seq<char>),
}

impl View for ErrorKind {
    type V = ErrorView;

    open spec fn view(&self) -> ErrorView {
        match self {
            ErrorKind::GithubAPI(status, message) => ErrorView::GithubAPI(*status, message@),
            ErrorKind::Network(detail) => ErrorView::Network(detail@),
            ErrorKind::IO(detail) => ErrorView::IO(detail@),
            ErrorKind::Zip(detail) => ErrorView::Zip(detail@),
            ErrorKind::NoMatchingPattern(suffix) => ErrorView::NoMatchingPattern(suffix@),
            ErrorKind::UnsupportedFormat(extension) => ErrorView::UnsupportedFormat(extension@),
        }
    }
}

/// The line that reports `error` to the user.
pub open spec fn message_of(error: ErrorView) -> Seq<char> {
    match error {
        ErrorView::GithubAPI(status, message) => "Github API Error("@ + decimal(status as nat)
            + "): "@ + message,
        ErrorView::Network(detail) => "Network Error: "@ + detail,
        ErrorView::IO(detail) => detail,
        ErrorView::Zip(detail) => detail,
        ErrorView::NoMatchingPattern(suffix) => "Pattern Not Found '"@ + suffix + "'"@,
        ErrorView::UnsupportedFormat(extension) => "Unsupported Archive Format '"@ + extension
            + "'"@,
    }
}

/// What a JSON document holds under a key.
#[derive(Debug, Clone, PartialEq, Eq)]
pub enum Member {
    /// Nothing: the document is no object, has no such member, or holds
    /// `null` there.
    Null,
    /// A string, with its own text: no quotes around it, no escapes in it.
    Text(String),
    /// Anything else, a number, a truth value, an array or an object,
    /// written as compact JSON.
    Other(String),
}

/// A `Member` with its texts as character sequences.
pub enum MemberView {
    Null,
    Text(Seq<char>),
    Other(Seq<char>),
}

impl View for Member {
    type V = MemberView;

    open spec fn view(&self) -> MemberView {
        match self {
            Member::Null => MemberView::Null,
            Member::Text(text) => MemberView::Text(text@),
            Member::Other(json) => MemberView::Other(json@),
        }
    }
}

/// What was found, by its view; nothing where nothing was found.
pub open spec fn found_view(found: Option<Member>) -> Option<MemberView> {
    match found {
        Some(member) => Some(member@),
        None => None,
    }
}

/// What the JSON document `body` holds under `key`; `None` where `body` is
/// not accepted as a JSON document. The value is whatever the JSON reader
/// makes of the bytes: nothing is stated of it here but that the same bytes
/// and key always give the same answer.
pub uninterp spec fn json_member_of(body: Seq<u8>, key: Seq<char>) -> Option<MemberView>;

/// Parses `body` with `serde_json::from_slice` into a `serde_json::Value`
/// and indexes the value with `key`, which gives the null value where the
/// document is no object or has no such member. The variants of what is
/// found are told apart: null, a string, whose text is taken as it is, and
/// the rest, which the value's `Display` renders as `to_string` does.
/// Nothing is proved of these calls: the contract only gives the outcome its
/// name, `json_member_of`, a function of the bytes and the key. A parse error
/// becomes `None`.
#[verifier::external_body]
fn json_member(body: &[u8], key: &str) -> (found: Option<Member>)
    ensures
        found_view(found) == json_member_of(body@, key@),
{
    match serde_json::from_slice::<serde_json::Value>(body) {
        Ok(document) => Some(
            match &document[key] {
                serde_json::Value::Null => Member::Null,
                serde_json::Value::String(text) => Member::Text(text.clone()),
                other @ (serde_json::Value::Bool(_)
                | serde_json::Value::Number(_)
                | serde_json::Value::Array(_)
                | serde_json::Value::Object(_)) => Member::Other(other.to_string()),
            },
        ),
        Err(_) => None,
    }
}

/// The words that explain a rejection, taken from what its body holds
/// under `message`: the text of a string, the JSON of anything else that is
/// there, and no words at all where the body is no JSON document or holds
/// nothing there.
pub open spec fn explanation(found: Option<MemberView>) -> Seq<char> {
    match found {
        Some(MemberView::Text(text)) => text,
        Some(MemberView::Other(json)) => json,
        _ => Seq::empty(),
    }
}

impl ErrorKind {
    /// The rejection of a request with `status`, explained by `message`.
    pub fn api_error(status: u16, message: String) -> (error: ErrorKind)
        ensures
            error == ErrorKind::GithubAPI(status, message),
    {
        ErrorKind::GithubAPI(status, message)
    }

    /// The rejection of a request with `status`, explained by what the body
    /// of the answer holds under `message`. Whatever was found there, and
    /// also where the body could not be read as JSON, the outcome is the
    /// rejection with its status.
    pub fn rejected(status: u16, found: Option<Member>) -> (error: ErrorKind)
        ensures
            error@ == ErrorView::GithubAPI(status, explanation(found_view(found))),
    {
        let message = match found {
            Some(Member::Text(text)) => text,
            Some(Member::Other(json)) => json,
            _ => String::new(),
        };
        ErrorKind::api_error(status, message)
    }

    /// The rejection that the release service explained in `body`. The
    /// status is kept whatever the body is; the message is the text of the
    /// body's member `message`, and empty where there is none to be had.
    pub fn from_status(status: u16, body: &[u8]) -> (error: ErrorKind)
        ensures
            error@ == ErrorView::GithubAPI(
                status,
                explanation(json_member_of(body@, "message"@)),
            ),
    {
        ErrorKind::rejected(status, json_member(body, "message"))
    }

    /// The failure of unpacking an archive, put into words as `detail`: a
    /// failure of the file system where the operating system reported it,
    /// else a failure of the archive, whose data could not be read.
    pub fn unpack_failure(from_system: bool, detail: String) -> (error: ErrorKind)
        ensures
            error == if from_system {
                ErrorKind::IO(detail)
            } else {
                ErrorKind::Zip(detail)
            },
    {
        if from_system {
            ErrorKind::IO(detail)
        } else {
            ErrorKind::Zip(detail)
        }
    }

    /// The line that reports this failure to the user.
    pub fn message(&self) -> (line: String)
        ensures
            line@ == message_of(self@),
    {
        match self {
            ErrorKind::GithubAPI(status, message) => {
                let status = decimal_string(*status as u64);
                let mut line = followed_by("Github API Error(", status.as_str());
                line.append("): ");
                line.append(message.as_str());
                line
            },
            ErrorKind::Network(detail) => followed_by("Network Error: ", detail.as_str()),
            ErrorKind::IO(detail) => detail.clone(),
            ErrorKind::Zip(detail) => detail.clone(),
            ErrorKind::NoMatchingPattern(suffix) => {
                let mut line = followed_by("Pattern Not Found '", suffix.as_str());
                line.append("'");
                line
            },
            ErrorKind::UnsupportedFormat(extension) => {
                let mut line = followed_by("Unsupported Archive Format '", extension.as_str());
                line.append("'");
                line
            },
        }
    }
}

} // verus!
