//! Classification of a finished run of the assistant: its answer on success,
//! the quota signal or the raw error stream on failure.

use vstd::prelude::*;
use vstd::string::*;
use crate::json::{Json, json_view, json_parse, parse_document, element_at, member_of, integer_of, text_of};
use crate::text::{has_substring, contains_text};

verus! {

/// What a run of the assistant left behind, both streams decoded to text.
#[derive(Debug, Clone, PartialEq, Eq)]
pub struct Outcome {
    pub success: bool,
    pub stdout: String,
    pub stderr: String,
}

/// Why a prompt got no answer.
#[derive(Debug, Clone, PartialEq, Eq)]
pub enum ClassifiedError {
    /// The assistant reported that its quota is used up.
    QuotaExceeded,
    /// The operating system could not start the assistant.
    LaunchFailed(String),
    /// The assistant ended with a failure; its error stream, unchanged.
    ToolError(String),
}

/// The `error` entry of the first element of a structured error report, as far
/// as the classifier reads it: its integer `code` and its textual `message`.
#[derive(Debug, Clone, PartialEq, Eq)]
pub struct ErrorPayload {
    pub code: Option<i64>,
    pub message: Option<String>,
}

pub struct ErrorPayloadView {
    pub code: Option<int>,
    pub message: Option<Seq<char>>,
}

impl View for ErrorPayload {
    type V = ErrorPayloadView;

    open spec fn view(&self) -> ErrorPayloadView {
        ErrorPayloadView {
            code: match self.code {
                Some(n) => Some(n as int),
                None => None,
            },
            message: match self.message {
                Some(m) => Some(m@),
                None => None,
            },
        }
    }
}

/// The element of an array at a position, if the document is an array that
/// long.
pub open spec fn json_item(doc: Json, index: int) -> Option<Json> {
    match doc {
        Json::Array(items) => if 0 <= index < items.len() {
            Some(items[index])
        } else {
            None
        },
        _ => None,
    }
}

/// The value under a key, if the document is an object with that key.
pub open spec fn json_field(doc: Json, key: Seq<char>) -> Option<Json> {
    match doc {
        Json::Object(fields) => if fields.dom().contains(key) {
            Some(fields[key])
        } else {
            None
        },
        _ => None,
    }
}

/// The integer of a document that is a number within 64 signed bits.
pub open spec fn json_integer(doc: Option<Json>) -> Option<int> {
    match doc {
        Some(Json::Int(n)) => if i64::MIN <= n <= i64::MAX {
            Some(n)
        } else {
            None
        },
        _ => None,
    }
}

/// The text of a document that is a string.
pub open spec fn json_text(doc: Option<Json>) -> Option<Seq<char>> {
    match doc {
        Some(Json::Text(t)) => Some(t),
        _ => None,
    }
}

/// The error payload of a report: present where the report is an array whose
/// first element is an object with an `error` entry.
pub open spec fn payload_of(doc: Json) -> Option<ErrorPayloadView> {
    match json_item(doc, 0) {
        Some(first) => match json_field(first, "error"@) {
            Some(error) => Some(
                ErrorPayloadView {
                    code: json_integer(json_field(error, "code"@)),
                    message: json_text(json_field(error, "message"@)),
                },
            ),
            None => None,
        },
        None => None,
    }
}

/// The payload of an error stream that parsed, if it has one.
pub open spec fn payload_of_parsed(parsed: Option<Json>) -> Option<ErrorPayloadView> {
    match parsed {
        Some(doc) => payload_of(doc),
        None => None,
    }
}

/// The quota signal: code 429 together with a message that holds the exact
/// phrase `Quota exceeded`.
pub open spec fn signals_quota(payload: Option<ErrorPayloadView>) -> bool {
    match payload {
        Some(p) => p.code == Some(429int) && match p.message {
            Some(m) => has_substring(m, "Quota exceeded"@),
            None => false,
        },
        None => false,
    }
}

/// The classification of an outcome, given whether its error stream carries
/// the quota signal.
pub open spec fn classified(outcome: Outcome, quota: bool) -> Result<String, ClassifiedError> {
    if outcome.success {
        Ok(outcome.stdout)
    } else if quota {
        Err(ClassifiedError::QuotaExceeded)
    } else {
        Err(ClassifiedError::ToolError(outcome.stderr))
    }
}

/// Whether a payload is the quota signal.
pub fn is_quota_signal(payload: &Option<ErrorPayload>) -> (r: bool)
    ensures
        r == signals_quota(
            match *payload {
                Some(p) => Some(p@),
                None => None,
            },
        ),
{
    match payload {
        Some(p) => {
            let code_matches = match p.code {
                Some(n) => n == 429,
                None => false,
            };
            match &p.message {
                Some(m) => code_matches && contains_text(m.as_str(), "Quota exceeded"),
                None => false,
            }
        },
        None => false,
    }
}

/// Reads the error payload out of a parsed report.
pub fn read_payload(doc: &serde_json::Value) -> (r: Option<ErrorPayload>)
    ensures
        match r {
            Some(p) => payload_of(json_view(*doc)) == Some(p@),
            None => payload_of(json_view(*doc)) is None,
        },
{
    let first = match element_at(doc, 0) {
        Some(first) => first,
        None => { return None; },
    };
    let error = match member_of(first, "error") {
        Some(error) => error,
        None => { return None; },
    };
    let code = match member_of(error, "code") {
        Some(c) => integer_of(c),
        None => None,
    };
    let message = match member_of(error, "message") {
        Some(m) => match text_of(m) {
            Some(t) => Some(t.to_owned()),
            None => None,
        },
        None => None,
    };
    Some(ErrorPayload { code, message })
}

/// Classifies an outcome whose error stream has already been read: the answer
/// of a successful run as it is, even if empty; `QuotaExceeded` for a failed
/// run with the quota signal; the raw error stream for every other failure.
/// The answer stream of a failed run is never looked at.
pub fn classify_with_payload(outcome: Outcome, payload: Option<ErrorPayload>) -> (r: Result<
    String,
    ClassifiedError,
>)
    ensures
        r == classified(
            outcome,
            signals_quota(
                match payload {
                    Some(p) => Some(p@),
                    None => None,
                },
            ),
        ),
{
    if outcome.success {
        Ok(outcome.stdout)
    } else if is_quota_signal(&payload) {
        Err(ClassifiedError::QuotaExceeded)
    } else {
        Err(ClassifiedError::ToolError(outcome.stderr))
    }
}

/// Classifies an outcome. The error stream of a failed run is parsed as JSON;
/// a stream that does not parse, or parses to anything but the quota signal,
/// is handed back unchanged as a `ToolError`.
pub fn classify(outcome: Outcome) -> (r: Result<String, ClassifiedError>)
    ensures
        r == classified(outcome, signals_quota(payload_of_parsed(json_parse(outcome.stderr@)))),
        outcome.success ==> r == (Ok::<String, ClassifiedError>(outcome.stdout)),
        !outcome.success ==> r is Err && !(r matches Err(ClassifiedError::LaunchFailed(_))),
{
    if outcome.success {
        return Ok(outcome.stdout);
    }
    let payload = match parse_document(outcome.stderr.as_str()) {
        Some(doc) => read_payload(&doc),
        None => None,
    };
    classify_with_payload(outcome, payload)
}

/// Classifies an attempt to run the assistant: a launch that failed carries
/// the operating system's words; a launch that succeeded is classified by its
/// outcome.
pub fn classify_launch(launch: Result<Outcome, String>) -> (r: Result<String, ClassifiedError>)
    ensures
        match launch {
            Ok(outcome) => r == classified(
                outcome,
                signals_quota(payload_of_parsed(json_parse(outcome.stderr@))),
            ),
            Err(detail) => r == (Err::<String, ClassifiedError>(
                ClassifiedError::LaunchFailed(detail),
            )),
        },
{
    match launch {
        Ok(outcome) => classify(outcome),
        Err(detail) => Err(ClassifiedError::LaunchFailed(detail)),
    }
}

impl ClassifiedError {
    /// The text shown for the error: a fixed marker for the quota signal, the
    /// carried text for the others.
    pub fn to_text(&self) -> (r: String)
        ensures
            r@ == match *self {
                ClassifiedError::QuotaExceeded => "GEMINI_QUOTA_EXCEEDED"@,
                ClassifiedError::LaunchFailed(detail) => detail@,
                ClassifiedError::ToolError(raw) => raw@,
            },
    {
        match self {
            ClassifiedError::QuotaExceeded => "GEMINI_QUOTA_EXCEEDED".to_owned(),
            ClassifiedError::LaunchFailed(detail) => detail.clone(),
            ClassifiedError::ToolError(raw) => raw.clone(),
        }
    }
}

} // verus!
