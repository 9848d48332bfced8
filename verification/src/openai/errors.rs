//! Classification of failed HTTP calls and of stream-option rejections.

use vstd::prelude::*;
use crate::openai::types::{secs, ErrorModel, OpenAiCompatError, RetryAfter};
use crate::numbers::{parse_u64, parse_unsigned};
use crate::openai::types::opt_view;
use crate::text::{chars_of, has_infix, lowercase, str_contains, to_lowercase};

verus! {

/// The error for an unsuccessful HTTP status: 429 is a rate limit (waiting
/// `rate_limit_wait`), 401 and 403 are authentication errors, 5xx are transient
/// (waiting the `Retry-After` seconds, or 0), anything else is an API error.
pub open spec fn status_error(
    status: u16,
    retry_after_secs: Option<u64>,
    rate_limit_wait: RetryAfter,
    text: Seq<char>,
) -> ErrorModel {
    if status == 429 {
        ErrorModel::RateLimitExceeded(rate_limit_wait)
    } else if status == 401 || status == 403 {
        ErrorModel::AuthenticationError(text)
    } else if 500 <= status <= 599 {
        ErrorModel::TransientError(
            match retry_after_secs {
                Some(s) => secs(s),
                None => secs(0),
            },
            text,
        )
    } else {
        ErrorModel::ApiError(status, text)
    }
}

/// Builds the error for a response with an unsuccessful status.
///
/// `retry_after_secs` is the response's `Retry-After` header in seconds, if it had a
/// valid one; `rate_limit_wait` is the wait to report for a rate limit (derived from the
/// header and from any "Please retry in Ns" hint in the body).
pub fn error_from_status(
    status: u16,
    retry_after_secs: Option<u64>,
    rate_limit_wait: RetryAfter,
    error_text: String,
) -> (e: OpenAiCompatError)
    ensures
        e@ == status_error(status, retry_after_secs, rate_limit_wait, error_text@),
{
    if status == 429 {
        OpenAiCompatError::RateLimitExceeded(rate_limit_wait)
    } else if status == 401 || status == 403 {
        OpenAiCompatError::AuthenticationError(error_text)
    } else if 500 <= status && status <= 599 {
        let wait = match retry_after_secs {
            Some(s) => crate::openai::types::retry_after_secs(s),
            None => crate::openai::types::retry_after_secs(0),
        };
        OpenAiCompatError::TransientError(wait, error_text)
    } else {
        OpenAiCompatError::ApiError(status, error_text)
    }
}

/// How a failed call is handled by the caller's retry logic.
#[derive(Clone, Copy, Debug, PartialEq, Eq)]
pub enum AiErrorClass {
    /// Wait, then retry; the provider's rate limit was hit.
    RateLimit { retry_after: RetryAfter },
    /// Wait, then retry; the failure is expected to pass.
    Transient { retry_after: RetryAfter },
    /// Do not retry.
    Fatal,
}

/// The class of an error: rate limits and transient errors keep their wait,
/// authentication errors are fatal, and an API error takes the class its HTTP status has
/// (`status_class`), fatal when the status has none.
pub open spec fn error_class(e: ErrorModel, status_class: Option<AiErrorClass>) -> AiErrorClass {
    match e {
        ErrorModel::RateLimitExceeded(r) => AiErrorClass::RateLimit { retry_after: r },
        ErrorModel::TransientError(r, _) => AiErrorClass::Transient { retry_after: r },
        ErrorModel::AuthenticationError(_) => AiErrorClass::Fatal,
        ErrorModel::ApiError(_, _) => match status_class {
            Some(c) => c,
            None => AiErrorClass::Fatal,
        },
    }
}

impl OpenAiCompatError {
    /// Classifies the error for retrying (see [`error_class`]). `status_class` is the
    /// class that the service's status-code classification gives an API error's status;
    /// it is only consulted for API errors.
    pub fn ai_error_class(&self, status_class: Option<AiErrorClass>) -> (c: AiErrorClass)
        ensures
            c == error_class(self@, status_class),
    {
        match self {
            OpenAiCompatError::RateLimitExceeded(r) => AiErrorClass::RateLimit { retry_after: *r },
            OpenAiCompatError::TransientError(r, _) => AiErrorClass::Transient { retry_after: *r },
            OpenAiCompatError::AuthenticationError(_) => AiErrorClass::Fatal,
            OpenAiCompatError::ApiError(_, _) => match status_class {
                Some(c) => c,
                None => AiErrorClass::Fatal,
            },
        }
    }
}

/// A server message saying that the `stream_options` request field is not supported.
pub open spec fn rejects_stream_options(message: Seq<char>) -> bool {
    let m = lowercase(message);
    has_infix(m, "stream_options"@) && (has_infix(m, "include_usage"@) || has_infix(
        m,
        "unsupported"@,
    ) || has_infix(m, "unknown field"@) || has_infix(m, "unknown parameter"@) || has_infix(
        m,
        "unrecognized"@,
    ))
}

/// A message rejects `stream_options` exactly when, compared in lower case, it names
/// `stream_options` together with one of `include_usage`, `unsupported`, `unknown field`,
/// `unknown parameter` or `unrecognized`; a 400 answer with such a message is retried
/// without the field.
pub proof fn lemma_stream_options_rejections(message: Seq<char>)
    ensures
        ({
            let m = lowercase(message);
            let named = has_infix(m, "stream_options"@);
            let reason = has_infix(m, "include_usage"@) || has_infix(m, "unsupported"@) || has_infix(
                m,
                "unknown field"@,
            ) || has_infix(m, "unknown parameter"@) || has_infix(m, "unrecognized"@);
            &&& named && has_infix(m, "unrecognized"@) ==> rejects_stream_options(message)
            &&& named && has_infix(m, "include_usage"@) ==> rejects_stream_options(message)
            &&& named && has_infix(m, "unsupported"@) ==> rejects_stream_options(message)
            &&& named && has_infix(m, "unknown field"@) ==> rejects_stream_options(message)
            &&& named && has_infix(m, "unknown parameter"@) ==> rejects_stream_options(message)
            &&& rejects_stream_options(message) ==> named && reason
        }),
{
}

/// Whether an error message (compared case-insensitively) rejects `stream_options`.
pub fn is_unsupported_stream_options_error(message: &str) -> (b: bool)
    ensures
        b == rejects_stream_options(message@),
{
    let normalized = to_lowercase(message);
    let m = normalized.as_str();
    str_contains(m, "stream_options") && (str_contains(m, "include_usage") || str_contains(
        m,
        "unsupported",
    ) || str_contains(m, "unknown field") || str_contains(m, "unknown parameter")
        || str_contains(m, "unrecognized"))
}

/// Whether a failed streaming call is retried without `stream_options`: exactly when
/// the server answered 400 Bad Request with a message rejecting that field.
pub fn should_retry_without_stream_options(err: &OpenAiCompatError) -> (b: bool)
    ensures
        b == (err@ matches ErrorModel::ApiError(status, m) && status == 400
            && rejects_stream_options(m)),
{
    match err {
        OpenAiCompatError::ApiError(status, m) => *status == 400
            && is_unsupported_stream_options_error(m.as_str()),
        _ => false,
    }
}

/// The `Retry-After` header's value as whole seconds: what `str::parse::<u64>` gives for
/// it (an optional `+` and decimal digits, within `u64`), `None` otherwise.
pub fn retry_after_header(value: &str) -> (r: Option<u64>)
    ensures
        r == (match parse_unsigned(value@, u64::MAX as nat) {
            Some(n) => Some(n as u64),
            None => None::<u64>,
        }),
{
    let v = chars_of(value);
    parse_u64(v.as_slice())
}

/// The text of capture group 1 of the leftmost match of the regular expression `pattern`
/// in `text`, as the `regex` crate finds it; `None` when nothing matches, the group takes
/// no part in the match, or `pattern` is not a valid expression.
pub uninterp spec fn regex_capture(pattern: Seq<char>, text: Seq<char>) -> Option<Seq<char>>;

/// Trusted: compiles `pattern` with `regex::Regex::new` and returns the text of capture
/// group 1 of `Regex::captures(text)` (the leftmost match), or `None` when there is no
/// match, no such group in it, or `pattern` does not compile. A function of `pattern` and
/// `text` alone, named [`regex_capture`]; nothing else is claimed of it.
#[verifier::external_body]
fn regex_first_capture(pattern: &str, text: &str) -> (r: Option<String>)
    ensures
        opt_view(r) == regex_capture(pattern@, text@),
{
    match regex::Regex::new(pattern) {
        Ok(re) => re.captures(text).and_then(|c| c.get(1)).map(|m| m.as_str().to_string()),
        Err(_) => None,
    }
}

/// The expression that finds a server's hint on how long to wait after a rate limit.
pub open spec fn retry_hint_pattern() -> Seq<char> {
    "Please retry in ([0-9.]+)s"@
}

/// The number of seconds a rate-limited server asks to wait in its error text ("Please
/// retry in 1.5s" gives `1.5`), as text; `None` without such a hint.
pub fn rate_limit_retry_hint(text: &str) -> (r: Option<String>)
    ensures
        opt_view(r) == regex_capture(retry_hint_pattern(), text@),
{
    regex_first_capture("Please retry in ([0-9.]+)s", text)
}

} // verus!
