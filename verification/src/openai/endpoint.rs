//! Endpoint URLs and context windows of the supported model families.

use vstd::prelude::*;
use crate::openai::types::opt_view;
use crate::text::{
    chars_of, ends_with, has_prefix, has_suffix, starts_with, string_of_range, without_trailing,
    without_trailing_len,
};

verus! {

/// The chat completions path every endpoint URL ends with.
pub open spec fn completions_path() -> Seq<char> {
    "/chat/completions"@
}

/// `url` without trailing slashes, with `/chat/completions` appended unless already there.
pub open spec fn normalized_url(url: Seq<char>) -> Seq<char> {
    let u = without_trailing(url, '/');
    if has_suffix(u, completions_path()) {
        u
    } else {
        u + completions_path()
    }
}

/// A sequence whose last character is not `c` has no trailing `c` to strip.
proof fn lemma_without_trailing_other_last(s: Seq<char>, c: char)
    requires
        s.len() > 0,
        s.last() != c,
    ensures
        without_trailing(s, c) == s,
{
    assert(s.subrange(0, s.len() as int) =~= s);
}

/// A normalized URL always ends with the chat completions path.
pub proof fn lemma_normalized_url_ends_with_path(url: Seq<char>)
    ensures
        has_suffix(normalized_url(url), completions_path()),
{
    let u = without_trailing(url, '/');
    if !has_suffix(u, completions_path()) {
        let n = u + completions_path();
        assert(n.subrange(n.len() - completions_path().len(), n.len() as int) =~= completions_path());
    }
}

/// Normalizing twice gives what normalizing once gives.
pub proof fn lemma_normalize_idempotent(url: Seq<char>)
    ensures
        normalized_url(normalized_url(url)) == normalized_url(url),
{
    let n = normalized_url(url);
    let p = completions_path();
    reveal_strlit("/chat/completions");
    lemma_normalized_url_ends_with_path(url);
    assert(n.last() == n.subrange(n.len() - p.len(), n.len() as int)[p.len() - 1]);
    assert(n.last() == 's');
    lemma_without_trailing_other_last(n, '/');
}

/// Normalizes a base URL so it always ends with `/chat/completions`.
///
/// OpenAI-compatible servers document the base URL as e.g. `http://localhost:1234/v1`,
/// expecting the client to append the endpoint path; requests are posted to the
/// normalized URL directly.
pub fn normalize_base_url(url: &str) -> (r: String)
    ensures
        r@ == normalized_url(url@),
{
    let v = chars_of(url);
    let n = without_trailing_len(v.as_slice(), '/');
    let mut u = string_of_range(v.as_slice(), 0, n);
    let path = chars_of("/chat/completions");
    let uv = chars_of(u.as_str());
    if ends_with(uv.as_slice(), path.as_slice()) {
        u
    } else {
        u.append("/chat/completions");
        u
    }
}

/// Whether the characters of `model` start with `prefix`.
fn model_has_prefix(model: &Vec<char>, prefix: &str) -> (b: bool)
    ensures
        b == has_prefix(model@, prefix@),
{
    let p = chars_of(prefix);
    starts_with(model.as_slice(), p.as_slice())
}

/// The default endpoint for a model family, chosen by the model name's prefix.
pub open spec fn default_url(model: Seq<char>) -> Seq<char> {
    if has_prefix(model, "glm-"@) {
        "https://open.bigmodel.cn/api/paas/v4/chat/completions"@
    } else if has_prefix(model, "moonshot-"@) {
        "https://api.moonshot.cn/v1/chat/completions"@
    } else if has_prefix(model, "abab7-"@) || has_prefix(model, "MiniMax-"@) {
        "https://api.minimax.chat/v1/text/chatcompletion_v2"@
    } else {
        "https://api.openai.com/v1/chat/completions"@
    }
}

/// The default endpoint URL for `model`.
pub fn default_base_url_for_model(model: &str) -> (r: String)
    ensures
        r@ == default_url(model@),
{
    let m = chars_of(model);
    if model_has_prefix(&m, "glm-") {
        String::from_str("https://open.bigmodel.cn/api/paas/v4/chat/completions")
    } else if model_has_prefix(&m, "moonshot-") {
        String::from_str("https://api.moonshot.cn/v1/chat/completions")
    } else if model_has_prefix(&m, "abab7-") || model_has_prefix(&m, "MiniMax-") {
        String::from_str("https://api.minimax.chat/v1/text/chatcompletion_v2")
    } else {
        String::from_str("https://api.openai.com/v1/chat/completions")
    }
}

/// The default context window (in tokens) of a model family.
pub open spec fn default_window(model: Seq<char>) -> usize {
    if has_prefix(model, "glm-"@) || has_prefix(model, "moonshot-"@) {
        128_000
    } else if has_prefix(model, "abab7-"@) || has_prefix(model, "MiniMax-"@) {
        245_760
    } else if has_prefix(model, "gpt-4o"@) || has_prefix(model, "gpt-4-turbo"@) {
        128_000
    } else if has_prefix(model, "gpt-3.5"@) {
        16_385
    } else {
        128_000
    }
}

/// The default context window size for `model`.
pub fn default_context_window_for_model(model: &str) -> (n: usize)
    ensures
        n == default_window(model@),
{
    let m = chars_of(model);
    if model_has_prefix(&m, "glm-") || model_has_prefix(&m, "moonshot-") {
        128_000
    } else if model_has_prefix(&m, "abab7-") || model_has_prefix(&m, "MiniMax-") {
        245_760
    } else if model_has_prefix(&m, "gpt-4o") || model_has_prefix(&m, "gpt-4-turbo") {
        128_000
    } else if model_has_prefix(&m, "gpt-3.5") {
        16_385
    } else {
        128_000
    }
}

// ---------------------------------------------------------------------------
// Client settings
// ---------------------------------------------------------------------------

/// Timeouts of the HTTP client, in seconds (`None`: not set).
#[derive(Clone, Copy, Debug, PartialEq, Eq)]
pub struct ClientTimeouts {
    /// Limit on establishing a connection.
    pub connect_secs: Option<u64>,
    /// Limit on a whole request, answer included.
    pub request_secs: Option<u64>,
}

/// A streaming client only limits connecting, to the API timeout kept within 1 to 60
/// seconds, so that long streams are not cut off; otherwise the whole request is
/// limited to the API timeout.
pub open spec fn timeouts_for(streaming: bool, api_timeout_secs: u64) -> ClientTimeouts {
    if streaming {
        ClientTimeouts {
            connect_secs: Some(
                if api_timeout_secs < 1 {
                    1
                } else if api_timeout_secs > 60 {
                    60
                } else {
                    api_timeout_secs
                },
            ),
            request_secs: None,
        }
    } else {
        ClientTimeouts { connect_secs: None, request_secs: Some(api_timeout_secs) }
    }
}

/// The timeouts of a client (see [`timeouts_for`]).
pub fn client_timeouts(streaming: bool, api_timeout_secs: u64) -> (t: ClientTimeouts)
    ensures
        t == timeouts_for(streaming, api_timeout_secs),
{
    if streaming {
        let connect = if api_timeout_secs < 1 {
            1
        } else if api_timeout_secs > 60 {
            60
        } else {
            api_timeout_secs
        };
        ClientTimeouts { connect_secs: Some(connect), request_secs: None }
    } else {
        ClientTimeouts { connect_secs: None, request_secs: Some(api_timeout_secs) }
    }
}

/// The `Authorization` header value for the API key found in `OPENAI_API_KEY`, else in
/// `LLM_API_KEY` (`None` where a variable is unset): `Bearer ` and the key, or no header
/// when no key or an empty one was found.
pub open spec fn authorization_for(openai_key: Option<Seq<char>>, llm_key: Option<Seq<char>>) -> Option<Seq<char>> {
    let key = match openai_key {
        Some(k) => k,
        None => match llm_key {
            Some(k) => k,
            None => Seq::empty(),
        },
    };
    if key.len() == 0 {
        None
    } else {
        Some("Bearer "@ + key)
    }
}

/// Builds the `Authorization` header value (see [`authorization_for`]).
pub fn authorization_value(openai_key: Option<&str>, llm_key: Option<&str>) -> (r: Option<String>)
    ensures
        opt_view(r) == authorization_for(
            match openai_key {
                Some(k) => Some(k@),
                None => None,
            },
            match llm_key {
                Some(k) => Some(k@),
                None => None,
            },
        ),
{
    let key: &str = match openai_key {
        Some(k) => k,
        None => match llm_key {
            Some(k) => k,
            None => "",
        },
    };
    proof {
        reveal_strlit("");
    }
    if key.unicode_len() == 0 {
        None
    } else {
        let mut v = String::from_str("Bearer ");
        v.append(key);
        Some(v)
    }
}

} // verus!
