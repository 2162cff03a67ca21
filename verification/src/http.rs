//! The decisions around a request: what a status means, when to try again,
//! and what to take out of a response.

use crate::text::owned;
use crate::tree::lemma_list_view;
use crate::tree::Node;
use crate::tree::Tree;
use vstd::prelude::*;

verus! {

/// How often a request is tried again after a first failure.
pub const MAX_RETRIES: u32 = 3;

/// The wait before the first retry, in milliseconds.
pub const INITIAL_BACKOFF_MS: u64 = 1000;

/// What a status means, in words.
pub open spec fn status_text(status: u16) -> Seq<char> {
    if status == 401 {
        "Unauthorized - check your API key"@
    } else if status == 403 {
        "Forbidden - check your API key permissions"@
    } else if status == 404 {
        "Not found - check the API endpoint URL"@
    } else if status == 429 {
        "Rate limited - too many requests"@
    } else if 500 <= status <= 599 {
        "Server error - the API is having issues"@
    } else {
        "HTTP error"@
    }
}

/// What a status means, in words.
pub fn status_description(status: u16) -> (r: &'static str)
    ensures
        r@ == status_text(status),
{
    if status == 401 {
        "Unauthorized - check your API key"
    } else if status == 403 {
        "Forbidden - check your API key permissions"
    } else if status == 404 {
        "Not found - check the API endpoint URL"
    } else if status == 429 {
        "Rate limited - too many requests"
    } else if status >= 500 && status <= 599 {
        "Server error - the API is having issues"
    } else {
        "HTTP error"
    }
}

/// How an attempt at a request ended, where it did not succeed.
#[derive(Debug, Clone, Copy, PartialEq, Eq, Structural)]
pub enum Failure {
    /// The server answered with a status that is an error.
    Status(u16),
    /// No answer came.
    Network,
}

/// What to do after a failed attempt.
#[derive(Debug, Clone, Copy, PartialEq, Eq, Structural)]
pub enum NextStep {
    /// Wait for so many milliseconds and try again.
    RetryAfter(u64),
    /// Give up.
    GiveUp,
}

/// Whether a failure may pass: too many requests, an error of the server,
/// or no answer at all.
pub open spec fn is_transient(failure: Failure) -> bool {
    match failure {
        Failure::Status(s) => s == 429 || 500 <= s < 600,
        Failure::Network => true,
    }
}

/// The wait before the retry that follows the attempt `attempt`, counted
/// from zero: it starts at a second and doubles every time.
pub open spec fn backoff_ms(attempt: nat) -> nat
    decreases attempt,
{
    if attempt == 0 {
        INITIAL_BACKOFF_MS as nat
    } else {
        2 * backoff_ms((attempt - 1) as nat)
    }
}

/// What to do after the attempt `attempt`, counted from zero, has failed: a
/// failure that may pass is retried after the backoff, as long as retries
/// are left; anything else ends the request.
pub open spec fn next_step(attempt: u32, failure: Failure) -> NextStep {
    if is_transient(failure) && attempt < MAX_RETRIES {
        NextStep::RetryAfter(backoff_ms(attempt as nat) as u64)
    } else {
        NextStep::GiveUp
    }
}

/// Decides what to do after a failed attempt; see [`next_step`].
pub fn after_failure(attempt: u32, failure: Failure) -> (r: NextStep)
    ensures
        r == next_step(attempt, failure),
{
    let transient = match failure {
        Failure::Status(s) => s == 429 || (s >= 500 && s < 600),
        Failure::Network => true,
    };
    if transient && attempt < MAX_RETRIES {
        proof {
            reveal_with_fuel(backoff_ms, 4);
        }
        let wait: u64 = if attempt == 0 {
            1000
        } else if attempt == 1 {
            2000
        } else {
            4000
        };
        NextStep::RetryAfter(wait)
    } else {
        NextStep::GiveUp
    }
}

/// The item of a list at a position.
pub open spec fn item(t: Tree, i: int) -> Option<Tree> {
    match t {
        Tree::List(items) => if 0 <= i < items.len() {
            Some(items[i])
        } else {
            None
        },
        _ => None,
    }
}

/// What is reached from an optional value under a key.
pub open spec fn then_field(o: Option<Tree>, key: Seq<char>) -> Option<Tree> {
    match o {
        Some(t) => t.field(key),
        None => None,
    }
}

/// The text of an optional value that is a text.
pub open spec fn as_text(o: Option<Tree>) -> Option<Seq<char>> {
    match o {
        Some(Tree::Text(s)) => Some(s),
        _ => None,
    }
}

/// The first choice of a response.
pub open spec fn first_choice(response: Tree) -> Option<Tree> {
    match response.field("choices"@) {
        Some(choices) => item(choices, 0),
        None => None,
    }
}

/// The content of the message of the first choice of a response, where it
/// is a text.
pub open spec fn response_content(response: Tree) -> Option<Seq<char>> {
    as_text(then_field(then_field(first_choice(response), "message"@), "content"@))
}

/// Whether the first choice of a response was cut off at the token limit.
pub open spec fn response_truncated(response: Tree) -> bool {
    as_text(then_field(first_choice(response), "finish_reason"@)) == Some("length"@)
}

/// The message of the error that a response reports: the text under
/// `message` in its `error`, else the text under `error` there.
pub open spec fn response_error(response: Tree) -> Option<Seq<char>> {
    match response.field("error"@) {
        Some(err) => match err.field("message"@) {
            Some(m) => as_text(Some(m)),
            None => as_text(err.field("error"@)),
        },
        None => None,
    }
}

/// The first item of a list.
fn first_item(node: &Node) -> (r: Option<&Node>)
    ensures
        match r {
            Some(n) => item(node@, 0) == Some(n@),
            None => item(node@, 0) is None,
        },
{
    match node {
        Node::List(items) => {
            proof {
                lemma_list_view(*items);
            }
            if items.len() > 0 {
                Some(&items[0])
            } else {
                None
            }
        },
        _ => None,
    }
}

fn choice(response: &Node) -> (r: Option<&Node>)
    ensures
        match r {
            Some(n) => first_choice(response@) == Some(n@),
            None => first_choice(response@) is None,
        },
{
    match response.get("choices") {
        Some(choices) => first_item(choices),
        None => None,
    }
}

/// The content of the first choice of a response; see [`response_content`].
/// A response without it is refused with a message that says what is missing.
pub fn extract_content_from_response(resp_json: &Node) -> (r: Result<&str, String>)
    ensures
        match r {
            Ok(content) => response_content(resp_json@) == Some(content@),
            Err(e) => response_content(resp_json@) is None && e@
                == "API response missing choices[0].message.content"@,
        },
{
    let found = match choice(resp_json) {
        Some(c) => match c.get("message") {
            Some(m) => match m.get("content") {
                Some(content) => match content {
                    Node::Text(s) => Some(s.as_str()),
                    _ => None,
                },
                None => None,
            },
            None => None,
        },
        None => None,
    };
    match found {
        Some(s) => Ok(s),
        None => Err(owned("API response missing choices[0].message.content")),
    }
}

/// Tells whether a response was cut off at the token limit; see
/// [`response_truncated`].
pub fn is_truncated(resp_json: &Node) -> (r: bool)
    ensures
        r == response_truncated(resp_json@),
{
    match choice(resp_json) {
        Some(c) => match c.get("finish_reason") {
            Some(reason) => match reason {
                Node::Text(s) => s.as_str().eq("length"),
                _ => false,
            },
            None => false,
        },
        None => false,
    }
}

/// The message of the error that a response reports; see [`response_error`].
pub fn extract_api_error(resp_json: &Node) -> (r: Option<String>)
    ensures
        crate::layers::opt_view(r) == response_error(resp_json@),
{
    match resp_json.get("error") {
        Some(err) => {
            let found = match err.get("message") {
                Some(m) => Some(m),
                None => err.get("error"),
            };
            match found {
                Some(node) => match node {
                    Node::Text(s) => Some(s.clone()),
                    _ => None,
                },
                None => None,
            }
        },
        None => None,
    }
}

} // verus!
