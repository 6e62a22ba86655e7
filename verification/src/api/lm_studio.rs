//! The chat messages sent to the server and the content read from its reply.

use vstd::prelude::*;
use crate::text::chars_of;

verus! {

/// One message of a chat-completion request.
#[derive(Clone, Debug)]
pub struct ChatMessage {
    pub role: String,
    pub content: String,
}

/// The part of a chat-completion reply that is read.
#[derive(Clone, Debug)]
pub struct ChatCompletionResponse {
    pub choices: Vec<Choice>,
}

/// One choice of a chat-completion reply.
#[derive(Clone, Debug)]
pub struct Choice {
    pub message: Message,
}

/// The message of a choice; its content may be absent.
#[derive(Clone, Debug)]
pub struct Message {
    pub content: Option<String>,
}

/// The messages of a request: first the system message, then the user message.
pub fn chat_messages(system: &str, user: &str) -> (r: Vec<ChatMessage>)
    ensures
        r@.len() == 2,
        r@[0].role@ == "system"@,
        r@[0].content@ == system@,
        r@[1].role@ == "user"@,
        r@[1].content@ == user@,
{
    let mut r: Vec<ChatMessage> = Vec::new();
    r.push(ChatMessage { role: String::from_str("system"), content: String::from_str(system) });
    r.push(ChatMessage { role: String::from_str("user"), content: String::from_str(user) });
    r
}

/// The text a reply carries: the content of its first choice's message.
pub open spec fn reply_content_of(resp: ChatCompletionResponse) -> Seq<char> {
    if resp.choices@.len() > 0 && resp.choices@[0].message.content is Some {
        resp.choices@[0].message.content->0@
    } else {
        Seq::empty()
    }
}

/// The content of the first choice's message, or the empty string when there
/// is no choice or no content.
pub fn reply_content(resp: &ChatCompletionResponse) -> (r: String)
    ensures
        r@ == reply_content_of(*resp),
        resp.choices@.len() > 0 && resp.choices@[0].message.content is Some ==> r@
            == resp.choices@[0].message.content->0@,
        resp.choices@.len() == 0 || resp.choices@[0].message.content is None ==> r@.len() == 0,
{
    if resp.choices.len() > 0 {
        match &resp.choices[0].message.content {
            Some(c) => {
                return c.clone();
            },
            None => {},
        }
    }
    String::new()
}

/// The reply's text is the first choice's content exactly, whatever characters
/// it holds (nothing is cut or added), and empty when there is no first choice
/// or it has no content.
pub proof fn lemma_reply_content_is_first_content(resp: ChatCompletionResponse)
    ensures
        resp.choices@.len() > 0 && resp.choices@[0].message.content is Some ==> reply_content_of(
            resp,
        ) == resp.choices@[0].message.content->0@,
        resp.choices@.len() == 0 || resp.choices@[0].message.content is None ==> reply_content_of(
            resp,
        ).len() == 0,
{
}

/// Only the first choice counts: two replies whose first choices carry the
/// same content give the same text, whatever follows.
pub proof fn lemma_reply_content_ignores_later_choices(
    a: ChatCompletionResponse,
    b: ChatCompletionResponse,
)
    requires
        a.choices@.len() > 0,
        b.choices@.len() > 0,
        a.choices@[0].message.content == b.choices@[0].message.content,
    ensures
        reply_content_of(a) == reply_content_of(b),
{
}

/// Whether an HTTP status code is a success (200 to 299), as
/// `StatusCode::is_success` decides it.
pub fn status_is_success(status: u16) -> (r: bool)
    ensures
        r == (200 <= status <= 299),
{
    200 <= status && status <= 299
}

/// The address used when `LM_STUDIO_BASE_URL` is not set.
pub open spec fn default_base_url_text() -> Seq<char> {
    "http://localhost:1234/v1"@
}

/// The server's base address: the value of `LM_STUDIO_BASE_URL` when it is
/// set (passed as `env_value`), otherwise `http://localhost:1234/v1`.
pub fn resolve_base_url(env_value: Option<String>) -> (r: String)
    ensures
        r@ == match env_value {
            Some(v) => v@,
            None => default_base_url_text(),
        },
{
    match env_value {
        Some(v) => v,
        None => String::from_str("http://localhost:1234/v1"),
    }
}

/// End of `s.take(j)` once its trailing `/` characters are removed.
pub open spec fn slash_trimmed_end(s: Seq<char>, j: int) -> int
    decreases j,
{
    if 0 < j <= s.len() && s[j - 1] == '/' {
        slash_trimmed_end(s, j - 1)
    } else {
        j
    }
}

/// The endpoint for chat completions under a base address.
pub open spec fn chat_completions_url_of(base_url: Seq<char>) -> Seq<char> {
    base_url.take(slash_trimmed_end(base_url, base_url.len() as int)) + "/chat/completions"@
}

/// The chat-completions endpoint: the base address without its trailing
/// slashes, followed by `/chat/completions`.
pub fn chat_completions_url(base_url: &str) -> (r: String)
    ensures
        r@ == chat_completions_url_of(base_url@),
{
    let cs = chars_of(base_url);
    let mut j: usize = cs.len();
    while j > 0
        invariant
            cs@ == base_url@,
            0 <= j <= cs@.len(),
            slash_trimmed_end(base_url@, j as int) == slash_trimmed_end(
                base_url@,
                base_url@.len() as int,
            ),
        ensures
            0 <= j <= cs@.len(),
            slash_trimmed_end(base_url@, j as int) == slash_trimmed_end(
                base_url@,
                base_url@.len() as int,
            ),
            slash_trimmed_end(base_url@, j as int) == j,
        decreases j,
    {
        if cs[j - 1] != '/' {
            break;
        }
        j = j - 1;
    }
    let head = base_url.substring_char(0, j);
    let mut r = String::from_str(head);
    r.append("/chat/completions");
    r
}

/// A stand-in for the server that always answers with the same text.
#[derive(Clone, Debug)]
pub struct MockLmStudioClient {
    pub response: String,
}

impl MockLmStudioClient {
    /// The answer to any request: the fixed response.
    pub fn chat_reply(&self, system: &str, user: &str) -> (r: String)
        ensures
            r@ == self.response@,
    {
        self.response.clone()
    }
}

} // verus!
