//! The request text of a summarization call and the result it yields.

use vstd::prelude::*;
use crate::strings::chars_of;

verus! {

/// A generated summary with the model that wrote it and the tokens it used.
#[derive(Debug, Clone)]
pub struct SummaryResult {
    pub content: String,
    pub model: String,
    pub prompt_tokens: Option<i64>,
    pub output_tokens: Option<i64>,
}

/// The instructions given to the model when none are configured.
pub const DEFAULT_SYSTEM_PROMPT: &'static str = "You are a podcast summarizer. Given a transcript of a podcast episode, produce a structured summary with the following sections:

TOPICS: List the main topics discussed (comma-separated)

SUMMARY: A concise narrative summary (2-3 paragraphs)

KEY TAKEAWAYS:
- Bullet points of the most important insights and conclusions

NOTABLE QUOTES:
- Direct quotes with approximate timestamps if available

Be concise but comprehensive. Focus on actionable insights and key information.";

/// `s` without its trailing `/` characters.
pub open spec fn trim_slashes(s: Seq<char>) -> Seq<char>
    decreases s.len(),
{
    if s.len() > 0 && s.last() == '/' {
        trim_slashes(s.drop_last())
    } else {
        s
    }
}

/// The chat-completions endpoint under an API base URL.
pub open spec fn completions_url_of(base: Seq<char>) -> Seq<char> {
    trim_slashes(base) + "/chat/completions"@
}

/// Builds the chat-completions endpoint under `api_base_url`.
pub fn completions_url(api_base_url: &str) -> (r: String)
    ensures
        r@ == completions_url_of(api_base_url@),
{
    let cs = chars_of(api_base_url);
    let mut k: usize = cs.len();
    assert(cs@.subrange(0, k as int) =~= cs@);
    while k > 0 && cs[k - 1] == '/'
        invariant
            cs@ == api_base_url@,
            k <= cs@.len(),
            trim_slashes(cs@.subrange(0, k as int)) == trim_slashes(cs@),
        decreases k,
    {
        assert(cs@.subrange(0, k as int).drop_last() =~= cs@.subrange(0, k - 1));
        k = k - 1;
    }
    assert(trim_slashes(cs@.subrange(0, k as int)) == cs@.subrange(0, k as int));
    let mut r = String::from_str(api_base_url.substring_char(0, k));
    r.append("/chat/completions");
    r
}

/// The user message that carries the transcript.
pub open spec fn user_message_of(transcript: Seq<char>) -> Seq<char> {
    "Here is the podcast transcript to summarize:\n\n"@ + transcript
}

/// Builds the user message that carries the transcript.
pub fn user_message(transcript: &str) -> (r: String)
    ensures
        r@ == user_message_of(transcript@),
{
    let mut r = String::from_str("Here is the podcast transcript to summarize:\n\n");
    r.append(transcript);
    r
}

/// The system instructions: the configured ones, or the default.
pub fn system_prompt<'a>(configured: Option<&'a str>) -> (r: &'a str)
    ensures
        r@ == match configured {
            Some(p) => p@,
            None => DEFAULT_SYSTEM_PROMPT@,
        },
{
    match configured {
        Some(p) => p,
        None => DEFAULT_SYSTEM_PROMPT,
    }
}

} // verus!
