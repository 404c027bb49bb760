use vstd::prelude::*;
use vstd::string::*;

use crate::text::{
    contains, has_prefix, has_suffix, i64_to_decimal, is_substring, lower_ascii, signed_decimal, decimal,
    strip_prefix, strip_suffix, to_lowercase, trim, trim_spec, u64_to_decimal, unicode_lowercase,
};
use crate::json::{json_quoted, json_string_at, json_string_literal, json_text_at};
use crate::types::ai::{provider_of_url, FailureContext, LlmProvider};

verus! {

/// The wire format of an LLM provider.
#[derive(Debug, Clone, Copy, PartialEq, Eq, Structural)]
pub enum ProviderType {
    Gemini,
    OpenAi,
    Grok,
    Ollama,
}

/// The provider that a lower-cased API URL points at: Google's generative-language API,
/// xAI, a local Ollama server, or (by default) an OpenAI-compatible one.
pub open spec fn provider_of(lower: Seq<char>) -> ProviderType {
    if is_substring("googleapis.com"@, lower) || is_substring("generativelanguage"@, lower) {
        ProviderType::Gemini
    } else if is_substring("x.ai"@, lower) {
        ProviderType::Grok
    } else if is_substring("localhost"@, lower) || is_substring("127.0.0.1"@, lower)
        || is_substring("11434"@, lower) || is_substring("ollama"@, lower) {
        ProviderType::Ollama
    } else {
        ProviderType::OpenAi
    }
}

impl ProviderType {
    /// The provider that an API URL points at, judged case-insensitively.
    pub fn detect(url: &str) -> (r: Self)
        ensures
            r == provider_of(unicode_lowercase(url@)),
            provider_of_url(url@) == LlmProvider::Gemini ==> r == ProviderType::Gemini,
    {
        let lower = to_lowercase(url);
        proof {
            reveal_with_fuel(lower_ascii, 19);
            reveal_strlit("googleapis.com");
            reveal_strlit("generativelanguage");
            assert("googleapis.com"@ =~= seq!['g', 'o', 'o', 'g', 'l', 'e', 'a', 'p', 'i', 's', '.', 'c', 'o', 'm']);
            assert(lower_ascii(seq!['g', 'o', 'o', 'g', 'l', 'e', 'a', 'p', 'i', 's', '.', 'c', 'o', 'm']));
            assert("generativelanguage"@ =~= seq!['g', 'e', 'n', 'e', 'r', 'a', 't', 'i', 'v', 'e', 'l', 'a', 'n', 'g', 'u', 'a', 'g', 'e']);
            assert(lower_ascii(seq!['g', 'e', 'n', 'e', 'r', 'a', 't', 'i', 'v', 'e', 'l', 'a', 'n', 'g', 'u', 'a', 'g', 'e']));
            if is_substring("googleapis.com"@, url@) {
                assert(is_substring("googleapis.com"@, lower@));
            }
            if is_substring("generativelanguage"@, url@) {
                assert(is_substring("generativelanguage"@, lower@));
            }
        }
        Self::of_lowercase_url(lower.as_str())
    }

    /// The provider that an API URL already in lower case points at.
    pub fn of_lowercase_url(lower: &str) -> (r: Self)
        ensures
            r == provider_of(lower@),
    {
        if contains(lower, "googleapis.com") || contains(lower, "generativelanguage") {
            ProviderType::Gemini
        } else if contains(lower, "x.ai") {
            ProviderType::Grok
        } else if contains(lower, "localhost") || contains(lower, "127.0.0.1") || contains(
            lower,
            "11434",
        ) || contains(lower, "ollama") {
            ProviderType::Ollama
        } else {
            ProviderType::OpenAi
        }
    }
}

pub const PROMPT_OPENING: &'static str = "You are an expert Solana transaction operator managing a Jito bundle submission pipeline.\n\nContext for this failure:\n- Bundle ID: ";

pub const PROMPT_FAILURE_TYPE: &'static str = "\n- Failure type: ";

pub const PROMPT_SLOT: &'static str = "\n- Current slot: ";

pub const PROMPT_TIP: &'static str = "\n- Tip paid: ";

pub const PROMPT_LATENCY: &'static str = " lamports\n- Latency to processed: ";

pub const PROMPT_DETAILS: &'static str = "ms\n- Additional details: ";

pub const PROMPT_HISTORY: &'static str = "\n- Retry History for this Intent: ";

pub const PROMPT_CLOSING: &'static str = "\n\nReason step by step about the root cause of this failure.\nConsider the Solana transaction lifecycle, Jito bundle mechanics, and network conditions.\nIf you see a history of repeated failures of the same type, you MUST adapt your strategy (e.g., increase wait slots or tip significantly). Do not repeat the same failed strategy.\nThen decide the single best next action:\n\n1. \"refresh_blockhash\" \u{2014} The blockhash expired. Refresh it and resubmit with an appropriate tip.\n2. \"retry_higher_tip\" \u{2014} The tip was too low to compete. Increase the tip and resubmit.\n3. \"wait\" \u{2014} Network conditions are unfavorable. Wait for a better leader window. Specify how many slots to wait.\n4. \"abort\" \u{2014} The failure is unrecoverable or the cost of retrying exceeds the benefit.\n\nOutput valid JSON only (no markdown, no explanation outside the JSON):\n{\n  \"reasoning\": \"detailed chain of thought explaining your analysis\",\n  \"root_cause\": \"concise root cause classification\",\n  \"action\": \"refresh_blockhash | retry_higher_tip | wait | abort\",\n  \"new_tip_lamports\": optional number (suggested tip in lamports, or null),\n  \"wait_slots\": optional number (slots to wait, or null)\n}";

/// What the prompt says when an intent has no retry history.
pub const NO_HISTORY: &'static str = "No previous retry history for this intent.";

/// The model a fallback provider uses when none is configured.
pub const DEFAULT_FALLBACK_MODEL: &'static str = "grok-3-mini-fast";

/// The retry history as the prompt shows it: the summary, or a note that there is none when
/// the summary is blank.
pub open spec fn history_block(summary: Seq<char>) -> Seq<char> {
    if trim_spec(summary).len() == 0 {
        NO_HISTORY@
    } else {
        summary
    }
}

/// The chain-of-thought prompt for a failure.
pub open spec fn failure_prompt(
    bundle_id: Seq<char>,
    failure_type: Seq<char>,
    slot: u64,
    tip: u64,
    latency: i64,
    extra: Seq<char>,
    history: Seq<char>,
) -> Seq<char> {
    PROMPT_OPENING@ + bundle_id + PROMPT_FAILURE_TYPE@ + failure_type + PROMPT_SLOT@ + decimal(
        slot as nat,
    ) + PROMPT_TIP@ + decimal(tip as nat) + PROMPT_LATENCY@ + signed_decimal(latency as int)
        + PROMPT_DETAILS@ + extra + PROMPT_HISTORY@ + history_block(history) + PROMPT_CLOSING@
}

/// A model response with surrounding white space and a Markdown code fence (```json or ```)
/// removed. When the opening fence has no closing fence the trimmed response is kept whole.
pub open spec fn cleaned_response(content: Seq<char>) -> Seq<char> {
    let t = trim_spec(content);
    let a = if has_prefix(t, "```json"@) {
        t.subrange("```json"@.len() as int, t.len() as int)
    } else if has_prefix(t, "```"@) {
        t.subrange("```"@.len() as int, t.len() as int)
    } else {
        t
    };
    let b = if has_suffix(a, "```"@) {
        a.subrange(0, a.len() - "```"@.len())
    } else {
        t
    };
    trim_spec(b)
}

/// The URL a request goes to: Gemini takes the API key as a `key` query parameter (joined
/// with `&` when the URL already has a query, `?` otherwise); other providers use the URL as
/// it is.
pub open spec fn request_url_spec(provider: ProviderType, url: Seq<char>, key: Seq<char>) -> Seq<char> {
    if provider == ProviderType::Gemini {
        if url.contains('?') {
            url + "&key="@ + key
        } else {
            url + "?key="@ + key
        }
    } else {
        url
    }
}

/// The `Authorization` header a request carries: a bearer token for OpenAI-compatible
/// providers and xAI, none for Gemini and Ollama.
pub open spec fn authorization_spec(provider: ProviderType, key: Seq<char>) -> Option<Seq<char>> {
    if provider == ProviderType::OpenAi || provider == ProviderType::Grok {
        Some("Bearer "@ + key)
    } else {
        None
    }
}

/// An LLM endpoint to call: its URL, API key and model.
pub struct LlmEndpoint {
    pub url: String,
    pub key: String,
    pub model: String,
}

/// The AI agent's configuration: the primary LLM endpoint and the optional fallback one.
pub struct AiAgent {
    pub api_url: String,
    pub api_key: String,
    pub model: String,
    pub fallback_url: Option<String>,
    pub fallback_key: Option<String>,
    pub fallback_model: Option<String>,
}

impl AiAgent {
    /// An agent calling `api_url` with `api_key` and `model`, and the fallback endpoint
    /// where one is configured.
    pub fn new(
        api_url: String,
        api_key: String,
        model: String,
        fallback_url: Option<String>,
        fallback_key: Option<String>,
        fallback_model: Option<String>,
    ) -> (r: AiAgent)
        ensures
            r.api_url == api_url,
            r.api_key == api_key,
            r.model == model,
            r.fallback_url == fallback_url,
            r.fallback_key == fallback_key,
            r.fallback_model == fallback_model,
    {
        AiAgent { api_url, api_key, model, fallback_url, fallback_key, fallback_model }
    }

    /// The endpoint that is tried first.
    pub fn primary_endpoint(&self) -> (r: LlmEndpoint)
        ensures
            r.url@ == self.api_url@,
            r.key@ == self.api_key@,
            r.model@ == self.model@,
    {
        LlmEndpoint { url: self.api_url.clone(), key: self.api_key.clone(), model: self.model.clone() }
    }

    /// The endpoint tried when the primary one fails: there is one exactly when both a
    /// fallback URL and a fallback key are configured, and its model is the configured
    /// fallback model or `grok-3-mini-fast`.
    pub fn fallback_endpoint(&self) -> (r: Option<LlmEndpoint>)
        ensures
            r is Some <==> (self.fallback_url is Some && self.fallback_key is Some),
            r matches Some(e) ==> {
                &&& e.url@ == self.fallback_url.unwrap()@
                &&& e.key@ == self.fallback_key.unwrap()@
                &&& e.model@ == match self.fallback_model {
                    Some(m) => m@,
                    None => DEFAULT_FALLBACK_MODEL@,
                }
            },
    {
        match (&self.fallback_url, &self.fallback_key) {
            (Some(url), Some(key)) => {
                let model = match &self.fallback_model {
                    Some(m) => m.clone(),
                    None => String::from_str(DEFAULT_FALLBACK_MODEL),
                };
                Some(LlmEndpoint { url: url.clone(), key: key.clone(), model })
            },
            _ => None,
        }
    }
}

/// Builds the chain-of-thought prompt for a failure.
pub fn build_failure_reasoning_prompt(ctx: &FailureContext) -> (r: String)
    ensures
        r@ == failure_prompt(
            ctx.bundle_id@,
            ctx.failure_type@,
            ctx.slot,
            ctx.tip,
            ctx.latency,
            ctx.extra@,
            ctx.history_summary@,
        ),
{
    let summary = trim(ctx.history_summary.as_str());
    let mut p = String::from_str(PROMPT_OPENING);
    p.append(ctx.bundle_id.as_str());
    p.append(PROMPT_FAILURE_TYPE);
    p.append(ctx.failure_type.as_str());
    p.append(PROMPT_SLOT);
    p.append(u64_to_decimal(ctx.slot).as_str());
    p.append(PROMPT_TIP);
    p.append(u64_to_decimal(ctx.tip).as_str());
    p.append(PROMPT_LATENCY);
    p.append(i64_to_decimal(ctx.latency).as_str());
    p.append(PROMPT_DETAILS);
    p.append(ctx.extra.as_str());
    p.append(PROMPT_HISTORY);
    if summary.as_str().unicode_len() == 0 {
        p.append(NO_HISTORY);
    } else {
        p.append(ctx.history_summary.as_str());
    }
    p.append(PROMPT_CLOSING);
    p
}

/// Strips white space and a Markdown code fence from a model response.
pub fn clean_json_response(content: &str) -> (r: String)
    ensures
        r@ == cleaned_response(content@),
{
    let t = trim(content);
    let a = match strip_prefix(t.as_str(), "```json") {
        Some(x) => x,
        None => match strip_prefix(t.as_str(), "```") {
            Some(x) => x,
            None => t.clone(),
        },
    };
    let b = match strip_suffix(a.as_str(), "```") {
        Some(x) => x,
        None => t.clone(),
    };
    trim(b.as_str())
}

/// The URL a request to `provider` at `url` goes to.
pub fn request_url(provider: ProviderType, url: &str, key: &str) -> (r: String)
    ensures
        r@ == request_url_spec(provider, url@, key@),
{
    match provider {
        ProviderType::Gemini => {
            let mut r = String::from_str(url);
            if contains(url, "?") {
                proof {
                    reveal_strlit("?");
                    assert("?"@ == seq!['?']);
                    let i = choose|i: int| 0 <= i && i + 1 <= url@.len() && #[trigger] url@.subrange(i, i + 1) == "?"@;
                    assert(url@[i] == url@.subrange(i, i + 1)[0]);
                }
                r.append("&key=");
            } else {
                proof {
                    reveal_strlit("?");
                    if url@.contains('?') {
                        let i = choose|i: int| 0 <= i < url@.len() && url@[i] == '?';
                        assert(url@.subrange(i, i + 1) =~= "?"@);
                    }
                }
                r.append("?key=");
            }
            r.append(key);
            r
        },
        _ => String::from_str(url),
    }
}

/// The `Authorization` header for a request to `provider`.
pub fn authorization_header(provider: ProviderType, key: &str) -> (r: Option<String>)
    ensures
        match r {
            Some(h) => authorization_spec(provider, key@) == Some(h@),
            None => authorization_spec(provider, key@) is None,
        },
{
    match provider {
        ProviderType::OpenAi | ProviderType::Grok => {
            let mut h = String::from_str("Bearer ");
            h.append(key);
            Some(h)
        },
        _ => None,
    }
}


// ── Request and reply bodies ────────────────────────────────────────────────

/// The system instruction sent with every request.
pub const SYSTEM_PROMPT: &'static str = "You are a Solana transaction agent. Respond ONLY with valid JSON. Do not use markdown code blocks, just raw JSON.";

pub const GEMINI_BODY_OPENING: &'static str = "{\"contents\":[{\"parts\":[{\"text\":";

pub const GEMINI_BODY_SYSTEM: &'static str = "}]}],\"systemInstruction\":{\"parts\":[{\"text\":";

pub const GEMINI_BODY_CLOSING: &'static str = "}]},\"generationConfig\":{\"temperature\":0.0,\"responseMimeType\":\"application/json\"}}";

pub const CHAT_BODY_OPENING: &'static str = "{\"model\":";

pub const CHAT_BODY_SYSTEM: &'static str = ",\"messages\":[{\"role\":\"system\",\"content\":";

pub const CHAT_BODY_USER: &'static str = "},{\"role\":\"user\",\"content\":";

pub const OPENAI_BODY_CLOSING: &'static str = "}],\"temperature\":0.0,\"response_format\":{\"type\":\"json_object\"}}";

pub const OLLAMA_BODY_CLOSING: &'static str = "}],\"stream\":false,\"format\":\"json\"}";

/// The JSON body of a request: for Gemini the prompt as the content and the system
/// instruction, at temperature 0 with a JSON response type; for OpenAI-compatible providers
/// and xAI the model and the system and user messages, at temperature 0 with a JSON-object
/// response format; for Ollama the model and the two messages, unstreamed, in JSON format.
pub open spec fn request_body_spec(provider: ProviderType, model: Seq<char>, prompt: Seq<char>) -> Seq<char> {
    match provider {
        ProviderType::Gemini => GEMINI_BODY_OPENING@ + json_quoted(prompt) + GEMINI_BODY_SYSTEM@ + json_quoted(
            SYSTEM_PROMPT@,
        ) + GEMINI_BODY_CLOSING@,
        ProviderType::Ollama => CHAT_BODY_OPENING@ + json_quoted(model) + CHAT_BODY_SYSTEM@ + json_quoted(
            SYSTEM_PROMPT@,
        ) + CHAT_BODY_USER@ + json_quoted(prompt) + OLLAMA_BODY_CLOSING@,
        _ => CHAT_BODY_OPENING@ + json_quoted(model) + CHAT_BODY_SYSTEM@ + json_quoted(SYSTEM_PROMPT@)
            + CHAT_BODY_USER@ + json_quoted(prompt) + OPENAI_BODY_CLOSING@,
    }
}

/// The JSON body of a request to `provider` for `model` with `prompt`.
pub fn request_body(provider: ProviderType, model: &str, prompt: &str) -> (r: String)
    ensures
        r@ == request_body_spec(provider, model@, prompt@),
{
    match provider {
        ProviderType::Gemini => {
            let mut b = String::from_str(GEMINI_BODY_OPENING);
            b.append(json_string_literal(prompt).as_str());
            b.append(GEMINI_BODY_SYSTEM);
            b.append(json_string_literal(SYSTEM_PROMPT).as_str());
            b.append(GEMINI_BODY_CLOSING);
            b
        },
        _ => {
            let mut b = String::from_str(CHAT_BODY_OPENING);
            b.append(json_string_literal(model).as_str());
            b.append(CHAT_BODY_SYSTEM);
            b.append(json_string_literal(SYSTEM_PROMPT).as_str());
            b.append(CHAT_BODY_USER);
            b.append(json_string_literal(prompt).as_str());
            match provider {
                ProviderType::Ollama => b.append(OLLAMA_BODY_CLOSING),
                _ => b.append(OPENAI_BODY_CLOSING),
            }
            b
        },
    }
}

/// Where a provider's reply carries the model's text, as a JSON pointer.
pub open spec fn content_pointer_spec(provider: ProviderType) -> Seq<char> {
    match provider {
        ProviderType::Gemini => "/candidates/0/content/parts/0/text"@,
        ProviderType::Ollama => "/message/content"@,
        _ => "/choices/0/message/content"@,
    }
}

/// The JSON pointer to the model's text in a reply from `provider`.
pub fn content_pointer(provider: ProviderType) -> (r: &'static str)
    ensures
        r@ == content_pointer_spec(provider),
{
    match provider {
        ProviderType::Gemini => "/candidates/0/content/parts/0/text",
        ProviderType::Ollama => "/message/content",
        _ => "/choices/0/message/content",
    }
}

/// The model's answer in a successful reply from `provider`: the text at the provider's
/// content pointer, cleaned of white space and a Markdown fence; `None` when the reply is
/// not JSON or holds no text there.
pub fn reply_content(provider: ProviderType, body: &str) -> (r: Option<String>)
    ensures
        r is Some <==> json_text_at(body@, content_pointer_spec(provider)) is Some,
        r is Some ==> r->0@ == cleaned_response(json_text_at(body@, content_pointer_spec(provider))->0),
{
    match json_string_at(body, content_pointer(provider)) {
        Some(text) => Some(clean_json_response(text.as_str())),
        None => None,
    }
}


proof fn lemma_ends_with(a: Seq<char>, b: Seq<char>)
    ensures
        has_suffix(a + b, b),
{
    assert((a + b).subrange(a.len() as int, (a + b).len() as int) =~= b);
}

proof fn lemma_starts_with(a: Seq<char>, b: Seq<char>)
    ensures
        has_prefix(a + b, a),
{
    assert((a + b).subrange(0, a.len() as int) =~= a);
}

/// What each provider is sent: OpenAI and xAI get the same chat body, which names the model
/// and ends by asking for temperature 0 and a JSON object; Ollama's names the model and ends
/// by asking for an unstreamed JSON answer; Gemini's starts with the prompt as the content
/// and ends by asking for temperature 0 and a JSON response type.
pub proof fn law_request_bodies(model: Seq<char>, prompt: Seq<char>)
    ensures
        request_body_spec(ProviderType::OpenAi, model, prompt) == request_body_spec(ProviderType::Grok, model, prompt),
        has_prefix(request_body_spec(ProviderType::OpenAi, model, prompt), "{\"model\":"@ + json_quoted(model)),
        has_suffix(
            request_body_spec(ProviderType::OpenAi, model, prompt),
            "}],\"temperature\":0.0,\"response_format\":{\"type\":\"json_object\"}}"@,
        ),
        has_prefix(request_body_spec(ProviderType::Ollama, model, prompt), "{\"model\":"@ + json_quoted(model)),
        has_suffix(request_body_spec(ProviderType::Ollama, model, prompt), "}],\"stream\":false,\"format\":\"json\"}"@),
        has_prefix(
            request_body_spec(ProviderType::Gemini, model, prompt),
            "{\"contents\":[{\"parts\":[{\"text\":"@ + json_quoted(prompt),
        ),
        has_suffix(
            request_body_spec(ProviderType::Gemini, model, prompt),
            "}]},\"generationConfig\":{\"temperature\":0.0,\"responseMimeType\":\"application/json\"}}"@,
        ),
{
    let q = json_quoted(SYSTEM_PROMPT@);
    let chat = CHAT_BODY_OPENING@ + json_quoted(model);
    let chat_rest = CHAT_BODY_SYSTEM@ + q + CHAT_BODY_USER@ + json_quoted(prompt);
    let openai = request_body_spec(ProviderType::OpenAi, model, prompt);
    let ollama = request_body_spec(ProviderType::Ollama, model, prompt);
    let gemini = request_body_spec(ProviderType::Gemini, model, prompt);
    assert(openai =~= chat + (chat_rest + OPENAI_BODY_CLOSING@));
    lemma_starts_with(chat, chat_rest + OPENAI_BODY_CLOSING@);
    assert(openai =~= (chat + chat_rest) + OPENAI_BODY_CLOSING@);
    lemma_ends_with(chat + chat_rest, OPENAI_BODY_CLOSING@);
    assert(ollama =~= chat + (chat_rest + OLLAMA_BODY_CLOSING@));
    lemma_starts_with(chat, chat_rest + OLLAMA_BODY_CLOSING@);
    assert(ollama =~= (chat + chat_rest) + OLLAMA_BODY_CLOSING@);
    lemma_ends_with(chat + chat_rest, OLLAMA_BODY_CLOSING@);
    let g = GEMINI_BODY_OPENING@ + json_quoted(prompt);
    let g_rest = GEMINI_BODY_SYSTEM@ + q;
    assert(gemini =~= g + (g_rest + GEMINI_BODY_CLOSING@));
    lemma_starts_with(g, g_rest + GEMINI_BODY_CLOSING@);
    assert(gemini =~= (g + g_rest) + GEMINI_BODY_CLOSING@);
    lemma_ends_with(g + g_rest, GEMINI_BODY_CLOSING@);
}

} // verus!
