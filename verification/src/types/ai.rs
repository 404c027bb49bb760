use vstd::prelude::*;

use crate::text::{contains, is_substring};

verus! {

/// A snapshot of network conditions at the time of failure.
///
/// The recent landing rate, a percentage, is kept as the bit pattern of its IEEE-754 double.
pub struct NetworkSnapshot {
    pub avg_recent_priority_fee: Option<u64>,
    pub p75_recent_priority_fee: Option<u64>,
    pub avg_tip_account_balance: Option<u64>,
    pub current_dynamic_tip: Option<u64>,
    pub slots_since_last_jito_leader: Option<u64>,
    pub recent_landing_rate_pct_bits: Option<u64>,
}

/// Context provided to the AI agent when a failure occurs.
pub struct FailureContext {
    pub intent_id: String,
    pub bundle_id: String,
    pub failure_type: String,
    pub slot: u64,
    pub tip: u64,
    pub latency: i64,
    pub extra: String,
    pub retry_count: u32,
    pub history_summary: String,
    /// Snapshot of current network conditions for the AI agent to consider.
    pub network_snapshot: Option<NetworkSnapshot>,
}

/// The decision produced by the AI agent after reasoning about a failure.
///
/// The agent's confidence (0.0 to 1.0) is kept as the bit pattern of its IEEE-754 double.
pub struct AgentDecision {
    pub reasoning: String,
    pub root_cause: String,
    pub action: String,
    pub new_tip_lamports: Option<u64>,
    pub wait_slots: Option<u64>,
    pub confidence_bits: Option<u64>,
}

/// Configuration for the AI agent's LLM provider(s).
pub struct AiConfig {
    pub primary_api_url: String,
    pub primary_api_key: String,
    pub primary_model: String,
    /// Optional fallback provider for resilience.
    pub fallback_api_url: Option<String>,
    pub fallback_api_key: Option<String>,
    pub fallback_model: Option<String>,
}

/// Identifies which LLM provider format to use.
#[derive(Debug, Clone, Copy, PartialEq, Eq, Structural)]
pub enum LlmProvider {
    /// Google Generative AI (Gemini) — uses `contents` format
    Gemini,
    /// OpenAI-compatible (OpenAI, xAI/Grok, Groq, etc.) — uses `messages` format
    OpenAiCompatible,
}

/// The provider format that an API URL calls for: Gemini for Google's generative-language
/// endpoints, OpenAI-compatible otherwise.
pub open spec fn provider_of_url(url: Seq<char>) -> LlmProvider {
    if is_substring("googleapis.com"@, url) || is_substring("generativelanguage"@, url) {
        LlmProvider::Gemini
    } else {
        LlmProvider::OpenAiCompatible
    }
}

impl LlmProvider {
    /// Auto-detect provider from the API URL.
    pub fn from_url(url: &str) -> (r: Self)
        ensures
            r == provider_of_url(url@),
    {
        if contains(url, "googleapis.com") || contains(url, "generativelanguage") {
            LlmProvider::Gemini
        } else {
            LlmProvider::OpenAiCompatible
        }
    }
}

} // verus!
