use vstd::prelude::*;
use vstd::string::*;

use crate::engine::tip::{fallback_retry_tip, fallback_tip};
use crate::engine::tracker::MAX_RETRIES;
use crate::text::{decimal, str_eq, u64_to_decimal};
use crate::types::ai::AgentDecision;

verus! {

/// The root cause recorded when the AI agent gives no decision.
pub const AI_UNAVAILABLE: &'static str = "AI unavailable";

/// The action taken when the AI agent gives no decision: retry with a higher tip.
pub const FALLBACK_ACTION: &'static str = "retry_higher_tip";

/// A bundle submission is attempted on every tenth slot.
pub const SUBMISSION_SLOT_INTERVAL: u64 = 10;

/// What to do about a bundle whose blockhash expired.
pub enum ExpiryAction {
    /// The chain has used up its retries.
    Abandon,
    /// The agent decided on something other than a resubmission (to abort, or to wait for a
    /// better window): nothing is resubmitted.
    Stop,
    /// Resubmit the intent: its retry count, the tip to pay (none: compute a dynamic tip),
    /// its updated history, and the reason given.
    Retry { retries: u32, override_tip: Option<u64>, history: String, reason: String },
}

/// The reason of a retry: the agent's root cause, or that the agent was unavailable.
pub open spec fn retry_reason(decision: Option<AgentDecision>) -> Seq<char> {
    match decision {
        Some(d) => d.root_cause@,
        None => AI_UNAVAILABLE@,
    }
}

/// The action of a retry: the agent's action, or the higher-tip fallback.
pub open spec fn retry_action(decision: Option<AgentDecision>) -> Seq<char> {
    match decision {
        Some(d) => d.action@,
        None => FALLBACK_ACTION@,
    }
}

/// The tip of a retry: the agent's suggested tip (none: a dynamic one), or one and a half
/// times the failed tip when the agent gave no decision.
pub open spec fn retry_tip(tip: u64, decision: Option<AgentDecision>) -> Option<u64> {
    match decision {
        Some(d) => d.new_tip_lamports,
        None => Some(fallback_tip(tip)),
    }
}

/// The history of a chain after its `n`-th retry: one line `n: reason -> action; ` more.
pub open spec fn history_after(history: Seq<char>, n: nat, reason: Seq<char>, action: Seq<char>) -> Seq<char> {
    history + decimal(n) + ": "@ + reason + " -> "@ + action + "; "@
}

/// Whether the agent's decision calls for a resubmission: "refresh_blockhash" or
/// "retry_higher_tip" (any other action, such as "abort" or "wait", resubmits nothing).
/// Without a decision the fallback resubmits with a higher tip.
pub open spec fn resubmits(decision: Option<AgentDecision>) -> bool {
    match decision {
        Some(d) => d.action@ == "refresh_blockhash"@ || d.action@ == FALLBACK_ACTION@,
        None => true,
    }
}

/// Decides what follows the blockhash expiry of a bundle in a chain retried `retry_count`
/// times so far, with tip `tip` and history `history`, given the AI agent's decision (none
/// when the agent could not be reached): abandon the chain once it has had its retries,
/// resubmit when the agent refreshes the blockhash or raises the tip (with the agent's tip)
/// or gave no decision (with one and a half times the failed tip), adding one history line,
/// and otherwise stop.
pub fn expiry_step(retry_count: u32, tip: u64, history: &str, decision: Option<AgentDecision>) -> (r: ExpiryAction)
    ensures
        retry_count >= MAX_RETRIES ==> r is Abandon,
        retry_count < MAX_RETRIES && !resubmits(decision) ==> r is Stop,
        retry_count < MAX_RETRIES && resubmits(decision) ==> (r matches ExpiryAction::Retry {
            retries,
            override_tip,
            history: h,
            reason,
        } && retries == retry_count + 1 && override_tip == retry_tip(tip, decision) && reason@ == retry_reason(
            decision,
        ) && h@ == history_after(
            history@,
            (retry_count + 1) as nat,
            retry_reason(decision),
            retry_action(decision),
        )),
{
    if retry_count >= MAX_RETRIES {
        return ExpiryAction::Abandon;
    }
    let (reason, action, override_tip) = match decision {
        Some(d) => {
            if !(str_eq(d.action.as_str(), "refresh_blockhash") || str_eq(d.action.as_str(), FALLBACK_ACTION)) {
                return ExpiryAction::Stop;
            }
            (d.root_cause, d.action, d.new_tip_lamports)
        },
        None => (
            String::from_str(AI_UNAVAILABLE),
            String::from_str(FALLBACK_ACTION),
            Some(fallback_retry_tip(tip)),
        ),
    };
    let retries = retry_count + 1;
    let mut h = String::from_str(history);
    h.append(u64_to_decimal(retries as u64).as_str());
    h.append(": ");
    h.append(reason.as_str());
    h.append(" -> ");
    h.append(action.as_str());
    h.append("; ");
    ExpiryAction::Retry { retries, override_tip, history: h, reason }
}

/// Whether an intent is submitted at `slot`: on every tenth slot, inside an optimal window.
pub fn submission_due(slot: u64, optimal: bool) -> (r: bool)
    ensures
        r == (slot % SUBMISSION_SLOT_INTERVAL == 0 && optimal),
{
    slot % SUBMISSION_SLOT_INTERVAL == 0 && optimal
}

} // verus!
