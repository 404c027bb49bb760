use vstd::prelude::*;
use vstd::string::*;

use crate::text::str_eq;

verus! {

/// The Memo program (v2).
pub const MEMO_PROGRAM_ID: &'static str = "MemoSq4gqABAXKb96qnH8TysNcWxMyWCqXgDLGmfcHr";

/// The fault that makes a memo transaction run out of compute.
pub const COMPUTE_EXCEEDED_FAULT: &'static str = "compute_exceeded";

/// The compute-unit limit set to inject a compute-exceeded fault.
pub const STARVED_COMPUTE_UNIT_LIMIT: u32 = 1;

/// An instruction of a memo transaction.
#[derive(Debug, Clone, Copy, PartialEq, Eq, Structural)]
pub enum MemoInstruction {
    /// The memo itself, signed by the payer.
    Memo,
    /// A compute-budget instruction that sets the compute-unit limit.
    ComputeUnitLimit(u32),
    /// The tip transfer, carried by the last transaction of a bundle.
    Tip,
}

/// Whether a fault is to be injected that exhausts the compute budget.
pub open spec fn injects_compute_fault(fault_injection: Option<Seq<char>>) -> bool {
    fault_injection == Some(COMPUTE_EXCEEDED_FAULT@)
}

/// The instructions of a memo transaction, in order: the memo, then the compute-unit limit
/// of one when a compute-exceeded fault is injected, then the tip when there is one.
pub open spec fn memo_instructions(compute_fault: bool, with_tip: bool) -> Seq<MemoInstruction> {
    seq![MemoInstruction::Memo] + (if compute_fault {
        seq![MemoInstruction::ComputeUnitLimit(STARVED_COMPUTE_UNIT_LIMIT)]
    } else {
        Seq::empty()
    }) + (if with_tip {
        seq![MemoInstruction::Tip]
    } else {
        Seq::empty()
    })
}

/// The instructions that a memo transaction is compiled from.
pub fn memo_instruction_plan(fault_injection: &Option<String>, with_tip: bool) -> (r: Vec<MemoInstruction>)
    ensures
        r@ == memo_instructions(
            injects_compute_fault(
                match fault_injection {
                    Some(f) => Some(f@),
                    None => None,
                },
            ),
            with_tip,
        ),
{
    let mut r: Vec<MemoInstruction> = Vec::new();
    r.push(MemoInstruction::Memo);
    let compute_fault = match fault_injection {
        Some(f) => str_eq(f.as_str(), COMPUTE_EXCEEDED_FAULT),
        None => false,
    };
    if compute_fault {
        r.push(MemoInstruction::ComputeUnitLimit(STARVED_COMPUTE_UNIT_LIMIT));
    }
    if with_tip {
        r.push(MemoInstruction::Tip);
    }
    assert(r@ =~= memo_instructions(compute_fault, with_tip));
    r
}

} // verus!
