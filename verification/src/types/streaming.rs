use vstd::prelude::*;

use crate::time::UtcTime;

verus! {

/// A slot update received from the Yellowstone gRPC stream.
pub struct SlotUpdate {
    pub slot: u64,
    pub timestamp: UtcTime,
    pub leader: Option<String>,
    /// Commitment level: 0 = Processed, 1 = Confirmed, 2 = Finalized, 3 = First shred received.
    pub status: i32,
    /// Current block height at this slot, used for proper blockhash expiry detection.
    pub block_height: Option<u64>,
}

/// A transaction update received from the Yellowstone gRPC stream.
pub struct TransactionUpdate {
    pub signature: String,
    pub slot: u64,
    pub error: Option<String>,
}

/// Events emitted by the Yellowstone streamer to the orchestrator.
pub enum StreamEvent {
    Slot(SlotUpdate),
    Transaction(TransactionUpdate),
}

/// Health metrics for the Yellowstone gRPC stream.
pub struct StreamHealthMetrics {
    /// Timestamp of the last message received from the stream.
    pub last_message_at: Option<UtcTime>,
    /// Total number of reconnections since startup.
    pub reconnection_count: u64,
    /// Messages received in the current measurement window.
    pub messages_in_window: u64,
    /// Start of the current measurement window.
    pub window_start: Option<UtcTime>,
    /// Total slot updates received.
    pub total_slot_updates: u64,
    /// Total transaction updates received.
    pub total_tx_updates: u64,
    /// Total messages dropped due to backpressure.
    pub messages_dropped: u64,
}

impl Default for StreamHealthMetrics {
    /// No message seen yet and every counter at zero.
    fn default() -> (r: StreamHealthMetrics)
        ensures
            r.last_message_at is None,
            r.reconnection_count == 0,
            r.messages_in_window == 0,
            r.window_start is None,
            r.total_slot_updates == 0,
            r.total_tx_updates == 0,
            r.messages_dropped == 0,
    {
        StreamHealthMetrics {
            last_message_at: None,
            reconnection_count: 0,
            messages_in_window: 0,
            window_start: None,
            total_slot_updates: 0,
            total_tx_updates: 0,
            messages_dropped: 0,
        }
    }
}

} // verus!
