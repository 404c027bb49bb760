use vstd::prelude::*;
use vstd::string::*;

use std::collections::HashMap;

use crate::encoding::{base58_encode, base58_text};
use crate::time::UtcTime;
use crate::types::lifecycle::{clone_opt_string, opt_str_view, strs_view};
use crate::types::streaming::{SlotUpdate, TransactionUpdate};

verus! {

broadcast use vstd::std_specs::hash::group_hash_axioms;

/// The reconnection delay after the first failure, in seconds.
pub const INITIAL_BACKOFF_SECS: u64 = 1;

/// The longest reconnection delay, in seconds.
pub const MAX_BACKOFF_SECS: u64 = 30;

/// How many slots ahead of the current one a Jito leader is looked for.
pub const LOOKAHEAD_SLOTS: u64 = 4;

/// The leader schedule is refreshed on every slot that is a multiple of this.
pub const SCHEDULE_REFRESH_INTERVAL: u64 = 100;

// ── Reconnection ────────────────────────────────────────────────────────────

/// The delay before the next reconnection: double the last one, at most thirty seconds.
pub open spec fn backoff_after(backoff_secs: u64) -> u64 {
    if backoff_secs * 2 < MAX_BACKOFF_SECS {
        (backoff_secs * 2) as u64
    } else {
        MAX_BACKOFF_SECS
    }
}

/// The delay before the next reconnection attempt after another failure.
pub fn next_backoff(backoff_secs: u64) -> (r: u64)
    requires
        backoff_secs <= u64::MAX / 2,
    ensures
        r == backoff_after(backoff_secs),
{
    let doubled = backoff_secs * 2;
    if doubled < MAX_BACKOFF_SECS {
        doubled
    } else {
        MAX_BACKOFF_SECS
    }
}

/// Starting from the initial delay, the reconnection delay stays between one and thirty
/// seconds however many failures follow, and grows with each one until it reaches thirty.
pub proof fn law_backoff_bounded(backoff_secs: u64)
    requires
        INITIAL_BACKOFF_SECS <= backoff_secs <= MAX_BACKOFF_SECS,
    ensures
        INITIAL_BACKOFF_SECS <= backoff_after(backoff_secs) <= MAX_BACKOFF_SECS,
        backoff_secs < MAX_BACKOFF_SECS ==> backoff_secs < backoff_after(backoff_secs),
{
}

/// How one attempt of the stream loop ended.
#[derive(Debug, Clone, Copy, PartialEq, Eq, Structural)]
pub enum StreamOutcome {
    /// The gRPC client was not ready.
    NotReady,
    /// The subscription request failed.
    SubscribeFailed,
    /// The subscription succeeded; the stream is being read.
    Subscribed,
    /// The stream ended after a successful subscription.
    Disconnected,
}

/// What follows an outcome with reconnection delay `backoff_secs`: the seconds to wait
/// before the next attempt, and the delay afterwards. A client that is not ready waits the
/// current delay and keeps it; a failed subscription or a disconnection waits the current
/// delay and doubles it (up to thirty seconds); a successful subscription waits nothing and
/// resets the delay to one second.
pub open spec fn reconnect_spec(backoff_secs: u64, outcome: StreamOutcome) -> (u64, u64) {
    match outcome {
        StreamOutcome::NotReady => (backoff_secs, backoff_secs),
        StreamOutcome::SubscribeFailed => (backoff_secs, backoff_after(backoff_secs)),
        StreamOutcome::Subscribed => (0, INITIAL_BACKOFF_SECS),
        StreamOutcome::Disconnected => (backoff_secs, backoff_after(backoff_secs)),
    }
}

/// The wait before the next attempt and the delay afterwards, after `outcome`.
pub fn reconnect_step(backoff_secs: u64, outcome: StreamOutcome) -> (r: (u64, u64))
    requires
        backoff_secs <= u64::MAX / 2,
    ensures
        r == reconnect_spec(backoff_secs, outcome),
{
    match outcome {
        StreamOutcome::NotReady => (backoff_secs, backoff_secs),
        StreamOutcome::SubscribeFailed => (backoff_secs, next_backoff(backoff_secs)),
        StreamOutcome::Subscribed => (0, INITIAL_BACKOFF_SECS),
        StreamOutcome::Disconnected => (backoff_secs, next_backoff(backoff_secs)),
    }
}

/// The delay after `n` failures in a row since the last successful subscription.
pub open spec fn backoff_after_failures(n: nat) -> u64
    decreases n,
{
    if n == 0 {
        INITIAL_BACKOFF_SECS
    } else {
        backoff_after(backoff_after_failures((n - 1) as nat))
    }
}

/// Whatever the outcomes, the wait before a reconnection is at most thirty seconds and the
/// delay stays between one and thirty seconds; a successful subscription resets it to one
/// second.
pub proof fn law_reconnect_bounded(backoff_secs: u64, outcome: StreamOutcome)
    requires
        INITIAL_BACKOFF_SECS <= backoff_secs <= MAX_BACKOFF_SECS,
    ensures
        reconnect_spec(backoff_secs, outcome).0 <= MAX_BACKOFF_SECS,
        INITIAL_BACKOFF_SECS <= reconnect_spec(backoff_secs, outcome).1 <= MAX_BACKOFF_SECS,
        outcome == StreamOutcome::Subscribed ==> reconnect_spec(backoff_secs, outcome).1 == INITIAL_BACKOFF_SECS,
{
}

/// After a successful subscription the waits run 1, 2, 4, 8, 16 seconds, then thirty
/// seconds for every further failure.
pub proof fn law_backoff_sequence(n: nat)
    ensures
        backoff_after_failures(0) == 1,
        backoff_after_failures(1) == 2,
        backoff_after_failures(2) == 4,
        backoff_after_failures(3) == 8,
        backoff_after_failures(4) == 16,
        n >= 5 ==> backoff_after_failures(n) == MAX_BACKOFF_SECS,
    decreases n,
{
    assert(backoff_after_failures(0) == 1);
    assert(backoff_after_failures(1) == 2);
    assert(backoff_after_failures(2) == 4);
    assert(backoff_after_failures(3) == 8);
    assert(backoff_after_failures(4) == 16);
    assert(backoff_after_failures(5) == 30);
    if n > 5 {
        law_backoff_sequence((n - 1) as nat);
    }
}

/// The reconnection delay after the outcomes of a run, starting from the initial delay.
pub open spec fn delay_after_run(outcomes: Seq<StreamOutcome>) -> u64
    decreases outcomes.len(),
{
    if outcomes.len() == 0 {
        INITIAL_BACKOFF_SECS
    } else {
        reconnect_spec(delay_after_run(outcomes.drop_last()), outcomes.last()).1
    }
}

/// The wait that follows outcome `i` of a run.
pub open spec fn run_wait(outcomes: Seq<StreamOutcome>, i: int) -> u64 {
    reconnect_spec(delay_after_run(outcomes.take(i)), outcomes[i]).0
}

/// The failed subscriptions and disconnections of a run since its last successful
/// subscription (or its start); a client that was not ready does not count.
pub open spec fn failures_since_subscribe(outcomes: Seq<StreamOutcome>) -> nat
    decreases outcomes.len(),
{
    if outcomes.len() == 0 {
        0
    } else {
        match outcomes.last() {
            StreamOutcome::Subscribed => 0,
            StreamOutcome::NotReady => failures_since_subscribe(outcomes.drop_last()),
            _ => failures_since_subscribe(outcomes.drop_last()) + 1,
        }
    }
}

proof fn lemma_backoff_after_failures_bounded(n: nat)
    ensures
        INITIAL_BACKOFF_SECS <= backoff_after_failures(n) <= MAX_BACKOFF_SECS,
{
    law_backoff_sequence(n);
}

/// Over a whole run from the first attempt, whatever the outcomes: the delay is the one after
/// as many failures as have happened since the last successful subscription (1, 2, 4, 8, 16,
/// then 30 seconds), it stays between one and thirty seconds, and every wait before a new
/// attempt is that delay (none after a successful subscription), so none exceeds thirty
/// seconds.
pub proof fn law_run_backoff(outcomes: Seq<StreamOutcome>)
    ensures
        delay_after_run(outcomes) == backoff_after_failures(failures_since_subscribe(outcomes)),
        INITIAL_BACKOFF_SECS <= delay_after_run(outcomes) <= MAX_BACKOFF_SECS,
        forall|i: int|
            0 <= i < outcomes.len() ==> #[trigger] run_wait(outcomes, i) <= MAX_BACKOFF_SECS && (outcomes[i]
                == StreamOutcome::Subscribed ==> run_wait(outcomes, i) == 0) && (outcomes[i]
                != StreamOutcome::Subscribed ==> run_wait(outcomes, i) == delay_after_run(outcomes.take(i))),
    decreases outcomes.len(),
{
    if outcomes.len() > 0 {
        let prev = outcomes.drop_last();
        law_run_backoff(prev);
        let k = failures_since_subscribe(prev);
        lemma_backoff_after_failures_bounded(k);
        assert(backoff_after_failures(k + 1) == backoff_after(backoff_after_failures(k)));
        assert(backoff_after_failures(0) == INITIAL_BACKOFF_SECS);
        assert forall|i: int|
            0 <= i < outcomes.len() implies #[trigger] run_wait(outcomes, i) <= MAX_BACKOFF_SECS && (outcomes[i]
                == StreamOutcome::Subscribed ==> run_wait(outcomes, i) == 0) && (outcomes[i]
                != StreamOutcome::Subscribed ==> run_wait(outcomes, i) == delay_after_run(outcomes.take(i))) by {
            if i == outcomes.len() - 1 {
                assert(outcomes.take(i) =~= prev);
            } else {
                assert(outcomes.take(i) =~= prev.take(i));
                assert(outcomes[i] == prev[i]);
                assert(run_wait(prev, i) == run_wait(outcomes, i));
            }
        }
    }
    lemma_backoff_after_failures_bounded(failures_since_subscribe(outcomes));
}

/// Whether the leader schedule is refreshed on this slot.
pub fn should_refresh_leader_schedule(slot: u64) -> (r: bool)
    ensures
        r == (slot % SCHEDULE_REFRESH_INTERVAL == 0),
{
    slot % SCHEDULE_REFRESH_INTERVAL == 0
}

// ── Leader schedule ─────────────────────────────────────────────────────────

/// The schedule after the leaders of the slots from `start` on have been recorded: slot
/// `start + i` is led by `leaders[i]`, and every other slot keeps its entry.
pub open spec fn schedule_with(
    schedule: Map<u64, String>,
    start: u64,
    leaders: Seq<String>,
) -> Map<u64, String> {
    Map::new(
        |k: u64| schedule.contains_key(k) || (start <= k && k < start + leaders.len()),
        |k: u64|
            if start <= k && k < start + leaders.len() {
                leaders[k - start]
            } else {
                schedule[k]
            },
    )
}

/// Whether the schedule names a leader for `slot` that is a Jito validator.
pub open spec fn jito_leads(schedule: Map<u64, String>, validators: Seq<String>, slot: int) -> bool {
    &&& 0 <= slot <= u64::MAX
    &&& schedule.contains_key(slot as u64)
    &&& strs_view(validators).contains(schedule[slot as u64]@)
}

/// Whether a Jito validator leads the current slot or one of the next four.
pub open spec fn jito_leader_ahead(
    schedule: Map<u64, String>,
    validators: Seq<String>,
    current_slot: u64,
) -> bool {
    exists|i: int| 0 <= i <= LOOKAHEAD_SLOTS && #[trigger] jito_leads(schedule, validators, current_slot + i)
}

/// Whether `s` is one of `v`.
fn contains_string(v: &Vec<String>, s: &String) -> (r: bool)
    ensures
        r == strs_view(v@).contains(s@),
{
    let mut i: usize = 0;
    while i < v.len()
        invariant
            i <= v@.len(),
            forall|k: int| 0 <= k < i ==> v@[k]@ != s@,
        decreases v@.len() - i,
    {
        if v[i] == *s {
            assert(strs_view(v@)[i as int] == s@);
            return true;
        }
        i += 1;
    }
    proof {
        if strs_view(v@).contains(s@) {
            let k = choose|k: int| 0 <= k < strs_view(v@).len() && strs_view(v@)[k] == s@;
            assert(v@[k]@ == s@);
        }
    }
    false
}

proof fn lemma_push_contains(s: Seq<Seq<char>>, x: Seq<char>, v: Seq<char>)
    ensures
        s.push(x).contains(v) == (s.contains(v) || v == x),
{
    if s.push(x).contains(v) {
        let k = choose|k: int| 0 <= k < s.push(x).len() && s.push(x)[k] == v;
        if k < s.len() {
            assert(s[k] == s.push(x)[k]);
        }
    }
    if s.contains(v) {
        let k = choose|k: int| 0 <= k < s.len() && s[k] == v;
        assert(s.push(x)[k] == s[k]);
    }
    assert(s.push(x)[s.len() as int] == x);
}

/// The state of the Yellowstone stream client that its decisions read: where it connects,
/// whose transactions it follows, the leader schedule it has learnt and the validators that
/// run Jito.
///
/// The Jito validators are the set of their identities, held as a list without duplicates
/// (the constructor drops repeats) and only ever searched.
pub struct YellowstoneStreamer {
    pub endpoint: String,
    pub x_token: Option<String>,
    pub leader_schedule: HashMap<u64, String>,
    pub payer_pubkey: String,
    pub jito_validators: Vec<String>,
}

impl YellowstoneStreamer {
    /// A streamer for `endpoint` with an empty leader schedule. The Jito validators are kept
    /// as a set: each identity once, in the order first given.
    pub fn new(
        endpoint: &str,
        x_token: Option<String>,
        payer_pubkey: String,
        jito_validators: Vec<String>,
    ) -> (r: YellowstoneStreamer)
        ensures
            r.endpoint@ == endpoint@,
            opt_str_view(r.x_token) == opt_str_view(x_token),
            r.leader_schedule@ == Map::<u64, String>::empty(),
            r.payer_pubkey == payer_pubkey,
            strs_view(r.jito_validators@).no_duplicates(),
            forall|v: Seq<char>|
                #[trigger] strs_view(r.jito_validators@).contains(v) == strs_view(jito_validators@).contains(v),
    {
        let mut set: Vec<String> = Vec::new();
        let mut i: usize = 0;
        while i < jito_validators.len()
            invariant
                i <= jito_validators@.len(),
                strs_view(set@).no_duplicates(),
                forall|v: Seq<char>|
                    #[trigger] strs_view(set@).contains(v) == strs_view(jito_validators@.take(i as int)).contains(v),
            decreases jito_validators@.len() - i,
        {
            let ghost prev = set@;
            let ghost x = jito_validators@[i as int]@;
            let ghost before = strs_view(jito_validators@.take(i as int));
            assert(strs_view(jito_validators@.take(i + 1)) =~= before.push(x));
            if !contains_string(&set, &jito_validators[i]) {
                set.push(jito_validators[i].clone());
                assert(strs_view(set@) =~= strs_view(prev).push(x));
                proof {
                    assert forall|a: int, b: int|
                        0 <= a < strs_view(set@).len() && 0 <= b < strs_view(set@).len() && a != b
                        implies strs_view(set@)[a] != strs_view(set@)[b] by {
                        if a < prev.len() && b < prev.len() {
                            assert(strs_view(set@)[a] == strs_view(prev)[a]);
                            assert(strs_view(set@)[b] == strs_view(prev)[b]);
                        } else if a < prev.len() {
                            assert(strs_view(set@)[a] == strs_view(prev)[a]);
                        } else {
                            assert(strs_view(set@)[b] == strs_view(prev)[b]);
                        }
                    }
                    assert forall|v: Seq<char>|
                        #[trigger] strs_view(set@).contains(v) == strs_view(jito_validators@.take(i + 1)).contains(v) by {
                        lemma_push_contains(strs_view(prev), x, v);
                        lemma_push_contains(before, x, v);
                    }
                }
            } else {
                proof {
                    assert forall|v: Seq<char>|
                        #[trigger] strs_view(set@).contains(v) == strs_view(jito_validators@.take(i + 1)).contains(v) by {
                        lemma_push_contains(before, x, v);
                    }
                }
            }
            i += 1;
        }
        assert(jito_validators@.take(jito_validators@.len() as int) =~= jito_validators@);
        YellowstoneStreamer {
            endpoint: String::from_str(endpoint),
            x_token,
            leader_schedule: HashMap::new(),
            payer_pubkey,
            jito_validators: set,
        }
    }

    /// Records the leaders of the slots from `start_slot` on, as the RPC node listed them.
    pub fn update_leader_schedule(&mut self, start_slot: u64, leaders: &Vec<String>)
        requires
            start_slot + leaders@.len() <= u64::MAX + 1,
        ensures
            final(self).leader_schedule@ == schedule_with(old(self).leader_schedule@, start_slot, leaders@),
            final(self).endpoint == old(self).endpoint,
            final(self).x_token == old(self).x_token,
            final(self).payer_pubkey == old(self).payer_pubkey,
            final(self).jito_validators == old(self).jito_validators,
    {
        let ghost old_schedule = self.leader_schedule@;
        let mut i: usize = 0;
        while i < leaders.len()
            invariant
                i <= leaders@.len(),
                start_slot + leaders@.len() <= u64::MAX + 1,
                self.leader_schedule@ == schedule_with(old_schedule, start_slot, leaders@.take(i as int)),
                self.endpoint == old(self).endpoint,
                self.x_token == old(self).x_token,
                self.payer_pubkey == old(self).payer_pubkey,
                self.jito_validators == old(self).jito_validators,
            decreases leaders@.len() - i,
        {
            let slot: u64 = start_slot + i as u64;
            self.leader_schedule.insert(slot, leaders[i].clone());
            proof {
                assert(self.leader_schedule@ =~= schedule_with(old_schedule, start_slot, leaders@.take(i + 1)));
            }
            i += 1;
        }
        proof {
            assert(leaders@.take(leaders@.len() as int) =~= leaders@);
        }
    }

    /// Whether a Jito validator leads the current slot or one of the next four, so that a
    /// bundle submitted now is likely to land.
    pub fn is_optimal_submission_window(&self, current_slot: u64) -> (r: bool)
        requires
            current_slot + LOOKAHEAD_SLOTS <= u64::MAX,
        ensures
            r == jito_leader_ahead(self.leader_schedule@, self.jito_validators@, current_slot),
    {
        let mut i: u64 = 0;
        while i <= LOOKAHEAD_SLOTS
            invariant
                i <= LOOKAHEAD_SLOTS + 1,
                current_slot + LOOKAHEAD_SLOTS <= u64::MAX,
                forall|j: int| 0 <= j < i ==> !#[trigger] jito_leads(self.leader_schedule@, self.jito_validators@, current_slot + j),
            decreases LOOKAHEAD_SLOTS + 1 - i,
        {
            let slot = current_slot + i;
            match self.leader_schedule.get(&slot) {
                Some(leader) => {
                    if contains_string(&self.jito_validators, leader) {
                        assert(jito_leads(self.leader_schedule@, self.jito_validators@, current_slot + i));
                        return true;
                    }
                },
                None => {},
            }
            assert(!jito_leads(self.leader_schedule@, self.jito_validators@, current_slot + i));
            i += 1;
        }
        false
    }

    /// The update to emit for a slot seen on the stream at `now`, naming its leader when the
    /// schedule knows it.
    pub fn slot_update(&self, slot: u64, status: i32, now: UtcTime) -> (r: SlotUpdate)
        ensures
            r.slot == slot,
            r.status == status,
            r.timestamp == now,
            r.block_height is None,
            r.leader == (if self.leader_schedule@.contains_key(slot) {
                Some(self.leader_schedule@[slot])
            } else {
                None
            }),
    {
        let leader = match self.leader_schedule.get(&slot) {
            Some(l) => Some(l.clone()),
            None => None,
        };
        SlotUpdate { slot, timestamp: now, leader, status, block_height: None }
    }
}

/// The update to emit for a transaction seen on the stream: its signature in base58, its
/// slot, and its error as the node described it.
pub fn transaction_update(signature_bytes: &Vec<u8>, slot: u64, error: Option<String>) -> (r: TransactionUpdate)
    ensures
        r.signature@ == base58_text(signature_bytes@),
        r.slot == slot,
        opt_str_view(r.error) == opt_str_view(error),
{
    TransactionUpdate { signature: base58_encode(signature_bytes), slot, error }
}

/// Once the leaders from `start_slot` on have been recorded, whether the window at a slot
/// they cover is optimal depends only on whether one of the five leaders from that slot on
/// is a Jito validator.
pub proof fn law_window_follows_recorded_leaders(
    schedule: Map<u64, String>,
    validators: Seq<String>,
    start_slot: u64,
    leaders: Seq<String>,
    current_slot: u64,
)
    requires
        start_slot <= current_slot,
        current_slot + LOOKAHEAD_SLOTS < start_slot + leaders.len(),
        start_slot + leaders.len() <= u64::MAX + 1,
    ensures
        jito_leader_ahead(schedule_with(schedule, start_slot, leaders), validators, current_slot)
            <==> exists|i: int| 0 <= i <= LOOKAHEAD_SLOTS && strs_view(validators).contains(
                #[trigger] leaders[current_slot - start_slot + i]@,
            ),
{
    let m = schedule_with(schedule, start_slot, leaders);
    if jito_leader_ahead(m, validators, current_slot) {
        let i = choose|i: int| 0 <= i <= LOOKAHEAD_SLOTS && #[trigger] jito_leads(m, validators, current_slot + i);
        assert(strs_view(validators).contains(leaders[current_slot - start_slot + i]@));
    }
    if exists|i: int| 0 <= i <= LOOKAHEAD_SLOTS && strs_view(validators).contains(
        #[trigger] leaders[current_slot - start_slot + i]@,
    ) {
        let i = choose|i: int| 0 <= i <= LOOKAHEAD_SLOTS && strs_view(validators).contains(
            #[trigger] leaders[current_slot - start_slot + i]@,
        );
        assert(jito_leads(m, validators, current_slot + i));
    }
}

} // verus!
