use vstd::prelude::*;
use vstd::string::*;

use rand::seq::SliceRandom;

use crate::json::{json_array_at, json_array_texts};
use crate::text::chars_of;
use crate::types::ai::NetworkSnapshot;
use crate::types::lifecycle::{clone_strings, strs_view};

verus! {

broadcast use vstd::seq_lib::group_to_multiset_ensures;

/// Hard cap on dynamic tips to prevent runaway costs during extreme congestion.
pub const MAX_TIP_LAMPORTS: u64 = 50_000_000;

/// Minimum tip floor to ensure bundles are competitive even during quiet periods.
pub const MIN_TIP_LAMPORTS: u64 = 10_000;

/// How long fetched tip accounts stay fresh: five minutes, in nanoseconds.
pub const TIP_ACCOUNTS_TTL_NANOS: u64 = 300_000_000_000;

/// The lengths below which the 75th-percentile index computed in floating point
/// (`len as f64 * 0.75`, truncated) is exactly `3 * len / 4`: `3 * len` then needs at most
/// 53 bits.
pub const MAX_SAMPLE_LEN: u64 = 0x8_0000_0000_0000;

/// Errors of the tip logic.
#[derive(Debug, Clone, Copy, PartialEq, Eq, Structural)]
pub enum TipError {
    /// There is no tip account to pay.
    NoTipAccounts,
}

// ── Sorting and statistics ──────────────────────────────────────────────────

/// `s` is in non-decreasing order.
pub open spec fn sorted(s: Seq<u64>) -> bool {
    forall|i: int, j: int| 0 <= i <= j < s.len() ==> s[i] <= s[j]
}

/// `s` holds the values of `of` in non-decreasing order.
pub open spec fn sorted_permutation(s: Seq<u64>, of: Seq<u64>) -> bool {
    sorted(s) && s.to_multiset() == of.to_multiset()
}

/// The sum of a sequence of values.
pub open spec fn seq_sum(s: Seq<u64>) -> int
    decreases s.len(),
{
    if s.len() == 0 {
        0
    } else {
        seq_sum(s.drop_last()) + s.last()
    }
}

/// The index of the 75th percentile in a sorted sample of `n` values: `3n/4`, or the last
/// index when that is past the end.
pub open spec fn p75_index(n: nat) -> int {
    if n * 3 / 4 < n - 1 {
        (n * 3 / 4) as int
    } else {
        n - 1
    }
}

/// The integer average of a sample: its sum divided by its size.
pub open spec fn average_spec(s: Seq<u64>) -> int {
    seq_sum(s) / (s.len() as int)
}

/// Any two sorted arrangements of the same values are the same sequence.
pub proof fn law_sorted_permutation_unique(a: Seq<u64>, b: Seq<u64>)
    requires
        sorted(a),
        sorted(b),
        a.to_multiset() == b.to_multiset(),
    ensures
        a == b,
    decreases a.len(),
{
    vstd::seq_lib::to_multiset_len(a);
    vstd::seq_lib::to_multiset_len(b);
    assert(a.len() == b.len());
    if a.len() > 0 {
        assert(a.to_multiset().count(a[0]) > 0);
        assert(b.contains(a[0]));
        assert(b.to_multiset().count(b[0]) > 0);
        assert(a.contains(b[0]));
        assert(a[0] == b[0]);
        let ra = a.remove(0);
        let rb = b.remove(0);
        assert(ra.to_multiset() == rb.to_multiset());
        law_sorted_permutation_unique(ra, rb);
        assert(a =~= seq![a[0]] + ra);
        assert(b =~= seq![b[0]] + rb);
    }
}

/// A sorted copy of `v`.
pub fn sorted_copy(v: &Vec<u64>) -> (r: Vec<u64>)
    ensures
        sorted_permutation(r@, v@),
{
    let mut r: Vec<u64> = Vec::new();
    let mut i: usize = 0;
    while i < v.len()
        invariant
            i <= v@.len(),
            sorted(r@),
            r@.to_multiset() == v@.take(i as int).to_multiset(),
        decreases v@.len() - i,
    {
        let x = v[i];
        let mut pos: usize = 0;
        while pos < r.len() && r[pos] <= x
            invariant
                pos <= r@.len(),
                forall|k: int| 0 <= k < pos ==> r@[k] <= x,
            decreases r@.len() - pos,
        {
            pos += 1;
        }
        let ghost old_r = r@;
        r.insert(pos, x);
        proof {
            assert forall|a: int, b: int| 0 <= a <= b < r@.len() implies r@[a] <= r@[b] by {
                if a < pos && b < pos {
                } else if a < pos && b == pos {
                } else if a < pos {
                    assert(r@[b] == old_r[b - 1]);
                } else if a == pos && b > pos {
                    assert(r@[b] == old_r[b - 1]);
                    assert(old_r[pos as int] > x);
                } else if a > pos {
                    assert(r@[a] == old_r[a - 1]);
                    assert(r@[b] == old_r[b - 1]);
                }
            }
            assert(r@ == old_r.insert(pos as int, x));
            assert(old_r.insert(pos as int, x).to_multiset() == old_r.to_multiset().insert(x));
            assert(v@.take(i + 1) =~= v@.take(i as int).push(x));
            assert(v@.take(i as int).push(x).to_multiset() == v@.take(i as int).to_multiset().insert(x));
        }
        i += 1;
    }
    proof {
        assert(v@.take(v@.len() as int) =~= v@);
    }
    r
}

/// The 75th-percentile value of a non-empty sample: the value at [`p75_index`] in the
/// sample sorted.
pub fn percentile_75(values: &Vec<u64>) -> (r: u64)
    requires
        0 < values@.len() < MAX_SAMPLE_LEN,
    ensures
        forall|s: Seq<u64>| sorted_permutation(s, values@) ==> r == s[p75_index(values@.len())],
{
    let sorted = sorted_copy(values);
    proof {
        assert(sorted@.to_multiset().len() == values@.to_multiset().len());
        assert(sorted@.len() == values@.len());
    }
    let n = sorted.len();
    let quarter3: u64 = (n as u64) * 3 / 4;
    let idx: usize = if quarter3 < (n - 1) as u64 {
        quarter3 as usize
    } else {
        n - 1
    };
    proof {
        assert forall|s: Seq<u64>| sorted_permutation(s, values@) implies sorted@[idx as int] == s[p75_index(values@.len())] by {
            law_sorted_permutation_unique(sorted@, s);
        }
    }
    sorted[idx]
}

proof fn lemma_prefix_sum_bounded(s: Seq<u64>, i: int)
    requires
        0 <= i <= s.len(),
    ensures
        0 <= seq_sum(s.take(i)) <= seq_sum(s),
    decreases s.len() - i,
{
    if i < s.len() {
        lemma_prefix_sum_bounded(s, i + 1);
        assert(s.take(i + 1).drop_last() =~= s.take(i));
    } else {
        assert(s.take(i) =~= s);
    }
    lemma_sum_nonnegative(s.take(i));
}

proof fn lemma_sum_nonnegative(s: Seq<u64>)
    ensures
        seq_sum(s) >= 0,
    decreases s.len(),
{
    if s.len() > 0 {
        lemma_sum_nonnegative(s.drop_last());
    }
}

/// Whether a sample's sum fits in a `u64`, so that [`average`] can be taken.
pub fn sum_fits(values: &Vec<u64>) -> (r: bool)
    ensures
        r == (seq_sum(values@) <= u64::MAX),
{
    let mut total: u128 = 0;
    let mut i: usize = 0;
    while i < values.len()
        invariant
            i <= values@.len(),
            total == seq_sum(values@.take(i as int)),
            total <= i * 0xFFFF_FFFF_FFFF_FFFFu128,
        decreases values@.len() - i,
    {
        proof {
            assert(values@.take(i + 1).drop_last() =~= values@.take(i as int));
        }
        total = total + values[i] as u128;
        i += 1;
    }
    proof {
        assert(values@.take(values@.len() as int) =~= values@);
    }
    total <= u64::MAX as u128
}

/// The integer average of a non-empty sample whose sum fits in a `u64`.
pub fn average(values: &Vec<u64>) -> (r: u64)
    requires
        values@.len() > 0,
        seq_sum(values@) <= u64::MAX,
    ensures
        r == average_spec(values@),
{
    let mut total: u64 = 0;
    let mut i: usize = 0;
    while i < values.len()
        invariant
            i <= values@.len(),
            total == seq_sum(values@.take(i as int)),
            seq_sum(values@) <= u64::MAX,
        decreases values@.len() - i,
    {
        proof {
            assert(values@.take(i + 1).drop_last() =~= values@.take(i as int));
            lemma_prefix_sum_bounded(values@, i + 1);
        }
        total = total + values[i];
        i += 1;
    }
    proof {
        assert(values@.take(values@.len() as int) =~= values@);
    }
    total / (values.len() as u64)
}

/// A computed tip held between [`MIN_TIP_LAMPORTS`] and [`MAX_TIP_LAMPORTS`].
pub open spec fn clamped_tip(computed: u64) -> u64 {
    if computed < MIN_TIP_LAMPORTS {
        MIN_TIP_LAMPORTS
    } else if computed > MAX_TIP_LAMPORTS {
        MAX_TIP_LAMPORTS
    } else {
        computed
    }
}

/// Holds a computed tip between the floor and the cap.
pub fn clamp_tip(computed: u64) -> (r: u64)
    ensures
        r == clamped_tip(computed),
{
    let raised = if computed < MIN_TIP_LAMPORTS {
        MIN_TIP_LAMPORTS
    } else {
        computed
    };
    if raised > MAX_TIP_LAMPORTS {
        MAX_TIP_LAMPORTS
    } else {
        raised
    }
}

/// A dynamic tip always lies between the floor and the cap, and a computed tip already in
/// that range is kept as it is.
pub proof fn law_tip_within_bounds(computed: u64)
    ensures
        MIN_TIP_LAMPORTS <= clamped_tip(computed) <= MAX_TIP_LAMPORTS,
        MIN_TIP_LAMPORTS <= computed <= MAX_TIP_LAMPORTS ==> clamped_tip(computed) == computed,
{
}

/// The tip of a retry when the AI agent gives no decision: one and a half times the tip
/// that failed (rounded down), or the largest tip when that does not fit in a `u64`.
pub open spec fn fallback_tip(tip: u64) -> u64 {
    if tip + tip / 2 <= u64::MAX {
        (tip + tip / 2) as u64
    } else {
        u64::MAX
    }
}

/// The tip for a deterministic retry, used when the AI agent cannot be reached.
pub fn fallback_retry_tip(tip: u64) -> (r: u64)
    ensures
        r == fallback_tip(tip),
{
    tip.saturating_add(tip / 2)
}

// ── Jito tips API ───────────────────────────────────────────────────────────

/// The path of the Jito tips REST endpoint.
pub const TIPS_PATH: &'static str = "/api/v1/tips";

/// `s` without the `/` characters it ends with.
pub open spec fn without_trailing_slashes(s: Seq<char>) -> Seq<char>
    decreases s.len(),
{
    if s.len() > 0 && s.last() == '/' {
        without_trailing_slashes(s.drop_last())
    } else {
        s
    }
}

proof fn lemma_trailing_slashes_cut(s: Seq<char>, j: int)
    requires
        0 <= j <= s.len(),
        forall|k: int| j <= k < s.len() ==> s[k] == '/',
    ensures
        without_trailing_slashes(s) == without_trailing_slashes(s.subrange(0, j)),
    decreases s.len() - j,
{
    if j < s.len() {
        let t = s.drop_last();
        assert(s.last() == s[s.len() - 1]);
        lemma_trailing_slashes_cut(t, j);
        assert(t.subrange(0, j) =~= s.subrange(0, j));
    } else {
        assert(s.subrange(0, j) =~= s);
    }
}

/// The URL of the tips endpoint of the block engine at `jito_url`, whatever slashes the
/// URL ends with.
pub fn tips_endpoint(jito_url: &str) -> (r: String)
    ensures
        r@ == without_trailing_slashes(jito_url@) + TIPS_PATH@,
{
    let v = chars_of(jito_url);
    let mut j: usize = v.len();
    while j > 0 && v[j - 1] == '/'
        invariant
            v@ == jito_url@,
            j <= v@.len(),
            forall|k: int| j <= k < v@.len() ==> v@[k] == '/',
        decreases j,
    {
        j -= 1;
    }
    proof {
        lemma_trailing_slashes_cut(jito_url@, j as int);
        let core = jito_url@.subrange(0, j as int);
        if core.len() > 0 {
            assert(core.last() == v@[j - 1]);
        }
    }
    let mut r = String::from_str(jito_url.substring_char(0, j));
    r.append(TIPS_PATH);
    r
}

/// The pointer to the account list in a `getTipAccounts` reply.
pub const TIP_ACCOUNTS_POINTER: &'static str = "/result";

/// The string items of a list, in order; the others are skipped.
pub open spec fn present_texts(items: Seq<Option<Seq<char>>>) -> Seq<Seq<char>>
    decreases items.len(),
{
    if items.len() == 0 {
        Seq::empty()
    } else {
        present_texts(items.drop_last()) + match items.last() {
            Some(t) => seq![t],
            None => Seq::empty(),
        }
    }
}

/// The tip accounts a `getTipAccounts` reply lists: the string items of its `result` array,
/// in order; `None` when the reply is not JSON or has no such array.
pub fn tip_account_texts(body: &str) -> (r: Option<Vec<String>>)
    ensures
        r is Some <==> json_array_texts(body@, TIP_ACCOUNTS_POINTER@) is Some,
        r matches Some(v) ==> strs_view(v@) == present_texts(json_array_texts(body@, TIP_ACCOUNTS_POINTER@)->0),
{
    let items = match json_array_at(body, TIP_ACCOUNTS_POINTER) {
        Some(items) => items,
        None => return None,
    };
    let ghost views = items@.map_values(|x: Option<String>| match x {
        Some(s) => Some(s@),
        None => None,
    });
    let mut out: Vec<String> = Vec::new();
    let mut i: usize = 0;
    while i < items.len()
        invariant
            i <= items@.len(),
            views == items@.map_values(|x: Option<String>| match x {
                Some(s) => Some(s@),
                None => None,
            }),
            strs_view(out@) == present_texts(views.take(i as int)),
        decreases items@.len() - i,
    {
        let ghost prev = out@;
        proof {
            assert(views.take(i + 1).drop_last() =~= views.take(i as int));
            assert(views.take(i + 1).last() == views[i as int]);
        }
        match &items[i] {
            Some(t) => {
                out.push(t.clone());
                assert(strs_view(out@) =~= strs_view(prev) + seq![t@]);
            },
            None => {
                assert(strs_view(out@) =~= strs_view(prev) + Seq::<Seq<char>>::empty());
            },
        }
        i += 1;
    }
    assert(views.take(items@.len() as int) =~= views);
    Some(out)
}

// ── Tip accounts ────────────────────────────────────────────────────────────

/// Picks an account with `rand`'s `SliceRandom::choose` on the thread-local generator.
///
/// Trusted: `choose` returns `None` exactly for an empty slice and otherwise one of its
/// elements; which one depends on chance and is not stated.
#[verifier::external_body]
fn choose_account(accounts: &Vec<String>) -> (r: Option<String>)
    ensures
        r is None <==> accounts@.len() == 0,
        r matches Some(x) ==> strs_view(accounts@).contains(x@),
{
    accounts.choose(&mut rand::thread_rng()).cloned()
}

/// The well-known Jito tip distribution accounts.
pub open spec fn well_known_tip_accounts() -> Seq<Seq<char>> {
    seq![
        "96gYZGLnJYVFmbjzopPSU6QiEV5fGqZNyN9nmNhvrZU5"@,
        "HFqU5xCUcjZk5hGcLcGm119Cjg5vK5aB6E6H2rJq22A2"@,
        "Cw8CFyM9FkoMi7K7Crf6HNQqf4uEMzpKw6QNghXLvLkY"@,
        "ADaUMid9yfUytqMBgopwjb2DTLSokTSzL1zt6iMgaSbg"@,
        "DfXygSm4jMyxPMAxVnLpsT4B32y8Zw4gqM9RMBH7E5vX"@,
        "3AVi9Tg9Uo68tJfuvoKvqKNWKkC5wPdSSdeBn1rvwB9x"@,
        "EMDUBo7iUjRCR9GtoG34ZADG2BwQ38o9yqRz6F2vJvT1"@,
        "DWY2zM19vCokwE4q4qjT37XEXgGqjX318QhT3eTqU1dJ"@,
    ]
}

/// Well-known Jito tip distribution accounts (fallback only).
pub fn hardcoded_tip_accounts() -> (r: Vec<String>)
    ensures
        strs_view(r@) == well_known_tip_accounts(),
{
    let mut r: Vec<String> = Vec::new();
    r.push(String::from_str("96gYZGLnJYVFmbjzopPSU6QiEV5fGqZNyN9nmNhvrZU5"));
    r.push(String::from_str("HFqU5xCUcjZk5hGcLcGm119Cjg5vK5aB6E6H2rJq22A2"));
    r.push(String::from_str("Cw8CFyM9FkoMi7K7Crf6HNQqf4uEMzpKw6QNghXLvLkY"));
    r.push(String::from_str("ADaUMid9yfUytqMBgopwjb2DTLSokTSzL1zt6iMgaSbg"));
    r.push(String::from_str("DfXygSm4jMyxPMAxVnLpsT4B32y8Zw4gqM9RMBH7E5vX"));
    r.push(String::from_str("3AVi9Tg9Uo68tJfuvoKvqKNWKkC5wPdSSdeBn1rvwB9x"));
    r.push(String::from_str("EMDUBo7iUjRCR9GtoG34ZADG2BwQ38o9yqRz6F2vJvT1"));
    r.push(String::from_str("DWY2zM19vCokwE4q4qjT37XEXgGqjX318QhT3eTqU1dJ"));
    assert(strs_view(r@) =~= well_known_tip_accounts());
    r
}

/// Manages dynamic tip calculation for Jito bundles using real network data.
///
/// The instant the tip accounts were fetched is a reading of a monotonic clock in
/// nanoseconds, supplied by the caller.
pub struct TipManager {
    pub jito_url: String,
    pub recent_priority_fees: Vec<u64>,
    pub tip_account_balances: Vec<u64>,
    pub jito_percentile_75th: Option<u64>,
    pub tip_accounts_cache: Vec<String>,
    pub tip_accounts_fetched_at: Option<u64>,
}

/// Fetched tip accounts are fresh at `now` when they were fetched less than five minutes
/// before (a clock reading before the fetch counts as no time elapsed).
pub open spec fn tip_accounts_fresh(fetched_at: Option<u64>, now: u64) -> bool {
    match fetched_at {
        Some(t) => (if now >= t {
            now - t
        } else {
            0
        }) < TIP_ACCOUNTS_TTL_NANOS,
        None => false,
    }
}

/// Tip accounts fetched at `fetched_at` stay fresh while less than five minutes have passed,
/// and are stale from five minutes on.
pub proof fn law_tip_accounts_fresh_for_five_minutes(fetched_at: u64, now: u64)
    requires
        fetched_at <= now,
    ensures
        tip_accounts_fresh(Some(fetched_at), now) <==> now - fetched_at < TIP_ACCOUNTS_TTL_NANOS,
        !tip_accounts_fresh(None, now),
{
}

impl TipManager {
    /// A tip manager for the Jito block engine at `jito_url`, with no network data yet.
    pub fn new(jito_url: &str) -> (r: TipManager)
        ensures
            r.jito_url@ == jito_url@,
            r.recent_priority_fees@.len() == 0,
            r.tip_account_balances@.len() == 0,
            r.jito_percentile_75th is None,
            r.tip_accounts_cache@.len() == 0,
            r.tip_accounts_fetched_at is None,
    {
        TipManager {
            jito_url: String::from_str(jito_url),
            recent_priority_fees: Vec::new(),
            tip_account_balances: Vec::new(),
            jito_percentile_75th: None,
            tip_accounts_cache: Vec::new(),
            tip_accounts_fetched_at: None,
        }
    }

    /// The cached tip accounts when they are fresh and not empty; `None` means they have to
    /// be fetched from the Jito API.
    pub fn fresh_tip_accounts(&self, now: u64) -> (r: Option<Vec<String>>)
        ensures
            r is Some <==> tip_accounts_fresh(self.tip_accounts_fetched_at, now)
                && self.tip_accounts_cache@.len() > 0,
            r matches Some(v) ==> strs_view(v@) == strs_view(self.tip_accounts_cache@),
    {
        let fresh = match self.tip_accounts_fetched_at {
            Some(t) => {
                let elapsed = if now >= t {
                    now - t
                } else {
                    0
                };
                elapsed < TIP_ACCOUNTS_TTL_NANOS
            },
            None => false,
        };
        if fresh && self.tip_accounts_cache.len() > 0 {
            Some(clone_strings(&self.tip_accounts_cache))
        } else {
            None
        }
    }

    /// Takes the result of fetching the tip accounts at `now`: a non-empty list is cached
    /// (with its fetch time) and returned; otherwise the cache is used when it has accounts,
    /// even stale; failing that, the well-known accounts are cached and returned.
    pub fn accept_fetched_tip_accounts(&mut self, fetched: Option<Vec<String>>, now: u64) -> (r: Vec<String>)
        ensures
            final(self).jito_url == old(self).jito_url,
            final(self).recent_priority_fees == old(self).recent_priority_fees,
            final(self).tip_account_balances == old(self).tip_account_balances,
            final(self).jito_percentile_75th == old(self).jito_percentile_75th,
            match fetched {
                Some(v) if v@.len() > 0 => {
                    &&& strs_view(r@) == strs_view(v@)
                    &&& strs_view(final(self).tip_accounts_cache@) == strs_view(v@)
                    &&& final(self).tip_accounts_fetched_at == Some(now)
                },
                _ => if old(self).tip_accounts_cache@.len() > 0 {
                    &&& strs_view(r@) == strs_view(old(self).tip_accounts_cache@)
                    &&& final(self).tip_accounts_cache == old(self).tip_accounts_cache
                    &&& final(self).tip_accounts_fetched_at == old(self).tip_accounts_fetched_at
                } else {
                    &&& strs_view(r@) == well_known_tip_accounts()
                    &&& strs_view(final(self).tip_accounts_cache@) == well_known_tip_accounts()
                    &&& final(self).tip_accounts_fetched_at == old(self).tip_accounts_fetched_at
                },
            },
    {
        match fetched {
            Some(v) if v.len() > 0 => {
                self.tip_accounts_cache = clone_strings(&v);
                self.tip_accounts_fetched_at = Some(now);
                v
            },
            _ => {
                if self.tip_accounts_cache.len() > 0 {
                    clone_strings(&self.tip_accounts_cache)
                } else {
                    let fallback = hardcoded_tip_accounts();
                    self.tip_accounts_cache = clone_strings(&fallback);
                    fallback
                }
            },
        }
    }

    /// Select a random tip account from the available pool.
    pub fn select_random_tip_account(accounts: &Vec<String>) -> (r: Result<String, TipError>)
        ensures
            r is Err <==> accounts@.len() == 0,
            r matches Err(e) ==> e == TipError::NoTipAccounts,
            r matches Ok(a) ==> strs_view(accounts@).contains(a@),
    {
        match choose_account(accounts) {
            Some(a) => Ok(a),
            None => Err(TipError::NoTipAccounts),
        }
    }

    /// Keeps the non-zero prioritization fees of a sample as the recent fees.
    pub fn record_priority_fees(&mut self, fees: &Vec<u64>)
        ensures
            final(self).recent_priority_fees@ == fees@.filter(|f: u64| f > 0),
            final(self).jito_url == old(self).jito_url,
            final(self).tip_account_balances == old(self).tip_account_balances,
            final(self).jito_percentile_75th == old(self).jito_percentile_75th,
            final(self).tip_accounts_cache == old(self).tip_accounts_cache,
            final(self).tip_accounts_fetched_at == old(self).tip_accounts_fetched_at,
    {
        let mut kept: Vec<u64> = Vec::new();
        let mut i: usize = 0;
        while i < fees.len()
            invariant
                i <= fees@.len(),
                kept@ == fees@.take(i as int).filter(|f: u64| f > 0),
            decreases fees@.len() - i,
        {
            proof {
                reveal(Seq::filter);
                assert(fees@.take(i + 1).drop_last() =~= fees@.take(i as int));
            }
            if fees[i] > 0 {
                kept.push(fees[i]);
            }
            i += 1;
        }
        proof {
            assert(fees@.take(fees@.len() as int) =~= fees@);
        }
        self.recent_priority_fees = kept;
    }

    /// Records the 75th percentile of recently landed Jito tips, in lamports.
    pub fn record_jito_percentile_75th(&mut self, tip_lamports: u64)
        ensures
            final(self).jito_percentile_75th == Some(tip_lamports),
            final(self).jito_url == old(self).jito_url,
            final(self).recent_priority_fees == old(self).recent_priority_fees,
            final(self).tip_account_balances == old(self).tip_account_balances,
            final(self).tip_accounts_cache == old(self).tip_accounts_cache,
            final(self).tip_accounts_fetched_at == old(self).tip_accounts_fetched_at,
    {
        self.jito_percentile_75th = Some(tip_lamports);
    }

    /// The recent 75th-percentile priority fee (micro-lamports per compute unit) that the
    /// dynamic tip starts from: 0 until at least three fees have been sampled.
    pub fn base_priority_fee(&self) -> (r: u64)
        requires
            self.recent_priority_fees@.len() < MAX_SAMPLE_LEN,
        ensures
            self.recent_priority_fees@.len() < 3 ==> r == 0,
            self.recent_priority_fees@.len() >= 3 ==> forall|s: Seq<u64>|
                sorted_permutation(s, self.recent_priority_fees@) ==> r == s[p75_index(
                    self.recent_priority_fees@.len(),
                )],
    {
        if self.recent_priority_fees.len() < 3 {
            0
        } else {
            percentile_75(&self.recent_priority_fees)
        }
    }

    /// A snapshot of current tip data for the AI agent: average and 75th-percentile
    /// priority fee (the percentile once three fees are sampled), average tip-account
    /// balance, and the current dynamic tip as computed by the caller.
    pub fn get_tip_snapshot(&self, current_tip: Option<u64>) -> (r: (Option<u64>, Option<u64>, Option<u64>, Option<u64>))
        requires
            seq_sum(self.recent_priority_fees@) <= u64::MAX,
            seq_sum(self.tip_account_balances@) <= u64::MAX,
            self.recent_priority_fees@.len() < MAX_SAMPLE_LEN,
        ensures
            r.0 == (if self.recent_priority_fees@.len() == 0 {
                None
            } else {
                Some(average_spec(self.recent_priority_fees@) as u64)
            }),
            self.recent_priority_fees@.len() < 3 ==> r.1 is None,
            self.recent_priority_fees@.len() >= 3 ==> (r.1 matches Some(p) && forall|s: Seq<u64>|
                sorted_permutation(s, self.recent_priority_fees@) ==> p == s[p75_index(
                    self.recent_priority_fees@.len(),
                )]),
            r.2 == (if self.tip_account_balances@.len() == 0 {
                None
            } else {
                Some(average_spec(self.tip_account_balances@) as u64)
            }),
            r.3 == current_tip,
    {
        let avg_fee = if self.recent_priority_fees.len() == 0 {
            None
        } else {
            Some(average(&self.recent_priority_fees))
        };
        let p75_fee = if self.recent_priority_fees.len() < 3 {
            None
        } else {
            Some(percentile_75(&self.recent_priority_fees))
        };
        let avg_balance = if self.tip_account_balances.len() == 0 {
            None
        } else {
            Some(average(&self.tip_account_balances))
        };
        (avg_fee, p75_fee, avg_balance, current_tip)
    }

    /// A snapshot of network conditions: average and 75th-percentile priority fee, average
    /// tip-account balance, and the current dynamic tip as computed by the caller; the
    /// leader distance and landing rate are not measured.
    pub fn get_network_snapshot(&self, current_dynamic_tip: Option<u64>) -> (r: NetworkSnapshot)
        requires
            seq_sum(self.recent_priority_fees@) <= u64::MAX,
            seq_sum(self.tip_account_balances@) <= u64::MAX,
            self.recent_priority_fees@.len() < MAX_SAMPLE_LEN,
        ensures
            r.avg_recent_priority_fee == (if self.recent_priority_fees@.len() == 0 {
                None
            } else {
                Some(average_spec(self.recent_priority_fees@) as u64)
            }),
            self.recent_priority_fees@.len() == 0 ==> r.p75_recent_priority_fee is None,
            self.recent_priority_fees@.len() > 0 ==> (r.p75_recent_priority_fee matches Some(p)
                && forall|s: Seq<u64>|
                sorted_permutation(s, self.recent_priority_fees@) ==> p == s[p75_index(
                    self.recent_priority_fees@.len(),
                )]),
            r.avg_tip_account_balance == (if self.tip_account_balances@.len() == 0 {
                None
            } else {
                Some(average_spec(self.tip_account_balances@) as u64)
            }),
            r.current_dynamic_tip == current_dynamic_tip,
            r.slots_since_last_jito_leader is None,
            r.recent_landing_rate_pct_bits is None,
    {
        let avg_fee = if self.recent_priority_fees.len() == 0 {
            None
        } else {
            Some(average(&self.recent_priority_fees))
        };
        let p75_fee = if self.recent_priority_fees.len() == 0 {
            None
        } else {
            Some(percentile_75(&self.recent_priority_fees))
        };
        let avg_balance = if self.tip_account_balances.len() == 0 {
            None
        } else {
            Some(average(&self.tip_account_balances))
        };
        NetworkSnapshot {
            avg_recent_priority_fee: avg_fee,
            p75_recent_priority_fee: p75_fee,
            avg_tip_account_balance: avg_balance,
            current_dynamic_tip,
            slots_since_last_jito_leader: None,
            recent_landing_rate_pct_bits: None,
        }
    }
}

} // verus!
