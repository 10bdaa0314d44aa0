//! The batch-sweep routine: repeated fetch/delete round-trips against the
//! catalog until no orphan remains or a store call fails, together with the
//! step logic that decides, after each store call, whether the sweep goes on.
//!
//! A store call either succeeds or fails; which calls fail is abstracted into
//! a [`FaultPlan`], so every interleaving of failures is covered by one
//! verified routine.  The exact trace of a sweep — how many fetches, how many
//! deletes, the outcome, and how many orphans are removed — is pinned by
//! [`sweep_trace`], and the laws about complete and aborted sweeps are proved
//! from it.

use vstd::prelude::*;
use crate::store::CatalogStore;
use crate::store::LinkRow;
use crate::store::lemma_filter_all_kept;
use crate::store::lemma_filter_compose;
use crate::store::lemma_filter_equiv;
use crate::store::lemma_filter_out_prefix;
use crate::store::lemma_orphan_seq_len;
use crate::store::lemma_orphan_seq_no_duplicates;
use crate::store::lemma_orphans_after_delete;
use crate::store::lemma_take_split_contains;

verus! {

/// Upper bound on the identifiers fetched, and hence deleted, in one
/// round-trip: keeps every delete transaction small however many orphans
/// have accumulated.
pub const BATCH_LIMIT: u32 = 512;

/// A failed store call, as the sweep sees it.
#[derive(Clone, Copy, PartialEq, Eq, Structural, Debug)]
pub enum StoreError {
    /// The store could not complete the call.
    Failed,
}

/// How one sweep attempt ended.
#[derive(Clone, Copy, PartialEq, Eq, Structural, Debug)]
pub enum SweepOutcome {
    /// A fetch returned no candidates: every orphan is gone.
    Complete,
    /// A fetch failed; the attempt was aborted.
    FetchFailed,
    /// A delete failed; the attempt was aborted, keeping earlier batches
    /// deleted.
    DeleteFailed,
}

/// What one sweep attempt did.
#[derive(Clone, Copy, PartialEq, Eq, Structural, Debug)]
pub struct SweepReport {
    /// Fetch round-trips issued.
    pub fetches: usize,
    /// Delete round-trips issued.
    pub deletes: usize,
    /// How the attempt ended.
    pub outcome: SweepOutcome,
}

/// Which store calls fail, by 1-based round number.  `None` everywhere is a
/// store that never fails.
#[derive(Clone, Copy, Debug)]
pub struct FaultPlan {
    /// The fetch call of this round fails, if any.
    pub fail_fetch_at: Option<usize>,
    /// The delete call of this round fails, if any.
    pub fail_delete_at: Option<usize>,
}

impl FaultPlan {
    /// A store whose calls all succeed.
    pub fn none() -> (p: Self)
        ensures
            fault_free(p),
    {
        FaultPlan { fail_fetch_at: None, fail_delete_at: None }
    }
}

/// No call ever fails under this plan.
pub open spec fn fault_free(plan: FaultPlan) -> bool {
    plan.fail_fetch_at is None && plan.fail_delete_at is None
}

/// The fetch of round `k` fails.
pub open spec fn fails_fetch(plan: FaultPlan, k: int) -> bool {
    match plan.fail_fetch_at {
        Option::Some(i) => i == k,
        Option::None => false,
    }
}

/// The delete of round `k` fails.
pub open spec fn fails_delete(plan: FaultPlan, k: int) -> bool {
    match plan.fail_delete_at {
        Option::Some(i) => i == k,
        Option::None => false,
    }
}

/// The trace of a sweep that starts round `k` over `n` remaining orphans:
/// (fetches, deletes, outcome, orphans removed).  Each round fetches up to
/// [`BATCH_LIMIT`] candidates and deletes them; a failed call ends the sweep
/// at once, and a fetch that finds nothing completes it.
pub open spec fn sweep_trace(n: int, k: int, plan: FaultPlan) -> (int, int, SweepOutcome, int)
    decreases n,
{
    if fails_fetch(plan, k) {
        (1, 0, SweepOutcome::FetchFailed, 0)
    } else if n <= 0 {
        (1, 0, SweepOutcome::Complete, 0)
    } else if fails_delete(plan, k) {
        (1, 1, SweepOutcome::DeleteFailed, 0)
    } else {
        let m = vstd::math::min(BATCH_LIMIT as int, n);
        let rest = sweep_trace(n - m, k + 1, plan);
        (1 + rest.0, 1 + rest.1, rest.2, m + rest.3)
    }
}

/// The trace of one whole sweep attempt over `n` orphans.
pub open spec fn sweep_result(n: int, plan: FaultPlan) -> (int, int, SweepOutcome, int) {
    sweep_trace(n, 1, plan)
}

/// The number of delete round-trips a fault-free sweep needs for `n`
/// orphans: `n / BATCH_LIMIT`, rounded up.
pub open spec fn batches_needed(n: int) -> int {
    (n + BATCH_LIMIT as int - 1) / (BATCH_LIMIT as int)
}

/// The continuation of a sweep after one fetch round-trip.
pub enum FetchStep {
    /// Delete the link rows and entries for these identifiers, then fetch
    /// again.
    DeleteBatch(Vec<i64>),
    /// The fetch returned no candidates: the sweep is complete.
    Finished,
    /// The fetch failed: abort this sweep attempt; the next tick or request
    /// starts over.
    Abort,
}

/// The continuation of a sweep after one delete round-trip.
#[derive(Clone, Copy, PartialEq, Eq, Structural, Debug)]
pub enum DeleteStep {
    /// The batch is gone; fetch the next one.
    Continue,
    /// The delete failed: abort this sweep attempt, keeping earlier batches
    /// deleted.
    Abort,
}

/// Decides how the sweep goes on after a fetch round-trip: a failure aborts
/// the attempt, an empty result completes it, and anything else is the next
/// batch to delete.
pub fn on_fetch_result(r: Result<Vec<i64>, StoreError>) -> (step: FetchStep)
    ensures
        (match r {
            Result::Ok(ids) => if ids@.len() == 0 {
                step is Finished
            } else {
                step == FetchStep::DeleteBatch(ids)
            },
            Result::Err(_) => step is Abort,
        }),
{
    match r {
        Ok(ids) => {
            if ids.len() == 0 {
                FetchStep::Finished
            } else {
                FetchStep::DeleteBatch(ids)
            }
        },
        Err(_) => FetchStep::Abort,
    }
}

/// Decides how the sweep goes on after a delete round-trip: a failure aborts
/// the attempt, anything else continues with the next fetch.
pub fn on_delete_result(r: Result<(), StoreError>) -> (step: DeleteStep)
    ensures
        step is Continue <==> r is Ok,
{
    match r {
        Ok(_) => DeleteStep::Continue,
        Err(_) => DeleteStep::Abort,
    }
}

/// Whether the fetch of round `round` fails under the plan.
fn fetch_fails_now(plan: FaultPlan, round: usize) -> (r: bool)
    ensures
        r == fails_fetch(plan, round as int),
{
    match plan.fail_fetch_at {
        Some(i) => i == round,
        None => false,
    }
}

/// Whether the delete of round `round` fails under the plan.
fn delete_fails_now(plan: FaultPlan, round: usize) -> (r: bool)
    ensures
        r == fails_delete(plan, round as int),
{
    match plan.fail_delete_at {
        Some(i) => i == round,
        None => false,
    }
}

/// One whole sweep attempt: fetch up to [`BATCH_LIMIT`] orphaned entries and
/// delete their link rows and entries, over and over, until a fetch finds
/// nothing or a call fails.  The report and the store afterwards are exactly
/// what [`sweep_result`] says for the store's orphan count: batches deleted
/// before a failure stay deleted, and nothing but the removed orphans is
/// touched.
pub fn run_sweep(store: &mut CatalogStore, plan: FaultPlan) -> (rep: SweepReport)
    requires
        old(store).wf(),
    ensures
        final(store).wf(),
        ({
            let t = sweep_result(old(store).orphans().len() as int, plan);
            &&& rep.fetches == t.0
            &&& rep.deletes == t.1
            &&& rep.outcome == t.2
            &&& final(store).orphans() == old(store).orphans().skip(t.3)
            &&& final(store).entries@ == old(store).entries@.filter(
                |e: i64| !old(store).orphans().take(t.3).contains(e),
            )
            &&& final(store).links@ == old(store).links@.filter(
                |l: LinkRow| !old(store).orphans().take(t.3).contains(l.entry_id),
            )
        }),
{
    let ghost orig: CatalogStore = *store;
    let ghost n0: int = orig.orphans().len() as int;
    let ghost t0 = sweep_trace(n0, 1, plan);
    let mut fetches: usize = 0;
    let mut deletes: usize = 0;
    let ghost mut removed: int = 0;
    let mut outcome = SweepOutcome::Complete;
    let entry_count: usize = store.entries.len();
    proof {
        assert(entry_count == orig.entries@.len());
        lemma_orphan_seq_len(orig.entries@, orig.links@);
        assert(orig.orphans().skip(0) =~= orig.orphans());
        assert(orig.orphans().take(0) =~= Seq::<i64>::empty());
        lemma_filter_all_kept(orig.entries@, |e: i64| !orig.orphans().take(0).contains(e));
        lemma_filter_all_kept(
            orig.links@,
            |l: LinkRow| !orig.orphans().take(0).contains(l.entry_id),
        );
    }
    loop
        invariant_except_break
            store.wf(),
            orig.wf(),
            n0 == orig.orphans().len(),
            n0 <= usize::MAX,
            t0 == sweep_trace(n0, 1, plan),
            0 <= removed <= n0,
            fetches == deletes,
            removed == BATCH_LIMIT * deletes || store.orphans().len() == 0,
            deletes * (BATCH_LIMIT as int) <= n0 + BATCH_LIMIT - 1,
            store.orphans() == orig.orphans().skip(removed),
            store.entries@ == orig.entries@.filter(
                |e: i64| !orig.orphans().take(removed).contains(e),
            ),
            store.links@ == orig.links@.filter(
                |l: LinkRow| !orig.orphans().take(removed).contains(l.entry_id),
            ),
            ({
                let rt = sweep_trace(store.orphans().len() as int, fetches as int + 1, plan);
                &&& t0.0 == fetches + rt.0
                &&& t0.1 == deletes + rt.1
                &&& t0.2 == rt.2
                &&& t0.3 == removed + rt.3
            }),
        ensures
            store.wf(),
            fetches == t0.0,
            deletes == t0.1,
            outcome == t0.2,
            removed == t0.3,
            store.orphans() == orig.orphans().skip(removed),
            store.entries@ == orig.entries@.filter(
                |e: i64| !orig.orphans().take(removed).contains(e),
            ),
            store.links@ == orig.links@.filter(
                |l: LinkRow| !orig.orphans().take(removed).contains(l.entry_id),
            ),
        decreases store.orphans().len(),
    {
        let round: usize = fetches + 1;
        if fetch_fails_now(plan, round) {
            fetches = fetches + 1;
            outcome = SweepOutcome::FetchFailed;
            break;
        }
        let ids = store.find_entries_without_links(BATCH_LIMIT);
        fetches = fetches + 1;
        if ids.len() == 0 {
            proof {
                let cur = store.orphans();
                if cur.len() > 0 {
                    assert(ids@.len() == vstd::math::min(
                        BATCH_LIMIT as int,
                        cur.len() as int,
                    ));
                }
            }
            outcome = SweepOutcome::Complete;
            break;
        }
        if delete_fails_now(plan, round) {
            deletes = deletes + 1;
            outcome = SweepOutcome::DeleteFailed;
            break;
        }
        let ghost pre: CatalogStore = *store;
        store.delete_links_and_entries(&ids);
        deletes = deletes + 1;
        proof {
            let cur = pre.orphans();
            let ncur = cur.len() as int;
            let m = ids@.len() as int;
            assert(m == vstd::math::min(BATCH_LIMIT as int, ncur));
            assert(ids@ == cur.take(m));
            lemma_orphan_seq_no_duplicates(pre.entries@, pre.links@);
            lemma_orphans_after_delete(pre.entries@, pre.links@, ids@);
            lemma_filter_out_prefix(cur, ids@, m);
            assert(store.orphans() == cur.skip(m));
            assert(store.orphans() =~= orig.orphans().skip(removed + m));

            // the removed prefixes compose: what the deletes so far took out
            // is exactly the first `removed + m` orphans
            let p_old = |e: i64| !orig.orphans().take(removed).contains(e);
            let p_batch = |e: i64| !ids@.contains(e);
            let p_new = |e: i64| !orig.orphans().take(removed + m).contains(e);
            assert(ids@ =~= orig.orphans().subrange(removed, removed + m));
            let p_both = |x: i64| p_old(x) && p_batch(x);
            lemma_filter_compose(orig.entries@, p_old, p_batch);
            assert forall|e: i64| #[trigger] p_both(e) == p_new(e) by {
                lemma_take_split_contains(orig.orphans(), removed, removed + m, e);
            }
            lemma_filter_equiv(orig.entries@, p_both, p_new);

            let q_old = |l: LinkRow| !orig.orphans().take(removed).contains(l.entry_id);
            let q_batch = |l: LinkRow| !ids@.contains(l.entry_id);
            let q_new = |l: LinkRow| !orig.orphans().take(removed + m).contains(l.entry_id);
            let q_both = |x: LinkRow| q_old(x) && q_batch(x);
            lemma_filter_compose(orig.links@, q_old, q_batch);
            assert forall|l: LinkRow| #[trigger] q_both(l) == q_new(l) by {
                lemma_take_split_contains(orig.orphans(), removed, removed + m, l.entry_id);
            }
            lemma_filter_equiv(orig.links@, q_both, q_new);

            removed = removed + m;
        }
    }
    SweepReport { fetches, deletes, outcome }
}

/// Law: a sweep over a store with no orphans, whose first fetch works, makes
/// exactly one fetch call and no delete call, completing.
pub proof fn lemma_empty_sweep(plan: FaultPlan)
    requires
        !fails_fetch(plan, 1),
    ensures
        sweep_result(0, plan) == (1int, 0int, SweepOutcome::Complete, 0int),
{
}

/// Law: a fault-free sweep over `n` orphans makes `batches_needed(n)`
/// fetch/delete round-trips, each deleting at most [`BATCH_LIMIT`] entries,
/// plus the final fetch that comes back empty, and removes every orphan.
pub proof fn lemma_full_sweep(n: int, plan: FaultPlan)
    requires
        n >= 0,
        fault_free(plan),
    ensures
        sweep_result(n, plan) == (
            batches_needed(n) + 1,
            batches_needed(n),
            SweepOutcome::Complete,
            n,
        ),
{
    lemma_full_sweep_at(n, 1, plan);
}

/// Dividing after adding one denominator raises the quotient by one.
proof fn lemma_div_step(x: int, d: int)
    requires
        d > 0,
    ensures
        (x + d) / d == x / d + 1,
{
    vstd::arithmetic::div_mod::lemma_fundamental_div_mod(x, d);
    vstd::arithmetic::div_mod::lemma_mod_bound(x, d);
    vstd::arithmetic::mul::lemma_mul_is_distributive_add(d, x / d, 1);
    assert(x + d == d * (x / d + 1) + x % d);
    vstd::arithmetic::div_mod::lemma_div_multiples_vanish_fancy(x / d + 1, x % d, d);
}

/// A small nonnegative numerator divides to zero.
proof fn lemma_div_small(x: int, d: int)
    requires
        0 <= x < d,
    ensures
        x / d == 0,
{
    vstd::arithmetic::div_mod::lemma_basic_div(x, d);
}

proof fn lemma_full_sweep_at(n: int, k: int, plan: FaultPlan)
    requires
        n >= 0,
        k >= 1,
        fault_free(plan),
    ensures
        sweep_trace(n, k, plan) == (
            batches_needed(n) + 1,
            batches_needed(n),
            SweepOutcome::Complete,
            n,
        ),
    decreases n,
{
    let b = BATCH_LIMIT as int;
    if n == 0 {
        lemma_div_small(b - 1, b);
        assert(batches_needed(0) == 0);
    } else {
        let m = vstd::math::min(b, n);
        lemma_full_sweep_at(n - m, k + 1, plan);
        if n >= b {
            lemma_div_step(n - 1, b);
            assert(batches_needed(n) == batches_needed(n - b) + 1);
        } else {
            lemma_div_small(b - 1, b);
            assert(batches_needed(n - m) == 0);
            lemma_div_small(n - 1, b);
            lemma_div_step(n - 1, b);
            assert(batches_needed(n) == 1);
        }
    }
}

/// Law: a fetch failure in round `k` — the earliest fault, with enough
/// orphans that every earlier round found work — aborts the sweep after `k`
/// fetches and `k - 1` deletes; only the earlier batches are removed, and
/// the loop's state machine stays eligible for the next attempt.
pub proof fn lemma_fetch_fault_aborts(n: int, k: int, plan: FaultPlan)
    requires
        n >= 0,
        k >= 1,
        fails_fetch(plan, k),
        forall|j: int| 1 <= j < k ==> !fails_fetch(plan, j) && !fails_delete(plan, j),
        n > (k - 2) * (BATCH_LIMIT as int),
    ensures
        sweep_result(n, plan) == (
            k,
            k - 1,
            SweepOutcome::FetchFailed,
            vstd::math::min(n, (k - 1) * (BATCH_LIMIT as int)),
        ),
{
    lemma_fetch_fault_at(n, 1, k, plan);
}

proof fn lemma_fetch_fault_at(n: int, r: int, k: int, plan: FaultPlan)
    requires
        n >= 0,
        1 <= r <= k,
        fails_fetch(plan, k),
        forall|j: int| r <= j < k ==> !fails_fetch(plan, j) && !fails_delete(plan, j),
        n > (k - 1 - r) * (BATCH_LIMIT as int),
    ensures
        sweep_trace(n, r, plan) == (
            k - r + 1,
            k - r,
            SweepOutcome::FetchFailed,
            vstd::math::min(n, (k - r) * (BATCH_LIMIT as int)),
        ),
    decreases k - r,
{
    let b = BATCH_LIMIT as int;
    if r == k {
        assert(vstd::math::min(n, 0) == 0);
    } else {
        assert(!fails_fetch(plan, r) && !fails_delete(plan, r));
        assert(n > 0);
        let m = vstd::math::min(b, n);
        lemma_fetch_fault_at(n - m, r + 1, k, plan);
    }
}

/// Law: a delete failure in round `k` — the earliest fault, with more than
/// `k - 1` full batches of orphans — aborts the sweep after `k` fetches and
/// `k` deletes; the `k - 1` batches deleted before it stay deleted and the
/// remaining batches are left for a later attempt.
pub proof fn lemma_delete_fault_aborts(n: int, k: int, plan: FaultPlan)
    requires
        k >= 1,
        fails_delete(plan, k),
        forall|j: int| 1 <= j <= k ==> !fails_fetch(plan, j),
        forall|j: int| 1 <= j < k ==> !fails_delete(plan, j),
        n > (k - 1) * (BATCH_LIMIT as int),
    ensures
        sweep_result(n, plan) == (
            k,
            k,
            SweepOutcome::DeleteFailed,
            (k - 1) * (BATCH_LIMIT as int),
        ),
{
    lemma_delete_fault_at(n, 1, k, plan);
}

proof fn lemma_delete_fault_at(n: int, r: int, k: int, plan: FaultPlan)
    requires
        1 <= r <= k,
        fails_delete(plan, k),
        forall|j: int| r <= j <= k ==> !fails_fetch(plan, j),
        forall|j: int| r <= j < k ==> !fails_delete(plan, j),
        n > (k - r) * (BATCH_LIMIT as int),
    ensures
        sweep_trace(n, r, plan) == (
            k - r + 1,
            k - r + 1,
            SweepOutcome::DeleteFailed,
            (k - r) * (BATCH_LIMIT as int),
        ),
    decreases k - r,
{
    let b = BATCH_LIMIT as int;
    if r == k {
    } else {
        assert(n > b);
        let m = vstd::math::min(b, n);
        assert(m == b);
        lemma_delete_fault_at(n - m, r + 1, k, plan);
    }
}

} // verus!
