use orphan_sweep::store::CatalogStore;
use orphan_sweep::sweep::run_sweep;
use orphan_sweep::sweep::on_delete_result;
use orphan_sweep::sweep::on_fetch_result;
use orphan_sweep::sweep::DeleteStep;
use orphan_sweep::sweep::FaultPlan;
use orphan_sweep::sweep::FetchStep;
use orphan_sweep::sweep::StoreError;
use orphan_sweep::sweep::SweepOutcome;

fn store_with_orphans(n: i64) -> CatalogStore {
    let mut store = CatalogStore::new();
    for id in 0..n {
        assert!(store.add_entry(id));
    }
    store
}

#[test]
fn sweep_removes_three_orphans() {
    // Entries [1, 2, 3], all orphaned, one sweep: fetch -> [1,2,3], delete,
    // fetch -> [], done.
    let mut store = CatalogStore::new();
    assert!(store.add_entry(1));
    assert!(store.add_entry(2));
    assert!(store.add_entry(3));
    let rep = run_sweep(&mut store, FaultPlan::none());
    assert_eq!(rep.fetches, 2);
    assert_eq!(rep.deletes, 1);
    assert_eq!(rep.outcome, SweepOutcome::Complete);
    assert_eq!(store.entries.len(), 0);
}

#[test]
fn sweep_batches_thousand_orphans() {
    // 1000 orphans, limit 512: fetch(512) -> delete, fetch(488) -> delete,
    // fetch(0) -> end. Exactly 3 fetches, 2 deletes.
    let mut store = store_with_orphans(1000);
    let rep = run_sweep(&mut store, FaultPlan::none());
    assert_eq!(rep.fetches, 3);
    assert_eq!(rep.deletes, 2);
    assert_eq!(rep.outcome, SweepOutcome::Complete);
    assert_eq!(store.entries.len(), 0);
}

#[test]
fn sweep_empty_store_single_fetch() {
    let mut store = CatalogStore::new();
    let rep = run_sweep(&mut store, FaultPlan::none());
    assert_eq!(rep.fetches, 1);
    assert_eq!(rep.deletes, 0);
    assert_eq!(rep.outcome, SweepOutcome::Complete);
}

#[test]
fn sweep_exact_batch_boundary() {
    let mut store = store_with_orphans(512);
    let rep = run_sweep(&mut store, FaultPlan::none());
    assert_eq!(rep.fetches, 2);
    assert_eq!(rep.deletes, 1);
    assert_eq!(rep.outcome, SweepOutcome::Complete);
    assert_eq!(store.entries.len(), 0);
}

#[test]
fn fetch_error_aborts_only_current_sweep() {
    // The second fetch fails: the first batch stays deleted, the rest stays
    // in the store, and the next attempt picks it all up.
    let mut store = store_with_orphans(600);
    let plan = FaultPlan { fail_fetch_at: Some(2), fail_delete_at: None };
    let rep = run_sweep(&mut store, plan);
    assert_eq!(rep.fetches, 2);
    assert_eq!(rep.deletes, 1);
    assert_eq!(rep.outcome, SweepOutcome::FetchFailed);
    assert_eq!(store.entries.len(), 88);

    let rep2 = run_sweep(&mut store, FaultPlan::none());
    assert_eq!(rep2.fetches, 2);
    assert_eq!(rep2.deletes, 1);
    assert_eq!(rep2.outcome, SweepOutcome::Complete);
    assert_eq!(store.entries.len(), 0);
}

#[test]
fn first_fetch_error_deletes_nothing() {
    let mut store = store_with_orphans(10);
    let plan = FaultPlan { fail_fetch_at: Some(1), fail_delete_at: None };
    let rep = run_sweep(&mut store, plan);
    assert_eq!(rep.fetches, 1);
    assert_eq!(rep.deletes, 0);
    assert_eq!(rep.outcome, SweepOutcome::FetchFailed);
    assert_eq!(store.entries.len(), 10);
}

#[test]
fn delete_error_keeps_earlier_batches() {
    // The second delete fails: the first batch of 512 is gone for good, the
    // remaining 488 are left for a later attempt.
    let mut store = store_with_orphans(1000);
    let plan = FaultPlan { fail_fetch_at: None, fail_delete_at: Some(2) };
    let rep = run_sweep(&mut store, plan);
    assert_eq!(rep.fetches, 2);
    assert_eq!(rep.deletes, 2);
    assert_eq!(rep.outcome, SweepOutcome::DeleteFailed);
    assert_eq!(store.entries.len(), 488);
}

#[test]
fn sweep_leaves_linked_entries_alone() {
    let mut store = CatalogStore::new();
    assert!(store.add_entry(1));
    assert!(store.add_entry(2));
    assert!(store.add_entry(3));
    store.add_link(2, 77);
    let rep = run_sweep(&mut store, FaultPlan::none());
    assert_eq!(rep.outcome, SweepOutcome::Complete);
    assert_eq!(store.entries, vec![2]);
    assert_eq!(store.links.len(), 1);
    assert_eq!(store.links[0].entry_id, 2);
    assert_eq!(store.links[0].tag_id, 77);
}

#[test]
fn find_respects_limit_and_order() {
    let mut store = store_with_orphans(5);
    store.add_link(1, 9);
    let found = store.find_entries_without_links(2);
    assert_eq!(found, vec![0, 2]);
    let all = store.find_entries_without_links(512);
    assert_eq!(all, vec![0, 2, 3, 4]);
}

#[test]
fn delete_removes_links_and_entries_for_ids_only() {
    let mut store = CatalogStore::new();
    assert!(store.add_entry(1));
    assert!(store.add_entry(2));
    store.add_link(1, 5);
    store.add_link(2, 6);
    store.delete_links_and_entries(&vec![1]);
    assert_eq!(store.entries, vec![2]);
    assert_eq!(store.links.len(), 1);
    assert_eq!(store.links[0].entry_id, 2);
}

#[test]
fn duplicate_entry_is_rejected() {
    let mut store = CatalogStore::new();
    assert!(store.add_entry(7));
    assert!(!store.add_entry(7));
    assert_eq!(store.entries.len(), 1);
}

#[test]
fn fetch_step_decisions() {
    match on_fetch_result(Ok(vec![4, 5])) {
        FetchStep::DeleteBatch(ids) => assert_eq!(ids, vec![4, 5]),
        _ => panic!("a non-empty fetch must yield a batch"),
    }
    assert!(matches!(on_fetch_result(Ok(vec![])), FetchStep::Finished));
    assert!(matches!(on_fetch_result(Err(StoreError::Failed)), FetchStep::Abort));
}

#[test]
fn delete_step_decisions() {
    assert_eq!(on_delete_result(Ok(())), DeleteStep::Continue);
    assert_eq!(on_delete_result(Err(StoreError::Failed)), DeleteStep::Abort);
}
