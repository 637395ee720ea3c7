use local_gist::batch::{summarize, BatchSummary, DownloadOutcome, ItemPhase};
use local_gist::gate::ConcurrencyGate;

fn outcome(id: &str, error: Option<&str>) -> DownloadOutcome {
    DownloadOutcome::from_result(id.to_string(), error.map(|e| e.to_string()))
}

#[test]
fn one_failure_among_five_is_counted_alone() {
    let outcomes = vec![
        outcome("a", None),
        outcome("b", None),
        outcome("c", Some("fetch failed")),
        outcome("d", None),
        outcome("e", None),
    ];
    let summary: BatchSummary = summarize(&outcomes);
    assert_eq!(summary.total, 5);
    assert_eq!(summary.succeeded, 4);
    assert_eq!(summary.failed, 1);
}

#[test]
fn empty_batch_reports_zeroes() {
    let summary = summarize(&Vec::new());
    assert_eq!(summary.total, 0);
    assert_eq!(summary.succeeded, 0);
    assert_eq!(summary.failed, 0);
}

#[test]
fn all_failures_are_all_counted() {
    let outcomes = vec![outcome("a", Some("x")), outcome("b", Some("y"))];
    let summary = summarize(&outcomes);
    assert_eq!(summary.total, 2);
    assert_eq!(summary.succeeded, 0);
    assert_eq!(summary.failed, 2);
}

#[test]
fn outcome_succeeds_exactly_without_error() {
    let ok = outcome("a", None);
    assert!(ok.success);
    assert!(ok.error.is_none());
    assert_eq!(ok.item_id, "a");

    let bad = outcome("b", Some("disk full"));
    assert!(!bad.success);
    assert_eq!(bad.error.as_deref(), Some("disk full"));
}

#[test]
fn item_task_walks_its_phases_to_success() {
    let p = ItemPhase::Pending;
    let p = p.step(true);
    assert!(matches!(p, ItemPhase::AcquiringPermit));
    let p = p.step(true);
    assert!(matches!(p, ItemPhase::Fetching));
    let p = p.step(true);
    assert!(matches!(p, ItemPhase::Writing));
    let p = p.step(true);
    assert!(matches!(p, ItemPhase::Succeeded));
    let p = p.step(false);
    assert!(matches!(p, ItemPhase::Succeeded));
}

#[test]
fn failed_stage_ends_the_task_for_good() {
    let p = ItemPhase::Fetching.step(false);
    assert!(matches!(p, ItemPhase::Failed));
    assert!(matches!(p.step(true), ItemPhase::Failed));
    let w = ItemPhase::Writing.step(false);
    assert!(matches!(w, ItemPhase::Failed));
}

#[test]
fn gate_hands_out_at_most_its_capacity() {
    let mut gate = ConcurrencyGate::new(2);
    assert_eq!(gate.capacity(), 2);
    assert!(gate.try_acquire());
    assert!(gate.try_acquire());
    assert_eq!(gate.in_flight(), 2);
    assert!(!gate.try_acquire());
    assert_eq!(gate.in_flight(), 2);
    gate.release();
    assert_eq!(gate.in_flight(), 1);
    assert!(gate.try_acquire());
    assert!(!gate.try_acquire());
}

#[test]
fn five_items_through_two_permits_never_exceed_two() {
    let mut gate = ConcurrencyGate::new(2);
    let mut peak = 0;
    let mut done = 0;
    let mut waiting = 5;
    let mut running = 0;
    while done < 5 {
        while waiting > 0 && gate.try_acquire() {
            waiting -= 1;
            running += 1;
            if gate.in_flight() > peak {
                peak = gate.in_flight();
            }
        }
        assert!(gate.in_flight() <= gate.capacity());
        gate.release();
        running -= 1;
        done += 1;
    }
    assert_eq!(peak, 2);
    assert_eq!(running, 0);
    assert_eq!(gate.in_flight(), 0);
}
