//! The claim lifecycle of the job queue and the bounded scheduler.

use listeria_core::queue::{JobQueue, JobRecord, JobStatus};
use listeria_core::scheduler::{Directive, Scheduler, SchedulerEvent};

fn record(id: u64, target: &str, collection: &str, status: JobStatus) -> JobRecord {
    JobRecord {
        id,
        target: target.to_string(),
        collection: collection.to_string(),
        status,
    }
}

fn filled_queue() -> JobQueue {
    let mut q = JobQueue::new();
    assert!(q.enqueue(record(1, "Page one", "enwiki", JobStatus::Pending)));
    assert!(q.enqueue(record(2, "Page two", "enwiki", JobStatus::Pending)));
    assert!(q.enqueue(record(3, "Page three", "enwiki", JobStatus::Pending)));
    q
}

fn eligible() -> Vec<String> {
    vec!["enwiki".to_string()]
}

#[test]
fn claim_marks_running_and_returns_the_record() {
    let mut q = filled_queue();
    let rec = q.claim_next(&eligible()).expect("claimable record");
    assert_eq!(rec.id, 1);
    assert_eq!(rec.status, JobStatus::Running);
    assert_eq!(q.get(0).status, JobStatus::Running);
    assert_eq!(q.get(1).status, JobStatus::Pending);
}

#[test]
fn two_claims_never_return_the_same_record() {
    let mut q = filled_queue();
    let first = q.claim_next(&eligible()).expect("first claim");
    let second = q.claim_next(&eligible()).expect("second claim");
    assert_ne!(first.id, second.id);
}

#[test]
fn claims_drain_the_queue_exactly_once_each() {
    let mut q = filled_queue();
    let a = q.claim_next(&eligible()).expect("a");
    let b = q.claim_next(&eligible()).expect("b");
    let c = q.claim_next(&eligible()).expect("c");
    assert_eq!(
        {
            let mut ids = vec![a.id, b.id, c.id];
            ids.sort();
            ids
        },
        vec![1, 2, 3]
    );
    assert!(q.claim_next(&eligible()).is_none());
}

#[test]
fn failed_record_is_never_claimed_again() {
    let mut q = filled_queue();
    let rec = q.claim_next(&eligible()).expect("claim");
    assert!(q.release(rec.id, JobStatus::Failed));
    loop {
        match q.claim_next(&eligible()) {
            Some(other) => assert_ne!(other.id, rec.id),
            None => break,
        }
    }
}

#[test]
fn release_is_harmless_when_nothing_runs() {
    let mut q = filled_queue();
    assert!(!q.release(1, JobStatus::Done));
    assert_eq!(q.get(0).status, JobStatus::Pending);
}

#[test]
fn ineligible_collection_is_skipped() {
    let mut q = JobQueue::new();
    assert!(q.enqueue(record(7, "Elsewhere", "frwiki", JobStatus::Pending)));
    assert!(q.enqueue(record(8, "Here", "enwiki", JobStatus::Pending)));
    let rec = q.claim_next(&eligible()).expect("eligible record");
    assert_eq!(rec.id, 8);
    assert!(q.claim_next(&eligible()).is_none());
}

#[test]
fn duplicate_id_is_refused() {
    let mut q = JobQueue::new();
    assert!(q.enqueue(record(1, "One", "enwiki", JobStatus::Pending)));
    assert!(!q.enqueue(record(1, "Again", "enwiki", JobStatus::Pending)));
    assert_eq!(q.len(), 1);
}

#[test]
fn startup_reset_makes_stale_running_claimable() {
    let mut q = JobQueue::new();
    assert!(q.enqueue(record(1, "Left running", "enwiki", JobStatus::Running)));
    assert!(q.enqueue(record(2, "Done earlier", "enwiki", JobStatus::Done)));
    assert!(q.enqueue(record(3, "Also stale", "enwiki", JobStatus::Running)));
    let reset = q.reset_stale_running();
    assert_eq!(reset, 2);
    assert_eq!(q.get(0).status, JobStatus::Pending);
    assert_eq!(q.get(1).status, JobStatus::Done);
    assert_eq!(q.get(2).status, JobStatus::Pending);
    let rec = q.claim_next(&eligible()).expect("stale record claimable again");
    assert_eq!(rec.id, 1);
}

#[test]
fn scheduler_decisions() {
    let mut s = Scheduler::new(2);
    assert!(matches!(s.step(SchedulerEvent::Tick), Directive::TryClaim));
    assert!(matches!(s.step(SchedulerEvent::Claimed(None)), Directive::Sleep));
    let rec = record(5, "Page", "enwiki", JobStatus::Running);
    match s.step(SchedulerEvent::Claimed(Some(rec))) {
        Directive::Spawn(spawned) => assert_eq!(spawned.id, 5),
        _ => panic!("a claimed record must be spawned"),
    }
    match s.step(SchedulerEvent::TaskEnded(5, true)) {
        Directive::Release(id, status) => {
            assert_eq!(id, 5);
            assert_eq!(status, JobStatus::Done);
        }
        _ => panic!("a finished task must be released"),
    }
    assert!(s.can_spawn());
}

#[test]
fn failed_task_releases_as_failed() {
    let mut s = Scheduler::new(1);
    let rec = record(9, "Page", "enwiki", JobStatus::Running);
    match s.step(SchedulerEvent::Claimed(Some(rec))) {
        Directive::Spawn(_) => {}
        _ => panic!("spawn expected"),
    }
    match s.step(SchedulerEvent::TaskEnded(9, false)) {
        Directive::Release(id, status) => {
            assert_eq!(id, 9);
            assert_eq!(status, JobStatus::Failed);
        }
        _ => panic!("release expected"),
    }
}

#[test]
fn three_records_under_ceiling_two() {
    // Three pending records, ceiling two: never more than two running at
    // once, and all three end done or failed.
    let mut q = filled_queue();
    let mut s = Scheduler::new(2);
    let mut in_flight: Vec<u64> = Vec::new();
    let mut finished = 0u32;
    let mut outcome_ok = true;
    while finished < 3 {
        let directive = if !in_flight.is_empty() && !s.can_spawn() {
            // At the ceiling: the next observed event is a task ending.
            let id = in_flight.remove(0);
            s.step(SchedulerEvent::TaskEnded(id, outcome_ok))
        } else {
            s.step(SchedulerEvent::Tick)
        };
        match directive {
            Directive::Sleep => {
                // Queue empty below the ceiling: drain one running task.
                match in_flight.first().copied() {
                    Some(id) => {
                        in_flight.remove(0);
                        match s.step(SchedulerEvent::TaskEnded(id, outcome_ok)) {
                            Directive::Release(rid, status) => {
                                assert!(q.release(rid, status));
                                finished += 1;
                                outcome_ok = !outcome_ok;
                            }
                            _ => panic!("release expected"),
                        }
                    }
                    None => break,
                }
            }
            Directive::TryClaim => {
                let claimed = q.claim_next(&eligible());
                match s.step(SchedulerEvent::Claimed(claimed)) {
                    Directive::Spawn(rec) => in_flight.push(rec.id),
                    Directive::Sleep => {
                        // Nothing claimable: drain one running task so the
                        // loop makes progress, as the waiting coordinator
                        // eventually observes a task ending.
                        if let Some(id) = in_flight.first().copied() {
                            in_flight.remove(0);
                            match s.step(SchedulerEvent::TaskEnded(id, outcome_ok)) {
                                Directive::Release(rid, status) => {
                                    assert!(q.release(rid, status));
                                    finished += 1;
                                    outcome_ok = !outcome_ok;
                                }
                                _ => panic!("release expected"),
                            }
                        }
                    }
                    _ => panic!("spawn or sleep expected after a claim"),
                }
            }
            Directive::Release(rid, status) => {
                assert!(q.release(rid, status));
                finished += 1;
                outcome_ok = !outcome_ok;
            }
            Directive::Spawn(_) => panic!("spawn without a claim"),
        }
        // The ceiling holds at every instant.
        assert!(in_flight.len() <= 2);
        let mut running = 0;
        for i in 0..q.len() {
            if q.get(i).status == JobStatus::Running {
                running += 1;
            }
        }
        assert!(running <= 2);
    }
    for i in 0..q.len() {
        let st = q.get(i).status;
        assert!(st == JobStatus::Done || st == JobStatus::Failed);
    }
}
