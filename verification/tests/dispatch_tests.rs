use stump_core::event::{CoreEvent, DispatchClosed, HandlingOutcome, InternalCoreTask};
use stump_core::event_manager::{EventManager, StepResult};

fn start(id: &str) -> InternalCoreTask {
    InternalCoreTask::StartJob(id.to_string())
}

fn cancel(id: &str) -> InternalCoreTask {
    InternalCoreTask::CancelJob(id.to_string())
}

#[test]
fn tasks_processed_in_submission_order() {
    let mut m = EventManager::new(8);
    let tasks = vec![start("a"), cancel("b"), start("c"), InternalCoreTask::QueryJob("a".to_string())];
    for t in tasks.iter() {
        assert!(m.submit_task(t.clone()).is_ok());
    }
    let mut seen: Vec<InternalCoreTask> = Vec::new();
    loop {
        match m.process_next(HandlingOutcome::Succeeded) {
            StepResult::Processed(t) => seen.push(t),
            StepResult::Idle => break,
            StepResult::Closed => panic!("loop terminated unexpectedly"),
        }
    }
    assert_eq!(seen, tasks);
}

#[test]
fn submit_after_termination_fails_with_dispatch_closed() {
    let mut m = EventManager::new(8);
    m.terminate();
    assert_eq!(m.submit_task(start("a")), Err(DispatchClosed));
    assert_eq!(m.process_next(HandlingOutcome::Succeeded), StepResult::Closed);
}

#[test]
fn shutdown_task_terminates_and_closes_subscriptions() {
    let mut m = EventManager::new(8);
    let sid = m.subscribe();
    assert!(m.submit_task(InternalCoreTask::Shutdown).is_ok());
    assert_eq!(
        m.process_next(HandlingOutcome::Succeeded),
        StepResult::Processed(InternalCoreTask::Shutdown)
    );
    assert!(!m.is_running());
    assert_eq!(m.subscriber_count(), 0);
    assert_eq!(m.recv_event(sid), None);
    assert_eq!(m.submit_task(start("a")), Err(DispatchClosed));
}

#[test]
fn failed_handling_reports_one_failure_and_loop_continues() {
    let mut m = EventManager::new(8);
    let sid = m.subscribe();
    assert!(m.submit_task(start("a")).is_ok());
    assert!(m.submit_task(start("b")).is_ok());
    // The delegated part of starting job `a` fails.
    assert_eq!(
        m.process_next(HandlingOutcome::Failed("disk error".to_string())),
        StepResult::Processed(start("a"))
    );
    // Exactly one failure event, and the loop processes the next task.
    assert_eq!(
        m.recv_event(sid),
        Some(CoreEvent::JobFailed("a".to_string(), "disk error".to_string()))
    );
    assert_eq!(m.recv_event(sid), None);
    assert!(m.is_running());
    assert_eq!(
        m.process_next(HandlingOutcome::Succeeded),
        StepResult::Processed(start("b"))
    );
    assert_eq!(m.recv_event(sid), Some(CoreEvent::JobStarted("b".to_string())));
    assert!(!m.cancel_requested(&"a".to_string()));
}

#[test]
fn disconnected_subscriber_is_reclaimed_by_next_broadcast() {
    let mut m = EventManager::new(8);
    let sid1 = m.subscribe();
    let sid2 = m.subscribe();
    assert_eq!(m.subscriber_count(), 2);
    m.disconnect(sid1);
    // The entry stays until the next broadcast reclaims it.
    m.report_progress(&"a".to_string(), 1);
    assert_eq!(m.subscriber_count(), 1);
    assert_eq!(m.recv_event(sid1), None);
    assert_eq!(m.recv_event(sid2), Some(CoreEvent::JobProgress("a".to_string(), 1)));
}

#[test]
fn scenario_start_start_cancel_without_subscribers() {
    let mut m = EventManager::new(8);
    assert!(m.submit_task(start("A")).is_ok());
    assert!(m.submit_task(start("B")).is_ok());
    assert!(m.submit_task(cancel("A")).is_ok());
    assert_eq!(
        m.process_next(HandlingOutcome::Succeeded),
        StepResult::Processed(start("A"))
    );
    assert_eq!(
        m.process_next(HandlingOutcome::Succeeded),
        StepResult::Processed(start("B"))
    );
    assert_eq!(
        m.process_next(HandlingOutcome::Succeeded),
        StepResult::Processed(cancel("A"))
    );
    assert_eq!(m.process_next(HandlingOutcome::Succeeded), StepResult::Idle);
    assert!(m.is_running());
    // The cancel raised the advisory flag on job A only.
    assert!(m.cancel_requested(&"A".to_string()));
    assert!(!m.cancel_requested(&"B".to_string()));
}

#[test]
fn scenario_two_subscribers_then_unregister_one() {
    let mut m = EventManager::new(8);
    let sid1 = m.subscribe();
    let sid2 = m.subscribe();
    m.complete_job(&"A".to_string());
    let done_a = CoreEvent::JobCompleted("A".to_string());
    assert_eq!(m.recv_event(sid1), Some(done_a.clone()));
    assert_eq!(m.recv_event(sid1), None);
    assert_eq!(m.recv_event(sid2), Some(done_a));
    assert_eq!(m.recv_event(sid2), None);
    m.disconnect(sid1);
    m.complete_job(&"B".to_string());
    assert_eq!(m.recv_event(sid1), None);
    assert_eq!(m.recv_event(sid2), Some(CoreEvent::JobCompleted("B".to_string())));
    assert_eq!(m.recv_event(sid2), None);
}

#[test]
fn scenario_overflow_drops_oldest_while_draining_subscriber_sees_all() {
    let id = "scan".to_string();
    let mut m = EventManager::new(2);
    let slow = m.subscribe();
    let fast = m.subscribe();
    let mut fast_seen: Vec<CoreEvent> = Vec::new();
    for step in 1..=3u64 {
        m.report_progress(&id, step);
        fast_seen.push(m.recv_event(fast).expect("fast subscriber drains each event"));
    }
    assert_eq!(
        fast_seen,
        vec![
            CoreEvent::JobProgress(id.clone(), 1),
            CoreEvent::JobProgress(id.clone(), 2),
            CoreEvent::JobProgress(id.clone(), 3),
        ]
    );
    // The slow subscriber's buffer of two overflowed: the oldest event was
    // dropped and the two newest remain, in order.
    assert_eq!(m.recv_event(slow), Some(CoreEvent::JobProgress(id.clone(), 2)));
    assert_eq!(m.recv_event(slow), Some(CoreEvent::JobProgress(id.clone(), 3)));
    assert_eq!(m.recv_event(slow), None);
}

#[test]
fn subscriber_gets_events_in_order_and_no_replay() {
    let id = "scan".to_string();
    let mut m = EventManager::new(8);
    m.report_progress(&id, 1);
    // Registered after the first broadcast: no replay of it.
    let sid = m.subscribe();
    m.report_progress(&id, 2);
    m.complete_job(&id);
    assert_eq!(m.recv_event(sid), Some(CoreEvent::JobProgress(id.clone(), 2)));
    assert_eq!(m.recv_event(sid), Some(CoreEvent::JobCompleted(id.clone())));
    assert_eq!(m.recv_event(sid), None);
}

#[test]
fn query_job_reports_running_state() {
    let mut m = EventManager::new(8);
    let sid = m.subscribe();
    assert!(m.submit_task(start("A")).is_ok());
    assert!(m.submit_task(InternalCoreTask::QueryJob("A".to_string())).is_ok());
    assert!(m.submit_task(InternalCoreTask::QueryJob("B".to_string())).is_ok());
    assert_eq!(
        m.process_next(HandlingOutcome::Succeeded),
        StepResult::Processed(start("A"))
    );
    assert_eq!(
        m.process_next(HandlingOutcome::Succeeded),
        StepResult::Processed(InternalCoreTask::QueryJob("A".to_string()))
    );
    assert_eq!(
        m.process_next(HandlingOutcome::Succeeded),
        StepResult::Processed(InternalCoreTask::QueryJob("B".to_string()))
    );
    assert_eq!(m.recv_event(sid), Some(CoreEvent::JobStarted("A".to_string())));
    assert_eq!(m.recv_event(sid), Some(CoreEvent::JobState("A".to_string(), true)));
    assert_eq!(m.recv_event(sid), Some(CoreEvent::JobState("B".to_string(), false)));
    assert_eq!(m.recv_event(sid), None);
}

#[test]
fn completed_job_leaves_the_tracked_set() {
    let id = "A".to_string();
    let mut m = EventManager::new(8);
    let sid = m.subscribe();
    assert!(m.submit_task(start("A")).is_ok());
    assert_eq!(m.process_next(HandlingOutcome::Succeeded), StepResult::Processed(start("A")));
    m.complete_job(&id);
    assert_eq!(m.recv_event(sid), Some(CoreEvent::JobStarted(id.clone())));
    assert_eq!(m.recv_event(sid), Some(CoreEvent::JobCompleted(id.clone())));
    // A query now reports the job as not running.
    assert!(m.submit_task(InternalCoreTask::QueryJob(id.clone())).is_ok());
    assert_eq!(
        m.process_next(HandlingOutcome::Succeeded),
        StepResult::Processed(InternalCoreTask::QueryJob(id.clone()))
    );
    assert_eq!(m.recv_event(sid), Some(CoreEvent::JobState(id.clone(), false)));
}

#[test]
fn failed_delegated_work_is_relayed_as_failure_event() {
    let id = "A".to_string();
    let mut m = EventManager::new(8);
    let sid = m.subscribe();
    assert!(m.submit_task(start("A")).is_ok());
    assert_eq!(m.process_next(HandlingOutcome::Succeeded), StepResult::Processed(start("A")));
    m.fail_job(&id, "storage gone".to_string());
    assert_eq!(m.recv_event(sid), Some(CoreEvent::JobStarted(id.clone())));
    assert_eq!(
        m.recv_event(sid),
        Some(CoreEvent::JobFailed(id.clone(), "storage gone".to_string()))
    );
    assert!(m.is_running());
    assert!(!m.cancel_requested(&id));
}
