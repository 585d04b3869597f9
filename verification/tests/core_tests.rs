use stump_core::context::Ctx;
use stump_core::event::{HandlingOutcome, InternalCoreTask};
use stump_core::event_manager::StepResult;
use stump_core::{StumpCore, EVENT_BUFFER_CAPACITY, STUMP_SHADOW_TEXT};

#[test]
fn new_core_starts_running_with_nothing_queued() {
    let mut core = StumpCore::new();
    assert!(core.event_manager.is_running());
    assert_eq!(core.event_manager.pending_count(), 0);
    assert_eq!(core.event_manager.subscriber_count(), 0);
    assert_eq!(
        core.event_manager.process_next(HandlingOutcome::Succeeded),
        StepResult::Idle
    );
}

#[test]
fn context_clones_name_the_same_machinery() {
    let core = StumpCore::new();
    let a = core.get_context();
    let b = core.get_context();
    assert_eq!(a, b);
    assert_eq!(a.get_ctx(), b.get_ctx());
    assert_eq!(Ctx::new(7).core_id, 7);
    assert_eq!(Ctx::new(7).get_ctx(), Ctx::new(7));
}

#[test]
fn shadow_text_is_the_startup_banner() {
    let core = StumpCore::new();
    assert_eq!(core.get_shadow_text(), STUMP_SHADOW_TEXT);
    assert!(core.get_shadow_text().contains("_____"));
}

#[test]
fn arced_core_still_submits_through_its_manager() {
    let core = StumpCore::new();
    let shared = core.arced();
    assert!(shared.event_manager.is_running());
    assert!(EVENT_BUFFER_CAPACITY >= 1);
    // One more core, driven through the queue directly.
    let mut other = StumpCore::new();
    assert!(other
        .event_manager
        .submit_task(InternalCoreTask::StartJob("scan".to_string()))
        .is_ok());
    assert_eq!(other.event_manager.pending_count(), 1);
}
