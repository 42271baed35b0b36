use solhat_ui::cancel::{
    check_cancel_status, is_cancel_requested, reset_cancel_status, set_request_cancel,
    set_task_cancelled, CancelContainer, CancelStatus, TaskCompletion,
};
use solhat_ui::taskstatus::{
    get_task_status, is_task_running, set_task_completed, set_task_status, StageProgress,
    TaskStatus, TaskStatusContainer,
};

fn snapshot(t: &TaskStatusContainer) -> Option<(String, usize, usize)> {
    get_task_status(t).map(|TaskStatus::TaskPercentage(l, n, c)| (l, n, c))
}

#[test]
fn status_slot_overwrite_and_clear() {
    let mut t = TaskStatusContainer::default();
    assert!(!is_task_running(&t));
    assert_eq!(snapshot(&t), None);
    set_task_status(&mut t, "stacking", 10, 3);
    assert!(is_task_running(&t));
    assert_eq!(snapshot(&t), Some(("stacking".to_owned(), 10, 3)));
    set_task_status(&mut t, "saving", 0, 0);
    assert_eq!(snapshot(&t), Some(("saving".to_owned(), 0, 0)));
    set_task_completed(&mut t);
    assert!(!is_task_running(&t));
}

#[test]
fn cancel_request_is_idempotent_and_sticky_after_cancel() {
    let mut c = CancelContainer::new();
    assert_eq!(c.status, CancelStatus::NoStatus);
    set_request_cancel(&mut c);
    set_request_cancel(&mut c);
    assert_eq!(c.status, CancelStatus::CancelRequested);
    assert!(is_cancel_requested(&c));
    set_task_cancelled(&mut c);
    set_request_cancel(&mut c);
    assert_eq!(c.status, CancelStatus::Cancelled);
    assert!(!is_cancel_requested(&c));
    reset_cancel_status(&mut c);
    assert_eq!(c.status, CancelStatus::NoStatus);
}

#[test]
fn checkpoint_without_request_continues() {
    let mut c = CancelContainer::default();
    let mut t = TaskStatusContainer::new();
    set_task_status(&mut t, "stacking", 4, 1);
    assert_eq!(check_cancel_status(&mut c, &mut t), Ok(TaskCompletion::Completed));
    assert_eq!(c.status, CancelStatus::NoStatus);
    assert_eq!(snapshot(&t), Some(("stacking".to_owned(), 4, 1)));
}

#[test]
fn checkpoint_with_request_cancels_and_clears() {
    let mut c = CancelContainer::new();
    let mut t = TaskStatusContainer::new();
    set_task_status(&mut t, "stacking", 4, 1);
    set_request_cancel(&mut c);
    assert_eq!(check_cancel_status(&mut c, &mut t), Err(TaskCompletion::Cancelled));
    assert_eq!(c.status, CancelStatus::Cancelled);
    assert!(!is_task_running(&t));
    // a second checkpoint sees no pending request
    assert_eq!(check_cancel_status(&mut c, &mut t), Ok(TaskCompletion::Completed));
}

#[test]
fn stage_progress_counts_up_to_total() {
    let mut t = TaskStatusContainer::new();
    let mut p = StageProgress::begin(&mut t, "frame limiting", 3);
    assert_eq!(snapshot(&t), Some(("frame limiting".to_owned(), 3, 0)));
    let mut last = 0;
    for _ in 0..5 {
        p.unit_done(&mut t);
        let (label, total, done) = snapshot(&t).unwrap();
        assert_eq!(label, "frame limiting");
        assert_eq!(total, 3);
        assert!(done >= last && done <= total);
        last = done;
    }
    assert_eq!(last, 3);
}

#[test]
fn late_tick_of_earlier_stage_does_not_overwrite() {
    let mut t = TaskStatusContainer::new();
    let mut old_stage = StageProgress::begin(&mut t, "frame limiting", 3);
    let _new_stage = StageProgress::begin(&mut t, "rotation analysis", 3);
    old_stage.unit_done(&mut t);
    assert_eq!(snapshot(&t), Some(("rotation analysis".to_owned(), 3, 0)));
    set_task_completed(&mut t);
    old_stage.unit_done(&mut t);
    assert_eq!(snapshot(&t), None);
}
