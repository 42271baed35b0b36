use solhat_ui::cancel::{set_request_cancel, CancelContainer, CancelStatus, TaskCompletion};
use solhat_ui::quality::{sample_point, FrameOffset, FrameQualityAnalyzer, ScoredFrame};
use solhat_ui::sigma::complete_sigma_analysis;
use solhat_ui::taskstatus::{get_task_status, set_task_status, TaskStatus, TaskStatusContainer};

fn frame(id: usize, sigma: i64) -> ScoredFrame {
    ScoredFrame { frame_id: id, offset: FrameOffset { h: id as i64, v: -(id as i64) }, sigma }
}

fn completed_count(t: &TaskStatusContainer) -> Option<usize> {
    get_task_status(t).map(|TaskStatus::TaskPercentage(_, _, c)| c)
}

fn run_in_order(order: &[usize], sigmas: &[i64]) -> Vec<ScoredFrame> {
    let mut c = CancelContainer::new();
    let mut t = TaskStatusContainer::new();
    let mut a = FrameQualityAnalyzer::start(sigmas.len(), &mut c, &mut t).unwrap();
    for &i in order {
        assert!(a.record(frame(i, sigmas[i]), &mut t));
    }
    a.finish().unwrap()
}

#[test]
fn output_is_in_input_order_whatever_the_completion_order() {
    let sigmas = [40, 10, 30, 20];
    let a = run_in_order(&[3, 1, 0, 2], &sigmas);
    let b = run_in_order(&[0, 1, 2, 3], &sigmas);
    assert_eq!(a, b);
    let ids: Vec<usize> = a.iter().map(|f| f.frame_id).collect();
    assert_eq!(ids, vec![0, 1, 2, 3]);
    let got: Vec<i64> = a.iter().map(|f| f.sigma).collect();
    assert_eq!(got, vec![40, 10, 30, 20]);
}

#[test]
fn pending_cancel_stops_analysis_before_start() {
    let mut c = CancelContainer::new();
    let mut t = TaskStatusContainer::new();
    set_task_status(&mut t, "starting", 1, 1);
    set_request_cancel(&mut c);
    let r = FrameQualityAnalyzer::start(3, &mut c, &mut t);
    assert!(matches!(r, Err(TaskCompletion::Cancelled)));
    assert_eq!(c.status, CancelStatus::Cancelled);
    assert!(get_task_status(&t).is_none());
}

#[test]
fn progress_counts_each_frame_once() {
    let mut c = CancelContainer::new();
    let mut t = TaskStatusContainer::new();
    let mut a = FrameQualityAnalyzer::start(3, &mut c, &mut t).unwrap();
    assert_eq!(completed_count(&t), Some(0));
    assert!(a.record(frame(2, 1), &mut t));
    assert_eq!(completed_count(&t), Some(1));
    assert!(!a.record(frame(2, 1), &mut t));
    assert!(!a.record(frame(7, 1), &mut t));
    assert_eq!(completed_count(&t), Some(1));
    assert!(!a.is_complete());
    assert!(a.record(frame(0, 1), &mut t));
    assert!(a.record(frame(1, 1), &mut t));
    assert_eq!(completed_count(&t), Some(3));
    assert!(a.is_complete());
}

#[test]
fn unfinished_pass_gives_no_output() {
    let mut t = TaskStatusContainer::new();
    let mut a = FrameQualityAnalyzer::new(2, &mut t);
    a.record(frame(0, 1), &mut t);
    assert_eq!(a.finish(), None);
}

#[test]
fn diagnostic_pass_filters_and_clears_status() {
    let mut c = CancelContainer::new();
    let mut t = TaskStatusContainer::new();
    let mut a = FrameQualityAnalyzer::start(4, &mut c, &mut t).unwrap();
    for (i, s) in [5, 50, 500, 5000].iter().enumerate().rev() {
        a.record(frame(i, *s), &mut t);
    }
    let series = complete_sigma_analysis(a, Some(10), Some(1000), &mut t).unwrap();
    assert_eq!(series.sigma_list, vec![50, 500]);
    assert!(get_task_status(&t).is_none());
}

#[test]
fn diagnostic_pass_missing_a_frame_is_an_error() {
    let mut t = TaskStatusContainer::new();
    let mut a = FrameQualityAnalyzer::new(2, &mut t);
    a.record(frame(1, 3), &mut t);
    let r = complete_sigma_analysis(a, None, None, &mut t);
    assert!(matches!(r, Err(TaskCompletion::Error(_))));
    assert!(get_task_status(&t).is_none());
}

#[test]
fn sample_point_is_center_plus_offset() {
    assert_eq!(sample_point(100, 80, FrameOffset { h: 5, v: -7 }), Some((55, 33)));
    assert_eq!(sample_point(101, 81, FrameOffset { h: 0, v: 0 }), Some((50, 40)));
    assert_eq!(sample_point(100, 80, FrameOffset { h: -50, v: 39 }), Some((0, 79)));
}

#[test]
fn sample_point_outside_frame_is_none() {
    assert_eq!(sample_point(100, 80, FrameOffset { h: 50, v: 0 }), None);
    assert_eq!(sample_point(100, 80, FrameOffset { h: 0, v: -41 }), None);
    assert_eq!(sample_point(0, 0, FrameOffset { h: 0, v: 0 }), None);
    assert_eq!(sample_point(10, 10, FrameOffset { h: i64::MIN, v: i64::MAX }), None);
}
