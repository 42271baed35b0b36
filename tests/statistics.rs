use solhat_ui::analysis::{AnalysisChart, DEFAULT_SMA_PERIOD};
use solhat_ui::quality::{FrameOffset, ScoredFrame};
use solhat_ui::sigma::{AnalysisRange, AnalysisSeries, Mean};

fn series(v: &[i64]) -> AnalysisSeries {
    AnalysisSeries::new(v.to_vec())
}

fn frame(id: usize, sigma: i64) -> ScoredFrame {
    ScoredFrame { frame_id: id, offset: FrameOffset { h: 0, v: 0 }, sigma }
}

#[test]
fn sorted_list_is_descending_permutation() {
    let s = series(&[3, -1, 7, 3, 0, 12, -5]);
    let sorted = s.sorted_list();
    assert_eq!(sorted, vec![12, 7, 3, 3, 0, -1, -5]);
    assert_eq!(s.sigma_list, vec![3, -1, 7, 3, 0, 12, -5]);
}

#[test]
fn sorted_list_of_empty_series() {
    assert_eq!(series(&[]).sorted_list(), Vec::<i64>::new());
}

#[test]
fn minmax_matches_scan() {
    let r = series(&[4, -2, 9, 0]).minmax();
    assert_eq!(r, AnalysisRange { min: -2, max: 9 });
    let one = series(&[6]).minmax();
    assert_eq!(one, AnalysisRange { min: 6, max: 6 });
}

#[test]
fn minmax_of_empty_gives_sentinels() {
    let r = series(&[]).minmax();
    assert_eq!(r.min, i64::MAX);
    assert_eq!(r.max, i64::MIN);
}

#[test]
fn sma_window_two() {
    let m = series(&[1, 2, 3, 4, 5]).sma(2);
    let expected = vec![
        Mean { sum: 1, count: 1 },
        Mean { sum: 3, count: 2 },
        Mean { sum: 5, count: 2 },
        Mean { sum: 7, count: 2 },
        Mean { sum: 9, count: 2 },
    ];
    assert_eq!(m, expected);
    let as_f64: Vec<f64> = m.iter().map(|x| x.sum as f64 / x.count as f64).collect();
    assert_eq!(as_f64, vec![1.0, 1.5, 2.5, 3.5, 4.5]);
}

#[test]
fn sma_window_five_shrinks_at_ends() {
    let m = series(&[10, 20, 30, 40]).sma(5);
    // half window 2: [0,2) [0,3) [0,4) [1,4)
    assert_eq!(
        m,
        vec![
            Mean { sum: 30, count: 2 },
            Mean { sum: 60, count: 3 },
            Mean { sum: 100, count: 4 },
            Mean { sum: 90, count: 3 },
        ]
    );
}

#[test]
fn sma_window_below_two_has_empty_windows() {
    let m = series(&[1, 2]).sma(1);
    assert_eq!(m, vec![Mean { sum: 0, count: 0 }, Mean { sum: 0, count: 0 }]);
}

#[test]
fn sma_of_extreme_values_does_not_overflow() {
    let m = series(&[i64::MAX, i64::MAX, i64::MAX]).sma(4);
    assert_eq!(m[1], Mean { sum: 3 * (i64::MAX as i128), count: 3 });
}

#[test]
fn sigma_bounds_keep_inner_frames_in_order() {
    let frames = vec![frame(0, 5), frame(1, 50), frame(2, 500), frame(3, 5000)];
    let s = AnalysisSeries::from_scored_frames(&frames, Some(10), Some(1000));
    assert_eq!(s.sigma_list, vec![50, 500]);
}

#[test]
fn sigma_bounds_are_inclusive_and_optional() {
    let frames = vec![frame(0, 10), frame(1, 1000), frame(2, 1001), frame(3, 9)];
    let s = AnalysisSeries::from_scored_frames(&frames, Some(10), Some(1000));
    assert_eq!(s.sigma_list, vec![10, 1000]);
    let open = AnalysisSeries::from_scored_frames(&frames, None, None);
    assert_eq!(open.sigma_list, vec![10, 1000, 1001, 9]);
    let low_only = AnalysisSeries::from_scored_frames(&frames, Some(1000), None);
    assert_eq!(low_only.sigma_list, vec![1000, 1001]);
}

#[test]
fn chart_defaults_and_emptiness() {
    let c = AnalysisChart::default();
    assert!(c.is_empty());
    assert_eq!(c.sma_period, DEFAULT_SMA_PERIOD);
    assert!(c.show_axes && c.show_grid);
    let c = AnalysisChart::new(series(&[1, 2, 3]));
    assert!(!c.is_empty());
    assert_eq!(c.sma_line().len(), 3);
    assert_eq!(c.sma_line()[1], Mean { sum: 6, count: 3 });
}
