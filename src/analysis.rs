use vstd::prelude::*;

use crate::sigma::{sma_at, AnalysisSeries, Mean};

verus! {

/// The default width of the chart's moving-average window.
pub const DEFAULT_SMA_PERIOD: usize = 5;

/// What the quality chart shows: a series, the moving-average window drawn over it,
/// and whether axes and grid are drawn.
#[derive(Debug, Clone)]
pub struct AnalysisChart {
    pub data: AnalysisSeries,
    pub sma_period: usize,
    pub show_axes: bool,
    pub show_grid: bool,
}

impl AnalysisChart {
    /// A chart of `data` with the default window, axes and grid shown.
    pub fn new(data: AnalysisSeries) -> (r: AnalysisChart)
        ensures
            r.data == data,
            r.sma_period == DEFAULT_SMA_PERIOD,
            r.show_axes,
            r.show_grid,
    {
        AnalysisChart { data, sma_period: DEFAULT_SMA_PERIOD, show_axes: true, show_grid: true }
    }

    /// Whether there is nothing to draw.
    pub fn is_empty(&self) -> (r: bool)
        ensures
            r == (self.data.sigma_list@.len() == 0),
    {
        self.data.sigma_list.len() == 0
    }

    /// The moving average drawn over the series, with the chart's window.
    pub fn sma_line(&self) -> (r: Vec<Mean>)
        ensures
            r@.len() == self.data.sigma_list@.len(),
            forall|i: int| 0 <= i < r@.len() ==> r@[i] == sma_at(self.data.sigma_list@, self.sma_period as nat, i),
    {
        self.data.sma(self.sma_period)
    }
}

impl Default for AnalysisChart {
    fn default() -> (r: AnalysisChart)
        ensures
            r.data.sigma_list@.len() == 0,
            r.sma_period == DEFAULT_SMA_PERIOD,
            r.show_axes,
            r.show_grid,
    {
        AnalysisChart::new(AnalysisSeries::new(Vec::new()))
    }
}

} // verus!
