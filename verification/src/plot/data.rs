//! Settings of plots of general x/y data.
use vstd::prelude::*;

verus! {

/// Settings of an x/y data plot.
#[derive(Clone, Copy, Debug, PartialEq, Eq, Structural)]
pub struct RealDataPlotOptions {
    /// Logarithmic x axis.
    pub log_x: bool,
}

impl Default for RealDataPlotOptions {
    /// A linear x axis.
    fn default() -> (o: RealDataPlotOptions)
        ensures
            !o.log_x,
    {
        RealDataPlotOptions { log_x: false }
    }
}

} // verus!
