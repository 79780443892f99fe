//! General x/y data: an increasing x axis and one row of y values per channel.
use vstd::prelude::*;

pub mod real_data;
pub mod extrema;

pub use real_data::RealData;

verus! {

/// Why x/y data could not be built.
#[derive(Debug, Clone, Copy, PartialEq, Eq, Structural)]
pub enum DataError {
    NotMatching,
    NotIncreasing,
}

/// The message of each data error.
pub open spec fn data_error_text(e: DataError) -> Seq<char> {
    match e {
        DataError::NotMatching => "x data has not the same length as y data"@,
        DataError::NotIncreasing => "x data is not increasing"@,
    }
}

impl DataError {
    /// The error's message.
    pub fn message(&self) -> (m: &'static str)
        ensures
            m@ == data_error_text(*self),
    {
        proof {
            reveal_strlit("x data has not the same length as y data");
            reveal_strlit("x data is not increasing");
        }
        match self {
            DataError::NotMatching => "x data has not the same length as y data",
            DataError::NotIncreasing => "x data is not increasing",
        }
    }
}

} // verus!
