//! Real-valued x/y data.
use vstd::prelude::*;
use vstd::string::*;
use crate::binary64::{from_integer, greater_than, gt, of_integer};
use crate::data::DataError;
use crate::grid::{SampleGrid, SampleLine, grid_rows, grid_width, line_values, rectangular, shape_fits, zero_rows};
use crate::signal::time_signal::{opt_str_view, opt_string_view, owned_comment};

verus! {

/// Every value is above its predecessor, compared as binary64 values (a NaN
/// is above nothing).
pub open spec fn strictly_increasing(x: Seq<u64>) -> bool {
    forall|i: int| 0 <= i < x.len() - 1 ==> #[trigger] gt(x[i + 1], x[i])
}

/// The positions `0, 1, ..., n - 1` as binary64 patterns.
pub open spec fn index_axis(n: nat) -> Seq<u64> {
    Seq::new(n, |i: int| of_integer(i as nat))
}

/// Data with an x axis of binary64 patterns and, per channel, one y value
/// for each x value, plus an optional comment.
#[derive(Debug)]
pub struct RealData {
    x_data: SampleLine,
    y_data: SampleGrid,
    comment: Option<String>,
}

/// What x/y data holds.
pub struct RealDataModel {
    pub x: Seq<u64>,
    pub y: Seq<Seq<u64>>,
    pub comment: Option<Seq<char>>,
}

impl View for RealData {
    type V = RealDataModel;

    closed spec fn view(&self) -> RealDataModel {
        RealDataModel { x: line_values(self.x_data), y: grid_rows(self.y_data), comment: opt_string_view(self.comment) }
    }
}

/// Builds the axis `0, 1, ..., n - 1`.
fn make_index_axis(n: usize) -> (v: Vec<u64>)
    ensures
        v@ == index_axis(n as nat),
{
    let mut v: Vec<u64> = Vec::new();
    let mut i: usize = 0;
    while i < n
        invariant
            i <= n,
            v@ == index_axis(n as nat).take(i as int),
        decreases n - i,
    {
        v.push(from_integer(i as u64));
        i = i + 1;
        assert(v@ =~= index_axis(n as nat).take(i as int));
    }
    assert(index_axis(n as nat).take(n as int) =~= index_axis(n as nat));
    v
}

/// Checks that the axis increases strictly.
fn check_increasing(x: &SampleLine) -> (r: bool)
    ensures
        r == strictly_increasing(line_values(*x)),
{
    let n = x.len();
    if n < 2 {
        return true;
    }
    let mut i: usize = 0;
    while i < n - 1
        invariant
            n == line_values(*x).len(),
            n >= 2,
            i <= n - 1,
            forall|k: int| 0 <= k < i ==> #[trigger] gt(line_values(*x)[k + 1], line_values(*x)[k]),
        decreases n - 1 - i,
    {
        let a = x.raw_get(i);
        let b = x.raw_get(i + 1);
        if !greater_than(b, a) {
            return false;
        }
        i = i + 1;
    }
    true
}

impl RealData {
    /// The axis has one value per column of y values.
    #[verifier::type_invariant]
    spec fn axis_matches(&self) -> bool {
        line_values(self.x_data).len() == grid_width(self.y_data)
    }

    /// The number of data points per channel, which is also the axis length.
    pub closed spec fn width(&self) -> nat {
        grid_width(self.y_data)
    }

    /// Data of `y_data` over the axis `x_data`. Fails with `NotMatching` when
    /// the axis length differs from the number of y columns, then with
    /// `NotIncreasing` unless the axis increases strictly.
    pub fn new(x_data: SampleLine, y_data: SampleGrid) -> (r: Result<RealData, DataError>)
        ensures
            line_values(x_data).len() != grid_width(y_data) ==> r == Err::<RealData, DataError>(
                DataError::NotMatching,
            ),
            line_values(x_data).len() == grid_width(y_data) && !strictly_increasing(line_values(x_data))
                ==> r == Err::<RealData, DataError>(DataError::NotIncreasing),
            r is Ok <==> line_values(x_data).len() == grid_width(y_data)
                && strictly_increasing(line_values(x_data)),
            r matches Ok(d) ==> d@.x == line_values(x_data) && d@.y == grid_rows(y_data)
                && d.width() == grid_width(y_data) && d@.comment is None,
    {
        if y_data.ncols() != x_data.len() {
            return Err(DataError::NotMatching);
        }
        if !check_increasing(&x_data) {
            return Err(DataError::NotIncreasing);
        }
        Ok(RealData { x_data, y_data, comment: None })
    }

    /// Zeros in `num_channels` channels over the axis `0, 1, ..., num_data_points - 1`.
    pub fn zeros(num_channels: usize, num_data_points: usize) -> (d: RealData)
        requires
            shape_fits(num_channels as nat, num_data_points as nat),
        ensures
            d@.x == index_axis(num_data_points as nat),
            d@.y == zero_rows(num_channels as nat, num_data_points as nat),
            d.width() == num_data_points,
            d@.comment is None,
    {
        RealData {
            x_data: SampleLine::from_vec(make_index_axis(num_data_points)),
            y_data: SampleGrid::zeros(num_channels, num_data_points),
            comment: None,
        }
    }

    /// Zeros in `num_channels` channels over `x_data`. Fails with
    /// `NotIncreasing` unless the axis increases strictly.
    pub fn from_x_data(x_data: SampleLine, num_channels: usize) -> (r: Result<RealData, DataError>)
        requires
            strictly_increasing(line_values(x_data)) ==> shape_fits(num_channels as nat, line_values(x_data).len()),
        ensures
            r is Err <==> !strictly_increasing(line_values(x_data)),
            r matches Err(e) ==> e == DataError::NotIncreasing,
            r matches Ok(d) ==> d@.x == line_values(x_data)
                && d@.y == zero_rows(num_channels as nat, line_values(x_data).len())
                && d.width() == line_values(x_data).len() && d@.comment is None,
    {
        if !check_increasing(&x_data) {
            return Err(DataError::NotIncreasing);
        }
        let n = x_data.len();
        Ok(RealData { x_data, y_data: SampleGrid::zeros(num_channels, n), comment: None })
    }

    /// `y_data` over the axis `0, 1, ..., columns - 1`.
    pub fn from_y_data(y_data: SampleGrid) -> (d: RealData)
        ensures
            d@.x == index_axis(grid_width(y_data)),
            d@.y == grid_rows(y_data),
            d.width() == grid_width(y_data),
            d@.comment is None,
    {
        let n = y_data.ncols();
        RealData { x_data: SampleLine::from_vec(make_index_axis(n)), y_data, comment: None }
    }

    /// The comment, if any.
    pub fn comment(&self) -> (c: Option<&str>)
        ensures
            opt_str_view(c) == self@.comment,
    {
        match &self.comment {
            Some(c) => Some(c.as_str()),
            None => None,
        }
    }

    /// Replaces the comment.
    pub fn set_comment(&mut self, comment: Option<&str>)
        ensures
            final(self)@.x == old(self)@.x,
            final(self)@.y == old(self)@.y,
            final(self).width() == old(self).width(),
            final(self)@.comment == opt_str_view(comment),
    {
        proof { use_type_invariant(&*self); }
        self.comment = owned_comment(comment);
    }

    /// The number of channels.
    pub fn num_channels(&self) -> (n: usize)
        ensures
            n == self@.y.len(),
    {
        self.y_data.nrows()
    }

    /// The number of data points per channel; the axis has as many values
    /// and every channel as many y values.
    pub fn num_data_points(&self) -> (n: usize)
        ensures
            n == self.width(),
            n == self@.x.len(),
            rectangular(self@.y, n as nat),
            shape_fits(self@.y.len(), n as nat),
    {
        proof { use_type_invariant(self); }
        self.y_data.ncols()
    }

    /// The x axis.
    pub fn x_data(&self) -> (x: &SampleLine)
        ensures
            line_values(*x) == self@.x,
    {
        &self.x_data
    }

    /// The y values, one row per channel.
    pub fn y_data(&self) -> (y: &SampleGrid)
        ensures
            grid_rows(*y) == self@.y,
            grid_width(*y) == self.width(),
    {
        &self.y_data
    }

    /// The y values of channel `ch`.
    pub fn channel(&self, ch: usize) -> (c: Vec<u64>)
        requires
            ch < self@.y.len(),
        ensures
            c@ == self@.y[ch as int],
    {
        self.y_data.row(ch)
    }
}

impl Clone for RealData {
    /// A copy of this data.
    fn clone(&self) -> (d: RealData)
        ensures
            d@ == self@,
            d.width() == self.width(),
    {
        proof { use_type_invariant(self); }
        RealData {
            x_data: self.x_data.clone(),
            y_data: self.y_data.clone(),
            comment: match &self.comment {
                Some(c) => Some(String::from_str(c.as_str())),
                None => None,
            },
        }
    }
}

} // verus!
