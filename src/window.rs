use vstd::prelude::*;

use crate::error::DataError;

verus! {

/// How the input series was cut: skip `offset` points, keep at most `limit`,
/// with stride `strides` (only 1 is supported). `None` means the default:
/// offset 0, no limit, stride 1.
#[derive(Debug, Clone, Copy, PartialEq, Eq, Structural)]
pub struct data_slice {
    pub offset: Option<i64>,
    pub limit: Option<usize>,
    pub strides: Option<usize>,
}

/// Where the fitted series came from, enough to cut the same series again.
#[derive(Debug, Clone)]
pub struct data_fit_load_metadata {
    pub source_reference: String,
    pub slice: data_slice,
    pub column_name: String,
}

/// The half-open range `[start, end)` of point indices that a slice keeps.
#[derive(Debug, Clone, Copy, PartialEq, Eq, Structural)]
pub struct Window {
    pub start: usize,
    pub end: usize,
}

/// The window that `s` selects from a series of `len` points, or the reason
/// it cannot be cut.
pub open spec fn spec_window(s: data_slice, len: nat) -> Result<Window, DataError> {
    if s.strides is Some && s.strides->0 != 1 {
        Err(DataError::UnsupportedSlice { strides: s.strides->0 })
    } else if s.offset is Some && (s.offset->0 < 0 || s.offset->0 > len) {
        Err(DataError::OffsetOutOfRange { offset: s.offset->0, len: len as usize })
    } else {
        let start: int = if s.offset is Some { s.offset->0 as int } else { 0 };
        let end: int = match s.limit {
            Some(l) => if start + l < len { start + l } else { len as int },
            None => len as int,
        };
        Ok(Window { start: start as usize, end: end as usize })
    }
}

impl data_slice {
    pub fn new(offset: Option<i64>, limit: Option<usize>, strides: Option<usize>) -> (s: Self)
        ensures
            s == (data_slice { offset, limit, strides }),
    {
        data_slice { offset, limit, strides }
    }

    /// The window this slice selects from a series of `len` points. A stride
    /// other than 1 is refused, and so is an offset that is negative or past
    /// the end; a limit that runs past the end is cut at the end.
    pub fn window(&self, len: usize) -> (r: Result<Window, DataError>)
        ensures
            r == spec_window(*self, len as nat),
            r matches Ok(w) ==> w.start <= w.end <= len,
    {
        match self.strides {
            Some(s) => {
                if s != 1 {
                    return Err(DataError::UnsupportedSlice { strides: s });
                }
            },
            None => {},
        }
        let start: usize = match self.offset {
            Some(o) => {
                if o < 0 || o as u64 > len as u64 {
                    return Err(DataError::OffsetOutOfRange { offset: o, len });
                }
                o as usize
            },
            None => 0,
        };
        let end: usize = match self.limit {
            Some(l) => if l < len - start { start + l } else { len },
            None => len,
        };
        Ok(Window { start, end })
    }
}

/// The points of `series` inside `w`.
pub fn take_window<T: Copy>(series: &Vec<T>, w: Window) -> (r: Vec<T>)
    requires
        w.start <= w.end <= series@.len(),
    ensures
        r@ == series@.subrange(w.start as int, w.end as int),
{
    let mut r: Vec<T> = Vec::new();
    let mut i: usize = w.start;
    while i < w.end
        invariant
            w.start <= i <= w.end <= series@.len(),
            r@ == series@.subrange(w.start as int, i as int),
        decreases w.end - i,
    {
        r.push(series[i]);
        i = i + 1;
        assert(r@ =~= series@.subrange(w.start as int, i as int));
    }
    r
}

/// The time axis of a window: the index of each kept point in the full series.
pub fn window_times(w: Window) -> (r: Vec<usize>)
    requires
        w.start <= w.end,
    ensures
        r@ == Seq::new((w.end - w.start) as nat, |i: int| (w.start + i) as usize),
{
    let mut r: Vec<usize> = Vec::new();
    let mut i: usize = w.start;
    while i < w.end
        invariant
            w.start <= i <= w.end,
            r@ == Seq::new((i - w.start) as nat, |k: int| (w.start + k) as usize),
        decreases w.end - i,
    {
        r.push(i);
        i = i + 1;
        assert(r@ =~= Seq::new((i - w.start) as nat, |k: int| (w.start + k) as usize));
    }
    r
}

/// Cuts a full series as `slice` says: the time axis (indices into the full
/// series) and the values of the kept points.
pub fn cut_series<T: Copy>(series: &Vec<T>, slice: &data_slice) -> (r: Result<(Vec<usize>, Vec<T>), DataError>)
    ensures
        spec_window(*slice, series@.len()) matches Err(e) ==> r == Err::<(Vec<usize>, Vec<T>), DataError>(e),
        spec_window(*slice, series@.len()) matches Ok(w) ==> (r matches Ok(p) && {
            &&& p.0@ == Seq::new((w.end - w.start) as nat, |i: int| (w.start + i) as usize)
            &&& p.1@ == series@.subrange(w.start as int, w.end as int)
        }),
{
    match slice.window(series.len()) {
        Err(e) => Err(e),
        Ok(w) => Ok((window_times(w), take_window(series, w))),
    }
}

} // verus!
