//! Which positions of a series the statistics read.
//!
//! The statistics of a series are taken from its first and its latest
//! observation and from windows of neighbouring observations. A window is a
//! half-open range of positions `[start, end)`. The functions here decide,
//! from the length of the series alone, whether a statistic is defined and
//! where it reads, so that whoever does the arithmetic on the prices never
//! reads outside the series and never invents a value for an empty one.
use vstd::prelude::*;

verus! {

/// Window size of the moving average in a statistics record.
pub const MOVING_AVERAGE_WINDOW: usize = 30;

/// Positions of the first and the latest observation of a series of `len`
/// observations, if it has any.
pub open spec fn spec_ends(len: int) -> Option<(int, int)> {
    if len > 0 {
        Some((0, len - 1))
    } else {
        None
    }
}

/// Whether a moving average of this window size is defined on a series of
/// `len` observations: the window holds more than one observation, and the
/// series holds at least one whole window. On an empty series, and on one
/// that is shorter than the window, it is undefined.
pub open spec fn moving_average_defined(window_size: int, len: int) -> bool {
    1 < window_size <= len
}

/// Number of contiguous windows of `window_size` observations in a series of
/// `len` observations, where the moving average is defined.
pub open spec fn spec_window_count(window_size: int, len: int) -> Option<int> {
    if moving_average_defined(window_size, len) {
        Some(len - window_size + 1)
    } else {
        None
    }
}

/// The window at `index`: it starts there and holds `window_size`
/// observations. `None` where the series has no such window.
pub open spec fn spec_window_at(window_size: int, len: int, index: int) -> Option<(int, int)> {
    match spec_window_count(window_size, len) {
        Some(count) if 0 <= index < count => Some((index, index + window_size)),
        _ => None,
    }
}

/// The window that ends with the latest observation, where the moving
/// average is defined.
pub open spec fn spec_last_window(window_size: int, len: int) -> Option<(int, int)> {
    if moving_average_defined(window_size, len) {
        Some((len - window_size, len))
    } else {
        None
    }
}

/// Positions of the first and the latest observation: `None` for an empty
/// series, on which neither the latest price nor the change over the period
/// nor a minimum or maximum is defined.
pub fn ends(len: usize) -> (positions: Option<(usize, usize)>)
    ensures
        match spec_ends(len as int) {
            Some((first, latest)) => positions == Some((first as usize, latest as usize)),
            None => positions is None,
        },
        positions is Some <==> len > 0,
{
    if len > 0 {
        Some((0, len - 1))
    } else {
        None
    }
}

/// Number of moving averages of a series: `None` where the moving average is
/// undefined (a window of at most one observation, or a series that does
/// not hold a whole window, the empty one among them), else the number of
/// windows, which is at least one.
pub fn window_count(window_size: usize, len: usize) -> (count: Option<usize>)
    ensures
        count is Some <==> 1 < window_size <= len,
        count matches Some(n) ==> n == len - window_size + 1,
        match count {
            Some(n) => spec_window_count(window_size as int, len as int) == Some(n as int),
            None => spec_window_count(window_size as int, len as int) is None,
        },
{
    if 1 < window_size && window_size <= len {
        Some(len - window_size + 1)
    } else {
        None
    }
}

/// Bounds `(start, end)` of the `index`-th window: it starts at `index` and
/// holds `window_size` observations. `None` where the series has no such
/// window.
pub fn window_at(window_size: usize, len: usize, index: usize) -> (bounds: Option<(usize, usize)>)
    ensures
        match spec_window_at(window_size as int, len as int, index as int) {
            Some((start, end)) => bounds == Some((start as usize, end as usize)),
            None => bounds is None,
        },
        bounds matches Some((start, end)) ==> start < end <= len && end - start == window_size,
{
    match window_count(window_size, len) {
        Some(n) => {
            if index < n {
                Some((index, index + window_size))
            } else {
                None
            }
        },
        None => None,
    }
}

/// Bounds of the latest window, the one whose average is the latest moving
/// average: `None` where the moving average is undefined.
pub fn last_window(window_size: usize, len: usize) -> (bounds: Option<(usize, usize)>)
    ensures
        bounds is Some <==> moving_average_defined(window_size as int, len as int),
        match spec_last_window(window_size as int, len as int) {
            Some((start, end)) => bounds == Some((start as usize, end as usize)),
            None => bounds is None,
        },
        bounds matches Some((start, end)) ==> start < end && end == len && end - start
            == window_size,
{
    if 1 < window_size && window_size <= len {
        Some((len - window_size, len))
    } else {
        None
    }
}

/// A series that holds a whole window has one window for each start from
/// which a window fits: `len - window_size + 1` of them. The window at
/// `index` holds the `window_size` observations from `index` on and lies
/// within the series, and the latest window is the last of them.
pub proof fn lemma_window_layout(window_size: int, len: int, index: int)
    requires
        1 < window_size <= len,
        0 <= index <= len - window_size,
    ensures
        spec_window_count(window_size, len) == Some(len - window_size + 1),
        spec_window_at(window_size, len, index) == Some((index, index + window_size)),
        index + window_size <= len,
        spec_last_window(window_size, len) == spec_window_at(
            window_size,
            len,
            len - window_size,
        ),
{
}

/// Where the moving average is undefined, on a window of at most one
/// observation and on a series that is shorter than the window or empty,
/// there is no number of windows, no window at any index and no latest
/// window. On an empty series the first and the latest observation are
/// undefined too.
pub proof fn lemma_no_window(window_size: int, len: int, index: int)
    requires
        0 <= len,
        len == 0 || window_size <= 1 || len < window_size,
    ensures
        !moving_average_defined(window_size, len),
        spec_window_count(window_size, len) is None,
        spec_window_at(window_size, len, index) is None,
        spec_last_window(window_size, len) is None,
        len == 0 ==> spec_ends(len) is None,
{
}

} // verus!
