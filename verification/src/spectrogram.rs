//! Options of the spectrogram plot, and the windows of a short-term transform.
use vstd::prelude::*;

verus! {

/// How magnitudes are mapped to colour intensity.
pub enum ColorTransformFunction {
    Constant,
    Log10,
}

/// A plot's title and colour mapping.
pub struct ShortTermFFTPlotOptions<'a> {
    pub title: &'a str,
    pub color_transform_fn: ColorTransformFunction,
}

impl<'a> ShortTermFFTPlotOptions<'a> {
    /// A plot with the given title and magnitudes shown as they are.
    pub fn new(title: &'a str) -> (res: Self)
        ensures
            res.title == title,
            res.color_transform_fn == ColorTransformFunction::Constant,
    {
        ShortTermFFTPlotOptions { title, color_transform_fn: ColorTransformFunction::Constant }
    }

    pub fn color_transform(self, color_transform_function: ColorTransformFunction) -> (res: Self)
        ensures
            res.title == self.title,
            res.color_transform_fn == color_transform_function,
    {
        ShortTermFFTPlotOptions { title: self.title, color_transform_fn: color_transform_function }
    }
}

/// The sample ranges of a short-term transform of `data_len` samples: as many whole
/// windows of `window_length` samples as fit, one after the other from the start;
/// samples after the last whole window are left out. There must be at least one window.
pub fn window_bounds(data_len: usize, window_length: usize) -> (res: Vec<(usize, usize)>)
    requires
        window_length > 0,
        data_len >= window_length,
    ensures
        res@.len() == data_len / window_length,
        res@.len() >= 1,
        forall|i: int|
            0 <= i < res@.len() ==> #[trigger] res@[i] == ((i * window_length) as usize, ((i
                + 1) * window_length) as usize),
        forall|i: int| 0 <= i < res@.len() ==> (#[trigger] res@[i]).1 <= data_len,
{
    let number_windows = data_len / window_length;
    assert(number_windows >= 1) by (nonlinear_arith)
        requires
            window_length > 0,
            data_len >= window_length,
            number_windows == data_len / window_length,
    ;
    let mut res: Vec<(usize, usize)> = Vec::new();
    let mut i: usize = 0;
    let mut start: usize = 0;
    while i < number_windows
        invariant
            window_length > 0,
            number_windows == data_len / window_length,
            i <= number_windows,
            start == i * window_length,
            res@.len() == i,
            forall|j: int|
                0 <= j < i ==> #[trigger] res@[j] == ((j * window_length) as usize, ((j + 1)
                    * window_length) as usize),
            forall|j: int| 0 <= j < i ==> (#[trigger] res@[j]).1 <= data_len,
        decreases number_windows - i,
    {
        assert((i + 1) * window_length <= data_len && (i + 1) * window_length == start
            + window_length) by (nonlinear_arith)
            requires
                i < number_windows,
                number_windows == data_len / window_length,
                start == i * window_length,
                window_length > 0,
        ;
        let end = start + window_length;
        res.push((start, end));
        start = end;
        i = i + 1;
    }
    res
}

} // verus!
