use vstd::prelude::*;

verus! {

/// Samples per analysis window of the convolution.
pub const WINDOW_SIZE: usize = 512;

/// Taps of the impulse response, and side of the automaton's board.
pub const FILTER_WINDOW_SIZE: usize = 257;

/// Transform size: the shortest that keeps block convolution linear.
pub const FFT_WINDOW_SIZE: usize = WINDOW_SIZE + FILTER_WINDOW_SIZE - 1;

/// Complex bins of one kernel.
pub const GAME_BOARD_SIZE: usize = FFT_WINDOW_SIZE / 2 + 1;

/// Seed of the automaton's first random fill.
pub const SEED: u64 = 420;

/// Why a convolution layout was refused.
#[derive(Clone, Copy, Debug, PartialEq, Eq, Structural)]
pub enum LayoutError {
    /// The window or the filter is empty.
    Empty,
    /// The transform is shorter than `window + filter - 1`, so blocks would
    /// wrap around onto themselves.
    TooShort,
    /// `window + filter - 1` does not fit in a `usize`.
    TooLarge,
}

/// The sizes of the block convolution: analysis window `W`, filter length
/// `L` and transform size `F`, with `F >= W + L - 1`.
#[derive(Clone, Copy, Debug, PartialEq, Eq, Structural)]
pub struct ConvolutionLayout {
    window: usize,
    filter: usize,
    fft_size: usize,
}

/// Whether sizes `w`, `l`, `f` make a layout.
pub open spec fn layout_ok(w: int, l: int, f: int) -> bool {
    w > 0 && l > 0 && f >= w + l - 1
}

impl ConvolutionLayout {
    pub closed spec fn spec_window(&self) -> int {
        self.window as int
    }

    pub closed spec fn spec_filter(&self) -> int {
        self.filter as int
    }

    pub closed spec fn spec_fft_size(&self) -> int {
        self.fft_size as int
    }

    pub open spec fn wf(&self) -> bool {
        layout_ok(self.spec_window(), self.spec_filter(), self.spec_fft_size())
    }

    /// The layout with the given sizes, refused when the window or filter is
    /// empty or the transform is too short for linear convolution.
    pub fn with_fft_size(window: usize, filter: usize, fft_size: usize) -> (r: Result<
        ConvolutionLayout,
        LayoutError,
    >)
        ensures
            (window == 0 || filter == 0) <==> r == Err::<ConvolutionLayout, LayoutError>(
                LayoutError::Empty,
            ),
            (window > 0 && filter > 0 && fft_size < window + filter - 1) <==> r == Err::<
                ConvolutionLayout,
                LayoutError,
            >(LayoutError::TooShort),
            layout_ok(window as int, filter as int, fft_size as int) <==> r is Ok,
            r matches Ok(l) ==> {
                &&& l.wf()
                &&& l.spec_window() == window
                &&& l.spec_filter() == filter
                &&& l.spec_fft_size() == fft_size
            },
    {
        if window == 0 || filter == 0 {
            Err(LayoutError::Empty)
        } else if fft_size < window || fft_size - window < filter - 1 {
            Err(LayoutError::TooShort)
        } else {
            Ok(ConvolutionLayout { window, filter, fft_size })
        }
    }

    /// The layout with the shortest transform, `window + filter - 1`.
    pub fn new(window: usize, filter: usize) -> (r: Result<ConvolutionLayout, LayoutError>)
        ensures
            (window == 0 || filter == 0) <==> r == Err::<ConvolutionLayout, LayoutError>(
                LayoutError::Empty,
            ),
            (window > 0 && filter > 0 && window + filter - 1 > usize::MAX) <==> r == Err::<
                ConvolutionLayout,
                LayoutError,
            >(LayoutError::TooLarge),
            (window > 0 && filter > 0 && window + filter - 1 <= usize::MAX) <==> r is Ok,
            r matches Ok(l) ==> {
                &&& l.wf()
                &&& l.spec_window() == window
                &&& l.spec_filter() == filter
                &&& l.spec_fft_size() == window + filter - 1
            },
    {
        if window == 0 || filter == 0 {
            Err(LayoutError::Empty)
        } else if window - 1 > usize::MAX - filter {
            Err(LayoutError::TooLarge)
        } else {
            ConvolutionLayout::with_fft_size(window, filter, (window - 1) + filter)
        }
    }

    /// Samples per analysis window.
    pub fn window(&self) -> (r: usize)
        ensures
            r == self.spec_window(),
    {
        self.window
    }

    /// Taps of the filter.
    pub fn filter(&self) -> (r: usize)
        ensures
            r == self.spec_filter(),
    {
        self.filter
    }

    /// Transform size. The gain compensation after a forward and an inverse
    /// transform is its reciprocal.
    pub fn fft_size(&self) -> (r: usize)
        ensures
            r == self.spec_fft_size(),
    {
        self.fft_size
    }

    /// Complex bins of a real transform: `F / 2 + 1`.
    pub fn bins(&self) -> (r: usize)
        requires
            self.wf(),
        ensures
            r == self.spec_fft_size() / 2 + 1,
    {
        self.fft_size / 2 + 1
    }

    /// The lookahead of the layout, `F - W`: how far each window's filtered
    /// output reaches past the window itself.
    pub fn latency(&self) -> (r: usize)
        requires
            self.wf(),
        ensures
            r == self.spec_fft_size() - self.spec_window(),
            r >= self.spec_filter() - 1,
    {
        self.fft_size - self.window
    }
}

/// The layout that the constants above describe.
pub fn default_layout() -> (r: ConvolutionLayout)
    ensures
        r.wf(),
        r.spec_window() == WINDOW_SIZE,
        r.spec_filter() == FILTER_WINDOW_SIZE,
        r.spec_fft_size() == FFT_WINDOW_SIZE,
{
    ConvolutionLayout { window: WINDOW_SIZE, filter: FILTER_WINDOW_SIZE, fft_size: FFT_WINDOW_SIZE }
}

} // verus!
