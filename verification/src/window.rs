use vstd::prelude::*;

verus! {

/// Samples that a window of `window >= 1` samples takes before its centre.
pub open spec fn samples_before(window: int) -> int {
    window / 2
}

/// Samples that a window of `window >= 1` samples takes after its centre:
/// as many as before for an odd window, one fewer for an even one, so that
/// the centre and both sides make `window` samples.
pub open spec fn samples_after(window: int) -> int {
    window - 1 - window / 2
}

/// First index of the window of `window` samples around sample `i`, cut at
/// the start of the signal.
pub open spec fn window_start(i: int, window: int) -> int {
    if i >= samples_before(window) { i - samples_before(window) } else { 0 }
}

/// One past the last index of the window of `window` samples around sample
/// `i`, cut at the signal length `n`.
pub open spec fn window_end(i: int, window: int, n: int) -> int {
    if i + samples_after(window) + 1 <= n { i + samples_after(window) + 1 } else { n }
}

/// Bounds `(lo, hi)` of the window of `window` samples around sample `i` of a
/// signal of `n` samples, as the moving-average and median filters read it:
/// `window / 2` samples before the centre and the rest after it (as many for
/// an odd window, one fewer for an even one), cut at both ends of the signal
/// so that the edges use the samples that are available.
pub fn centered_window(i: usize, n: usize, window: usize) -> (r: (usize, usize))
    requires
        i < n,
        window >= 1,
    ensures
        r.0 == window_start(i as int, window as int),
        r.1 == window_end(i as int, window as int, n as int),
        r.0 == (if i >= window / 2 { i - window / 2 } else { 0 }),
        r.1 == (if i + window - window / 2 <= n { i + window - window / 2 } else { n as int }),
        r.0 <= i < r.1 <= n,
        r.1 - r.0 <= window,
        (samples_before(window as int) <= i && i + samples_after(window as int) < n)
            ==> r.1 - r.0 == window,
        (window % 2 == 1 && samples_before(window as int) <= i && i + samples_after(window as int) < n)
            ==> i - r.0 == r.1 - 1 - i,
{
    let before = window / 2;
    let after = window - 1 - before;
    let lo = if i >= before { i - before } else { 0 };
    let hi = if after < n - i { i + after + 1 } else { n };
    (lo, hi)
}

/// How a windowed filter treats a signal of `n` samples with a window of
/// `window` samples: `None` when it hands the signal back unchanged (no
/// samples, or a window of zero), otherwise the window of every sample in
/// order, one per output sample.
pub fn window_plan(n: usize, window: usize) -> (plan: Option<Vec<(usize, usize)>>)
    ensures
        (n == 0 || window == 0) <==> plan is None,
        plan matches Some(p) ==> {
            &&& p@.len() == n
            &&& forall|i: int| 0 <= i < n ==> (#[trigger] p@[i]).0 == window_start(i, window as int)
                && p@[i].1 == window_end(i, window as int, n as int)
        },
{
    if n == 0 || window == 0 {
        return None;
    }
    let mut p: Vec<(usize, usize)> = Vec::new();
    let mut i: usize = 0;
    while i < n
        invariant
            window >= 1,
            i <= n,
            p@.len() == i,
            forall|j: int| 0 <= j < i ==> (#[trigger] p@[j]).0 == window_start(j, window as int)
                && p@[j].1 == window_end(j, window as int, n as int),
        decreases n - i,
    {
        p.push(centered_window(i, n, window));
        i = i + 1;
    }
    Some(p)
}

/// The window around sample `i` is exactly the span of `window` consecutive
/// positions that starts `window / 2` before `i`, cut to the signal: a sample
/// is read if and only if it lies in the signal and in that span. So at the
/// edges every available sample of the span is read, and inside the signal
/// exactly `window` samples are.
pub proof fn lemma_window_is_clipped_span(i: int, n: int, window: int, k: int)
    requires
        0 <= i < n,
        window >= 1,
    ensures
        (window_start(i, window) <= k < window_end(i, window, n))
            <==> (0 <= k < n && i - window / 2 <= k < i - window / 2 + window),
        window_end(i, window, n) - window_start(i, window)
            == (if i - window / 2 + window <= n { i - window / 2 + window } else { n })
            - (if i - window / 2 >= 0 { i - window / 2 } else { 0 }),
{
}

/// Which sorted position(s) of a sample a median is taken from.
#[derive(Debug, Clone, Copy, PartialEq, Eq, Structural)]
pub enum MedianRank {
    /// Odd count: the sample at this sorted position.
    Middle(usize),
    /// Even count: the mean of the samples at these two sorted positions.
    Between(usize, usize),
}

impl MedianRank {
    /// Lowest sorted position that the median reads.
    pub open spec fn low(self) -> int {
        match self {
            MedianRank::Middle(m) => m as int,
            MedianRank::Between(a, _) => a as int,
        }
    }

    /// Highest sorted position that the median reads.
    pub open spec fn high(self) -> int {
        match self {
            MedianRank::Middle(m) => m as int,
            MedianRank::Between(_, b) => b as int,
        }
    }
}

/// Sorted position(s) from which the median of `len` samples is taken:
/// the middle one for an odd count, the two middle ones for an even count.
pub fn median_rank(len: usize) -> (r: MedianRank)
    requires
        len > 0,
    ensures
        len % 2 == 1 ==> r == MedianRank::Middle(len / 2),
        len % 2 == 0 ==> r == MedianRank::Between((len / 2 - 1) as usize, len / 2),
        0 <= r.low() <= r.high() < len,
        r.low() + r.high() == len - 1,
{
    if len % 2 == 0 {
        MedianRank::Between(len / 2 - 1, len / 2)
    } else {
        MedianRank::Middle(len / 2)
    }
}

} // verus!
