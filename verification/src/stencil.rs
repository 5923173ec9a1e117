use vstd::prelude::*;

verus! {

/// Position `pos` of a stencil, with the signal extended at both ends by
/// repeating its first and last samples: positions before the start read
/// sample `0`, positions past the end read sample `n - 1`.
pub open spec fn replicated(pos: int, n: int) -> int {
    if pos < 0 {
        0
    } else if pos >= n {
        n - 1
    } else {
        pos
    }
}

/// Index of the sample that tap `tap` of a Savitzky-Golay stencil of
/// half-width `half`, centred on sample `center`, reads in a signal of `n`
/// samples: the tap sits at `center - half + tap`, and taps that fall off
/// either end read the nearest end sample.
pub fn replicate_index(center: usize, tap: usize, half: usize, n: usize) -> (r: usize)
    requires
        n > 0,
    ensures
        r == replicated(center + tap - half, n as int),
        r < n,
        center + tap < half ==> r == 0,
        center + tap >= half + n ==> r == n - 1,
        0 <= center + tap - half < n ==> r == center + tap - half,
{
    if tap < half {
        let back = half - tap;
        if center < back {
            0
        } else {
            let pos = center - back;
            if pos >= n { n - 1 } else { pos }
        }
    } else {
        let ahead = tap - half;
        if center >= n || ahead >= n - center {
            n - 1
        } else {
            center + ahead
        }
    }
}

/// Distance between two positions.
pub open spec fn distance(a: int, b: int) -> int {
    if a >= b { a - b } else { b - a }
}

/// A tap reads the sample of the signal nearest to its position: no sample
/// of the signal is closer to `pos` than the one `replicated` picks, which is
/// the first sample for every position before the start and the last for
/// every position past the end.
pub proof fn lemma_replicated_is_nearest_sample(pos: int, n: int, k: int)
    requires
        n > 0,
        0 <= k < n,
    ensures
        0 <= replicated(pos, n) < n,
        distance(replicated(pos, n), pos) <= distance(k, pos),
        pos < 0 ==> replicated(pos, n) == 0,
        pos >= n ==> replicated(pos, n) == n - 1,
        0 <= pos < n ==> replicated(pos, n) == pos,
{
}

/// Why a Savitzky-Golay request is refused.
#[derive(Debug, Clone, Copy, PartialEq, Eq, Structural)]
pub enum SavgolParamError {
    /// The window has an even number of samples, so it has no centre.
    EvenWindow,
    /// The polynomial order is not below the window, so the fit is not a
    /// least-squares smoothing.
    OrderNotBelowWindow,
}

/// What a Savitzky-Golay filter does with its request.
#[derive(Debug, Clone, Copy, PartialEq, Eq, Structural)]
pub enum SavgolPlan {
    /// No samples or a window of zero: the signal is handed back unchanged.
    PassThrough,
    /// Fit `terms` polynomial coefficients over taps `0..2 * half + 1`,
    /// tap `half` being the sample that is smoothed.
    Smooth { half: usize, terms: usize },
}

/// Decide a Savitzky-Golay request on `len` samples with an odd `window` and
/// a polynomial of order `poly_order`: pass the signal through when it is
/// empty or the window is zero; otherwise refuse an even window first, then
/// an order that is not below the window; otherwise smooth.
pub fn savgol_plan(len: usize, window: usize, poly_order: usize) -> (r: Result<SavgolPlan, SavgolParamError>)
    ensures
        (len == 0 || window == 0) ==> r == Ok::<SavgolPlan, SavgolParamError>(SavgolPlan::PassThrough),
        (len > 0 && window > 0 && window % 2 == 0) ==> r == Err::<SavgolPlan, SavgolParamError>(SavgolParamError::EvenWindow),
        (len > 0 && window > 0 && window % 2 == 1 && poly_order >= window)
            ==> r == Err::<SavgolPlan, SavgolParamError>(SavgolParamError::OrderNotBelowWindow),
        (len > 0 && window % 2 == 1 && poly_order < window) ==> r == Ok::<SavgolPlan, SavgolParamError>(
            SavgolPlan::Smooth { half: window / 2, terms: (poly_order + 1) as usize },
        ),
        r matches Ok(SavgolPlan::Smooth { half, terms }) ==> 2 * half + 1 == window && 1 <= terms <= window,
{
    if len == 0 || window == 0 {
        Ok(SavgolPlan::PassThrough)
    } else if window % 2 == 0 {
        Err(SavgolParamError::EvenWindow)
    } else if poly_order >= window {
        Err(SavgolParamError::OrderNotBelowWindow)
    } else {
        Ok(SavgolPlan::Smooth { half: window / 2, terms: poly_order + 1 })
    }
}

/// Finite-difference stencil of one derivative sample: the derivative at a
/// position is `(x[ahead] - x[behind]) / (span * dt)`.
#[derive(Debug, Clone, Copy, PartialEq, Eq, Structural)]
pub struct DifferenceStencil {
    pub ahead: usize,
    pub behind: usize,
    pub span: usize,
}

/// Stencil of the numerical derivative at sample `i` of a signal of `n >= 2`
/// samples: a central difference inside the signal, a forward difference at
/// the first sample and a backward difference at the last.
pub fn difference_stencil(i: usize, n: usize) -> (s: DifferenceStencil)
    requires
        2 <= n,
        i < n,
    ensures
        i == 0 ==> s == (DifferenceStencil { ahead: 1, behind: 0, span: 1 }),
        i == n - 1 ==> s == (DifferenceStencil { ahead: (n - 1) as usize, behind: (n - 2) as usize, span: 1 }),
        0 < i < n - 1 ==> s == (DifferenceStencil { ahead: (i + 1) as usize, behind: (i - 1) as usize, span: 2 }),
        s.behind <= i <= s.ahead < n,
        s.ahead - s.behind == s.span,
{
    if i == 0 {
        DifferenceStencil { ahead: 1, behind: 0, span: 1 }
    } else if i == n - 1 {
        DifferenceStencil { ahead: n - 1, behind: n - 2, span: 1 }
    } else {
        DifferenceStencil { ahead: i + 1, behind: i - 1, span: 2 }
    }
}

} // verus!
