//! Choosing where a line of text ends: the last of the candidate ends
//! (line-break opportunities, or character ends) whose text fits the width,
//! found by bisection over the measured widths of the candidates' text.
use crate::number::CssNumber;
use vstd::prelude::*;

verus! {

/// Whether a measured width fits under `limit`.
pub open spec fn fits(width: CssNumber, limit: CssNumber) -> bool {
    width.val() <= limit.val()
}

/// The bisection between `low` and `high`: the first index of the range
/// whose candidate is found not to fit, probing the middle of what is left.
pub open spec fn bisect(widths: Seq<CssNumber>, limit: CssNumber, low: int, high: int) -> int
    decreases high - low,
{
    if low < high {
        let middle = low + (high - low) / 2;
        if fits(widths[middle], limit) {
            bisect(widths, limit, middle + 1, high)
        } else {
            bisect(widths, limit, low, middle)
        }
    } else {
        low
    }
}

/// Whether the widths never decrease, as the widths of longer and longer
/// prefixes of a line do.
pub open spec fn nondecreasing(widths: Seq<CssNumber>) -> bool {
    forall|i: int, j: int| 0 <= i <= j < widths.len() ==> (#[trigger] widths[i]).val() <= (#[trigger] widths[j]).val()
}

proof fn lemma_bisect(widths: Seq<CssNumber>, limit: CssNumber, low: int, high: int)
    requires
        0 <= low <= high <= widths.len(),
        low == 0 || fits(widths[low - 1], limit),
        high == widths.len() || !fits(widths[high], limit),
    ensures
        low <= bisect(widths, limit, low, high) <= high,
        bisect(widths, limit, low, high) == 0 || fits(widths[bisect(widths, limit, low, high) - 1], limit),
        bisect(widths, limit, low, high) == widths.len() || !fits(widths[bisect(widths, limit, low, high)], limit),
        nondecreasing(widths) ==> forall|i: int|
            #![trigger widths[i]]
            low <= i < high ==> (fits(widths[i], limit) <==> i < bisect(widths, limit, low, high)),
    decreases high - low,
{
    if low < high {
        let middle = low + (high - low) / 2;
        if fits(widths[middle], limit) {
            lemma_bisect(widths, limit, middle + 1, high);
        } else {
            lemma_bisect(widths, limit, low, middle);
        }
    }
}

/// The last candidate end whose text fits: `widths[i]` is the measured
/// width of the line's text up to `candidate_ends[i]`, trailing whitespace
/// left out, and `limit` the width it must not exceed. The bisection stops
/// at a candidate that fits whose next candidate does not; when the widths
/// grow with the ends, that is the last candidate that fits. `None` when
/// the first candidate does not fit.
pub fn last_fitting_end(candidate_ends: &[usize], widths: &[CssNumber], limit: CssNumber) -> (r: Option<usize>)
    requires
        widths@.len() == candidate_ends@.len(),
    ensures
        ({
            let k = bisect(widths@, limit, 0, widths@.len() as int);
            &&& r == (if k == 0 { None } else { Some(candidate_ends@[k - 1]) })
            &&& 0 <= k <= widths@.len()
            &&& k == 0 || fits(widths@[k - 1], limit)
            &&& k == widths@.len() || !fits(widths@[k], limit)
            &&& nondecreasing(widths@) ==> forall|i: int|
                #![trigger widths@[i]]
                0 <= i < widths@.len() ==> (fits(widths@[i], limit) <==> i < k)
        }),
{
    proof {
        lemma_bisect(widths@, limit, 0, widths@.len() as int);
    }
    let mut low: usize = 0;
    let mut high: usize = candidate_ends.len();
    while low < high
        invariant
            widths@.len() == candidate_ends@.len(),
            0 <= low <= high <= widths@.len(),
            bisect(widths@, limit, low as int, high as int) == bisect(widths@, limit, 0, widths@.len() as int),
        decreases high - low,
    {
        let middle = low + (high - low) / 2;
        if widths[middle].micros <= limit.micros {
            low = middle + 1;
        } else {
            high = middle;
        }
    }
    if low == 0 {
        None
    } else {
        Some(candidate_ends[low - 1])
    }
}

/// The end of the text that fits when no break opportunity does: the last
/// character end that fits by `last_fitting_end`, or else the end of the
/// first character (a line holds at least one), or 0 for no characters.
/// `widths[i]` is the measured width of the text up to `character_ends[i]`.
pub fn fitted_character_end(character_ends: &[usize], widths: &[CssNumber], limit: CssNumber) -> (r: usize)
    requires
        widths@.len() == character_ends@.len(),
    ensures
        ({
            let k = bisect(widths@, limit, 0, widths@.len() as int);
            r == if k > 0 {
                character_ends@[k - 1]
            } else if character_ends@.len() > 0 {
                character_ends@[0]
            } else {
                0
            }
        }),
{
    match last_fitting_end(character_ends, widths, limit) {
        Some(end) => end,
        None => {
            if character_ends.len() > 0 {
                character_ends[0]
            } else {
                0
            }
        },
    }
}

} // verus!
