//! Returns and drawdown analysis: error type and the episode statistics of a
//! drawdown series.
//!
//! The drawdown at each bar is the decline from the running maximum. Which
//! bars are below their running peak and which are at it is read from the
//! drawdown values; the duration and recovery of drawdown episodes are
//! computed here from those flags.
use vstd::prelude::*;
use crate::text::{decimal, push_decimal};

verus! {

/// Errors returned by the returns and risk computations.
#[derive(Debug)]
pub enum ReturnsError {
    /// The input did not contain enough observations.
    InsufficientData { required: usize, actual: usize },
    /// A parameter was invalid.
    InvalidParam(String),
}

impl ReturnsError {
    /// The human-readable form of the error.
    pub open spec fn message(&self) -> Seq<char> {
        match self {
            ReturnsError::InsufficientData { required, actual } => "Insufficient data: need at least "@
                + decimal(*required as nat) + " points, got "@ + decimal(*actual as nat),
            ReturnsError::InvalidParam(m) => "Invalid parameter: "@ + m@,
        }
    }

    /// Renders the error as text (see [`ReturnsError::message`]).
    pub fn to_string(&self) -> (r: String)
        ensures
            r@ == self.message(),
    {
        let mut s = String::new();
        match self {
            ReturnsError::InsufficientData { required, actual } => {
                s.push_str("Insufficient data: need at least ");
                push_decimal(&mut s, *required as u128);
                s.push_str(" points, got ");
                push_decimal(&mut s, *actual as u128);
            },
            ReturnsError::InvalidParam(m) => {
                s.push_str("Invalid parameter: ");
                s.push_str(m.as_str());
            },
        }
        s
    }
}

/// All of `flags[start..start + len]` are set (and the window lies in the
/// sequence).
pub open spec fn all_set(flags: Seq<bool>, start: int, len: int) -> bool {
    &&& 0 <= start
    &&& 0 <= len
    &&& start + len <= flags.len()
    &&& forall|t: int| start <= t < start + len ==> flags[t]
}

/// Length of the longest run of consecutive strictly-negative drawdown
/// observations: `below_peak[t]` tells whether bar `t` is below its running
/// peak.
pub fn longest_drawdown_run(below_peak: &[bool]) -> (r: usize)
    ensures
        exists|s: int| all_set(below_peak@, s, r as int),
        forall|s: int, len: int| #[trigger] all_set(below_peak@, s, len) ==> len <= r,
        r <= below_peak@.len(),
{
    let mut longest: usize = 0;
    let mut current: usize = 0;
    let mut i: usize = 0;
    assert(all_set(below_peak@, 0, 0));
    while i < below_peak.len()
        invariant
            i <= below_peak@.len(),
            current <= i,
            longest <= i,
            all_set(below_peak@, i - current, current as int),
            current < i ==> !below_peak@[i - current - 1],
            exists|s: int| all_set(below_peak@, s, longest as int) && s + longest <= i,
            forall|s: int, len: int|
                #[trigger] all_set(below_peak@, s, len) && s + len <= i ==> len <= longest,
            current <= longest,
        decreases below_peak@.len() - i,
    {
        let ghost old_i = i as int;
        if below_peak[i] {
            current = current + 1;
            if current > longest {
                longest = current;
            }
        } else {
            current = 0;
        }
        i = i + 1;
        proof {
            assert(all_set(below_peak@, i - current, current as int));
            assert forall|s: int, len: int|
                #[trigger] all_set(below_peak@, s, len) && s + len <= i implies len <= longest by {
                if s + len == i && len > 0 {
                    // the window ends at the new bar: it is within the current run
                    assert(below_peak@[old_i]);
                    if len > current {
                        let b = i - current - 1;
                        assert(s <= b < s + len);
                        assert(!below_peak@[b]);
                    }
                } else if len > 0 {
                    assert(all_set(below_peak@, s, len) && s + len <= old_i);
                }
            }
            if longest == current {
                assert(all_set(below_peak@, i - current, longest as int));
            }
        }
    }
    longest
}

/// Steps from the trough until the series is back at its running peak: the
/// first bar after `trough` whose flag `at_peak` is set, counted from the
/// trough; `None` if the series never recovers.
pub fn recovery_time(at_peak: &[bool], trough: usize) -> (r: Option<usize>)
    ensures
        match r {
            Some(d) => d > 0 && trough + d < at_peak@.len() && at_peak@[trough + d] && forall|t: int|
                trough < t < trough + d ==> !at_peak@[t],
            None => forall|t: int| trough < t < at_peak@.len() ==> !at_peak@[t],
        },
{
    if trough >= at_peak.len() {
        return None;
    }
    let mut i: usize = trough + 1;
    while i < at_peak.len()
        invariant
            trough < i,
            trough < at_peak@.len(),
            forall|t: int| trough < t < i ==> !at_peak@[t],
        decreases at_peak@.len() - i,
    {
        if at_peak[i] {
            return Some(i - trough);
        }
        i = i + 1;
    }
    None
}

} // verus!
