//! Walk-forward cross-validation.
//!
//! Walk-forward analysis tests a strategy on out-of-sample data using a
//! moving (rolling) or expanding (anchored) time window. Unlike k-fold CV it
//! respects temporal ordering: every training bar precedes every testing bar.
//!
//! Window `k` (counted from 0) tests on the bars
//! `[in + k * step, in + k * step + out)` and trains on
//! `[k * step, k * step + in)` (rolling) or `[0, in + k * step)` (anchored),
//! where `in`, `out` and `step` are the in-sample size, the out-of-sample size
//! and the step size. Windows are produced while the test window still ends
//! within the data.
use vstd::prelude::*;
use crate::afml::error::BacktestError;
use crate::text::{decimal, push_decimal};

verus! {

/// Walk-forward cross-validation configuration.
#[derive(Debug, Clone)]
pub struct WalkForwardConfig {
    /// Number of in-sample bars for training.
    pub in_sample_bars: usize,
    /// Number of out-of-sample bars for testing.
    pub out_of_sample_bars: usize,
    /// Step size between windows (bars to advance).
    pub step_size: usize,
    /// If true, the in-sample window expands (anchored); otherwise it rolls.
    pub anchored: bool,
}

/// A single walk-forward train/test split.
#[derive(Debug, Clone, PartialEq)]
pub struct WalkForwardSplit {
    /// Training bar indices.
    pub train_indices: Vec<usize>,
    /// Testing bar indices.
    pub test_indices: Vec<usize>,
    /// Window ID (0-indexed).
    pub window_id: usize,
}

/// The consecutive indices `start, start + 1, ..., end - 1`.
pub open spec fn index_range(start: int, end: int) -> Seq<usize> {
    Seq::new(if end >= start { (end - start) as nat } else { 0 }, |i: int| (start + i) as usize)
}

/// A source of train/test splits over `n_bars` time bars and `n_samples`
/// samples.
pub trait CrossValidator {
    type Split;

    /// The splits for the given data sizes.
    fn splits(&self, n_samples: usize, n_bars: usize) -> Vec<Self::Split>;
}

impl WalkForwardConfig {
    /// All three sizes are positive.
    pub open spec fn is_valid(&self) -> bool {
        &&& self.in_sample_bars > 0
        &&& self.out_of_sample_bars > 0
        &&& self.step_size > 0
    }

    /// First bar tested by window `k`.
    pub open spec fn test_start(&self, k: int) -> int {
        self.in_sample_bars + k * self.step_size
    }

    /// One past the last bar tested by window `k`.
    pub open spec fn test_end(&self, k: int) -> int {
        self.test_start(k) + self.out_of_sample_bars
    }

    /// First bar trained on by window `k`.
    pub open spec fn train_start(&self, k: int) -> int {
        if self.anchored { 0 } else { k * self.step_size }
    }

    /// Window `k` fits in `n_bars` bars.
    pub open spec fn window_fits(&self, n_bars: int, k: int) -> bool {
        self.test_end(k) <= n_bars
    }

    /// Message of the validation error of an invalid configuration: the
    /// first zero size, checked in the order in-sample, out-of-sample, step.
    pub open spec fn validation_message(&self) -> Seq<char> {
        if self.in_sample_bars == 0 {
            "in_sample_bars must be positive"@
        } else if self.out_of_sample_bars == 0 {
            "out_of_sample_bars must be positive"@
        } else {
            "step_size must be positive"@
        }
    }

    /// The split that window `k` must hold.
    pub open spec fn expected_split(&self, k: int, split: WalkForwardSplit) -> bool {
        &&& split.train_indices@ == index_range(self.train_start(k), self.test_start(k))
        &&& split.test_indices@ == index_range(self.test_start(k), self.test_end(k))
        &&& split.window_id == k
    }

    /// `splits` are exactly the windows that fit in `n_bars` bars, in order:
    /// window `k` is present for every `k` that fits, and the first window
    /// that does not fit ends the list.
    pub open spec fn exact_splits(&self, n_bars: int, splits: Seq<WalkForwardSplit>) -> bool {
        &&& forall|k: int| 0 <= k < splits.len() ==> self.window_fits(n_bars, k)
        &&& !self.window_fits(n_bars, splits.len() as int)
        &&& forall|k: int| 0 <= k < splits.len() ==> #[trigger] self.expected_split(k, splits[k])
    }

    /// Create a rolling (non-anchored) walk-forward configuration.
    pub fn rolling(in_sample_bars: usize, out_of_sample_bars: usize, step_size: usize) -> (r: Self)
        ensures
            r.in_sample_bars == in_sample_bars,
            r.out_of_sample_bars == out_of_sample_bars,
            r.step_size == step_size,
            !r.anchored,
    {
        WalkForwardConfig { in_sample_bars, out_of_sample_bars, step_size, anchored: false }
    }

    /// Create an anchored (expanding) walk-forward configuration.
    pub fn anchored(initial_in_sample_bars: usize, out_of_sample_bars: usize, step_size: usize) -> (r: Self)
        ensures
            r.in_sample_bars == initial_in_sample_bars,
            r.out_of_sample_bars == out_of_sample_bars,
            r.step_size == step_size,
            r.anchored,
    {
        WalkForwardConfig {
            in_sample_bars: initial_in_sample_bars,
            out_of_sample_bars,
            step_size,
            anchored: true,
        }
    }

    /// Validate the configuration: the first zero size (in-sample, then
    /// out-of-sample, then step) is reported as `InvalidConfig`.
    pub fn validate(&self) -> (r: Result<(), BacktestError>)
        ensures
            r is Ok <==> self.is_valid(),
            !self.is_valid() ==> (r matches Err(BacktestError::InvalidConfig(m)) && m@
                == self.validation_message()),
    {
        if self.in_sample_bars == 0 {
            return Err(BacktestError::InvalidConfig("in_sample_bars must be positive".to_string()));
        }
        if self.out_of_sample_bars == 0 {
            return Err(
                BacktestError::InvalidConfig("out_of_sample_bars must be positive".to_string()),
            );
        }
        if self.step_size == 0 {
            return Err(BacktestError::InvalidConfig("step_size must be positive".to_string()));
        }
        Ok(())
    }
}

/// The bars `start, ..., end - 1` as a vector.
fn range_vec(start: usize, end: usize) -> (v: Vec<usize>)
    ensures
        v@ == index_range(start as int, end as int),
{
    let mut v: Vec<usize> = Vec::new();
    if end <= start {
        assert(v@ =~= index_range(start as int, end as int));
        return v;
    }
    let mut i: usize = start;
    while i < end
        invariant
            start <= i <= end,
            v@ == index_range(start as int, i as int),
        decreases end - i,
    {
        v.push(i);
        i = i + 1;
        assert(v@ =~= index_range(start as int, i as int));
    }
    v
}

/// Message of the not-enough-bars error.
pub open spec fn insufficient_bars_message(needed: nat, got: nat) -> Seq<char> {
    "Need at least "@ + decimal(needed) + " bars, got "@ + decimal(got)
}

fn insufficient_bars(needed: u128, got: u128) -> (m: String)
    ensures
        m@ == insufficient_bars_message(needed as nat, got as nat),
{
    let mut m = String::new();
    m.push_str("Need at least ");
    push_decimal(&mut m, needed);
    m.push_str(" bars, got ");
    push_decimal(&mut m, got);
    m
}

/// Walk-forward cross-validator.
pub struct WalkForward {
    config: WalkForwardConfig,
}

impl WalkForward {
    /// The configuration this validator was built with.
    pub closed spec fn config(&self) -> WalkForwardConfig {
        self.config
    }

    /// Create a new walk-forward validator.
    pub fn new(config: WalkForwardConfig) -> (r: Self)
        ensures
            r.config() == config,
    {
        WalkForward { config }
    }

    /// Generate walk-forward splits for `n_bars` time bars.
    ///
    /// Fails with `InvalidConfig` when a size is zero (see
    /// [`WalkForwardConfig::validate`]) and with `InsufficientData` when
    /// `n_bars` cannot hold one training window plus one testing window.
    /// Otherwise returns every window that fits (at least one).
    pub fn generate_splits(&self, n_bars: usize) -> (r: Result<Vec<WalkForwardSplit>, BacktestError>)
        ensures
            !self.config().is_valid() <==> r matches Err(BacktestError::InvalidConfig(_)),
            !self.config().is_valid() ==> (r matches Err(BacktestError::InvalidConfig(m)) && m@
                == self.config().validation_message()),
            self.config().is_valid() && n_bars < self.config().in_sample_bars
                + self.config().out_of_sample_bars <==> r matches Err(
                BacktestError::InsufficientData(_),
            ),
            r matches Err(BacktestError::InsufficientData(m)) ==> m@ == insufficient_bars_message(
                (self.config().in_sample_bars + self.config().out_of_sample_bars) as nat,
                n_bars as nat,
            ),
            r is Ok <==> self.config().is_valid() && n_bars >= self.config().in_sample_bars
                + self.config().out_of_sample_bars,
            r matches Ok(splits) ==> self.config().exact_splits(n_bars as int, splits@),
            r matches Ok(splits) ==> splits.len() >= 1,
    {
        let cfg = &self.config;
        match cfg.validate() {
            Err(e) => {
                return Err(e);
            },
            Ok(()) => {},
        }
        let in_bars = cfg.in_sample_bars;
        let out_bars = cfg.out_of_sample_bars;
        let step = cfg.step_size;
        if in_bars > n_bars || out_bars > n_bars - in_bars {
            let m = insufficient_bars(in_bars as u128 + out_bars as u128, n_bars as u128);
            return Err(BacktestError::InsufficientData(m));
        }
        let remaining = n_bars - in_bars - out_bars;
        let mut splits: Vec<WalkForwardSplit> = Vec::new();
        let mut window_id: usize = 0;
        let mut offset: usize = 0;
        loop
            invariant_except_break
                offset == window_id * step,
                window_id <= offset,
            invariant
                cfg == &self.config,
                cfg.is_valid(),
                in_bars == cfg.in_sample_bars,
                out_bars == cfg.out_of_sample_bars,
                step == cfg.step_size,
                remaining == n_bars - in_bars - out_bars,
                offset <= remaining,
                splits.len() == window_id,
                forall|k: int| 0 <= k < splits.len() ==> cfg.window_fits(n_bars as int, k),
                forall|k: int| 0 <= k < splits.len() ==> #[trigger] cfg.expected_split(k, splits@[k]),
            ensures
                cfg.exact_splits(n_bars as int, splits@),
                splits.len() >= 1,
            decreases remaining - offset,
        {
            let train_start = if cfg.anchored { 0 } else { offset };
            let test_start = in_bars + offset;
            let test_end = test_start + out_bars;
            let split = WalkForwardSplit {
                train_indices: range_vec(train_start, test_start),
                test_indices: range_vec(test_start, test_end),
                window_id,
            };
            assert(cfg.expected_split(window_id as int, split));
            splits.push(split);
            assert(splits@[window_id as int] == split);
            let ghost w = window_id as int;
            window_id = window_id + 1;
            proof {
                assert((w + 1) * step == w * step + step) by (nonlinear_arith);
            }
            if step > remaining - offset {
                proof {
                    assert(!cfg.window_fits(n_bars as int, window_id as int));
                }
                break;
            }
            offset = offset + step;
        }
        Ok(splits)
    }
}

impl CrossValidator for WalkForward {
    type Split = WalkForwardSplit;

    /// The walk-forward splits over `n_bars` bars (`n_samples` is not used:
    /// walk-forward splits by bars); empty when the configuration is invalid
    /// or the bars are too few.
    fn splits(&self, _n_samples: usize, n_bars: usize) -> (r: Vec<WalkForwardSplit>)
        ensures
            self.config().is_valid() && n_bars >= self.config().in_sample_bars
                + self.config().out_of_sample_bars ==> self.config().exact_splits(n_bars as int, r@),
            !(self.config().is_valid() && n_bars >= self.config().in_sample_bars
                + self.config().out_of_sample_bars) ==> r@.len() == 0,
    {
        match self.generate_splits(n_bars) {
            Ok(s) => s,
            Err(_) => Vec::new(),
        }
    }
}

/// No look-ahead: in every walk-forward split each training bar comes
/// strictly before each testing bar, and every testing bar lies inside the
/// data.
pub proof fn lemma_walk_forward_no_lookahead(
    cfg: WalkForwardConfig,
    n_bars: usize,
    splits: Seq<WalkForwardSplit>,
)
    requires
        cfg.is_valid(),
        cfg.exact_splits(n_bars as int, splits),
    ensures
        forall|k: int, i: int, j: int|
            0 <= k < splits.len() && 0 <= i < splits[k].train_indices@.len() && 0 <= j
                < splits[k].test_indices@.len() ==> #[trigger] splits[k].train_indices@[i]
                < #[trigger] splits[k].test_indices@[j],
        forall|k: int, j: int|
            0 <= k < splits.len() && 0 <= j < splits[k].test_indices@.len() ==> 0
                <= #[trigger] splits[k].test_indices@[j] < n_bars,
{
    assert forall|k: int, i: int, j: int|
        0 <= k < splits.len() && 0 <= i < splits[k].train_indices@.len() && 0 <= j
            < splits[k].test_indices@.len() implies #[trigger] splits[k].train_indices@[i]
            < #[trigger] splits[k].test_indices@[j] by {
        assert(cfg.expected_split(k, splits[k]));
        assert(cfg.window_fits(n_bars as int, k));
        assert(0 <= k * cfg.step_size) by (nonlinear_arith)
            requires
                0 <= k,
                cfg.step_size > 0,
        ;
        assert(splits[k].train_indices@[i] == cfg.train_start(k) + i);
        assert(splits[k].test_indices@[j] == cfg.test_start(k) + j);
    }
    assert forall|k: int, j: int|
        0 <= k < splits.len() && 0 <= j < splits[k].test_indices@.len() implies 0
            <= #[trigger] splits[k].test_indices@[j] < n_bars by {
        assert(cfg.expected_split(k, splits[k]));
        assert(cfg.window_fits(n_bars as int, k));
        assert(0 <= k * cfg.step_size) by (nonlinear_arith)
            requires
                0 <= k,
                cfg.step_size > 0,
        ;
    }
}

/// Window shape: every testing window holds exactly `out_of_sample_bars`
/// bars; a rolling training window holds exactly `in_sample_bars` bars, while
/// an anchored one always starts at bar 0 and grows by `step_size` bars from
/// one window to the next. Consecutive testing windows start `step_size`
/// bars apart.
pub proof fn lemma_walk_forward_window_shape(
    cfg: WalkForwardConfig,
    n_bars: usize,
    splits: Seq<WalkForwardSplit>,
)
    requires
        cfg.is_valid(),
        cfg.exact_splits(n_bars as int, splits),
    ensures
        forall|k: int|
            0 <= k < splits.len() ==> (#[trigger] splits[k]).test_indices@.len()
                == cfg.out_of_sample_bars,
        !cfg.anchored ==> forall|k: int|
            0 <= k < splits.len() ==> (#[trigger] splits[k]).train_indices@.len()
                == cfg.in_sample_bars,
        cfg.anchored ==> forall|k: int|
            0 <= k < splits.len() ==> (#[trigger] splits[k]).train_indices@.len()
                == cfg.in_sample_bars + k * cfg.step_size && splits[k].train_indices@[0] == 0,
        forall|k: int|
            0 <= k && k + 1 < splits.len() ==> (#[trigger] splits[k + 1]).test_indices@[0]
                == splits[k].test_indices@[0] + cfg.step_size,
{
    assert forall|k: int| 0 <= k < splits.len() implies (#[trigger] splits[k]).test_indices@.len()
        == cfg.out_of_sample_bars by {
        assert(cfg.expected_split(k, splits[k]));
    }
    assert forall|k: int| 0 <= k < splits.len() && !cfg.anchored implies (
    #[trigger] splits[k]).train_indices@.len() == cfg.in_sample_bars by {
        assert(cfg.expected_split(k, splits[k]));
        assert(0 <= k * cfg.step_size) by (nonlinear_arith)
            requires
                0 <= k,
                cfg.step_size > 0,
        ;
    }
    assert forall|k: int| 0 <= k < splits.len() && cfg.anchored implies (
    #[trigger] splits[k]).train_indices@.len() == cfg.in_sample_bars + k * cfg.step_size
        && splits[k].train_indices@[0] == 0 by {
        assert(cfg.expected_split(k, splits[k]));
        assert(0 <= k * cfg.step_size) by (nonlinear_arith)
            requires
                0 <= k,
                cfg.step_size > 0,
        ;
    }
    assert forall|k: int| 0 <= k && k + 1 < splits.len() implies (#[trigger] splits[k
        + 1]).test_indices@[0] == splits[k].test_indices@[0] + cfg.step_size by {
        assert(cfg.expected_split(k, splits[k]));
        assert(cfg.expected_split(k + 1, splits[k + 1]));
        assert(cfg.window_fits(n_bars as int, k + 1));
        assert((k + 1) * cfg.step_size == k * cfg.step_size + cfg.step_size) by (nonlinear_arith);
        assert(0 <= k * cfg.step_size) by (nonlinear_arith)
            requires
                0 <= k,
                cfg.step_size > 0,
        ;
    }
}

/// Window bars: window `k` tests the `out_of_sample_bars` bars that start
/// `in_sample_bars + k * step_size` bars in, and trains on the bars just
/// before them: the `in_sample_bars` preceding bars for a rolling window,
/// every bar from 0 for an anchored one. Windows are numbered from 0.
pub proof fn lemma_walk_forward_window_bars(
    cfg: WalkForwardConfig,
    n_bars: usize,
    splits: Seq<WalkForwardSplit>,
)
    requires
        cfg.is_valid(),
        cfg.exact_splits(n_bars as int, splits),
    ensures
        forall|k: int| 0 <= k < splits.len() ==> (#[trigger] splits[k]).window_id == k,
        forall|k: int| 0 <= k < splits.len() ==> (#[trigger] splits[k]).test_indices@.len()
            == cfg.out_of_sample_bars,
        forall|k: int, j: int|
            0 <= k < splits.len() && 0 <= j < splits[k].test_indices@.len() ==> #[trigger] splits[k].test_indices@[j]
                == cfg.in_sample_bars + k * cfg.step_size + j,
        forall|k: int, i: int|
            0 <= k < splits.len() && 0 <= i < splits[k].train_indices@.len() ==> #[trigger] splits[k].train_indices@[i]
                == (if cfg.anchored { 0 } else { k * cfg.step_size }) + i,
        forall|k: int|
            0 <= k < splits.len() ==> (#[trigger] splits[k]).train_indices@.len() == if cfg.anchored {
                cfg.in_sample_bars + k * cfg.step_size
            } else {
                cfg.in_sample_bars as int
            },
{
    assert forall|k: int| 0 <= k < splits.len() implies (#[trigger] splits[k]).window_id == k by {
        assert(cfg.expected_split(k, splits[k]));
    }
    assert forall|k: int| 0 <= k < splits.len() implies (#[trigger] splits[k]).test_indices@.len()
        == cfg.out_of_sample_bars by {
        assert(cfg.expected_split(k, splits[k]));
    }
    assert forall|k: int, j: int|
        0 <= k < splits.len() && 0 <= j < splits[k].test_indices@.len() implies #[trigger] splits[k].test_indices@[j]
            == cfg.in_sample_bars + k * cfg.step_size + j by {
        assert(cfg.expected_split(k, splits[k]));
        assert(cfg.window_fits(n_bars as int, k));
        assert(0 <= k * cfg.step_size) by (nonlinear_arith)
            requires
                0 <= k,
                cfg.step_size > 0,
        ;
    }
    assert forall|k: int, i: int|
        0 <= k < splits.len() && 0 <= i < splits[k].train_indices@.len() implies #[trigger] splits[k].train_indices@[i]
            == (if cfg.anchored { 0 } else { k * cfg.step_size }) + i by {
        assert(cfg.expected_split(k, splits[k]));
        assert(cfg.window_fits(n_bars as int, k));
        assert(0 <= k * cfg.step_size) by (nonlinear_arith)
            requires
                0 <= k,
                cfg.step_size > 0,
        ;
    }
    assert forall|k: int| 0 <= k < splits.len() implies (#[trigger] splits[k]).train_indices@.len()
        == if cfg.anchored {
        cfg.in_sample_bars + k * cfg.step_size
    } else {
        cfg.in_sample_bars as int
    } by {
        assert(cfg.expected_split(k, splits[k]));
        assert(0 <= k * cfg.step_size) by (nonlinear_arith)
            requires
                0 <= k,
                cfg.step_size > 0,
        ;
    }
}

/// Window count: with `n_bars >= in + out` there are exactly
/// `(n_bars - in - out) / step + 1` windows.
pub proof fn lemma_walk_forward_window_count(
    cfg: WalkForwardConfig,
    n_bars: usize,
    splits: Seq<WalkForwardSplit>,
)
    requires
        cfg.is_valid(),
        n_bars >= cfg.in_sample_bars + cfg.out_of_sample_bars,
        cfg.exact_splits(n_bars as int, splits),
    ensures
        splits.len() == (n_bars as int - cfg.in_sample_bars - cfg.out_of_sample_bars) / (
        cfg.step_size as int) + 1,
{
    let len = splits.len() as int;
    let rem = n_bars as int - cfg.in_sample_bars - cfg.out_of_sample_bars;
    let step = cfg.step_size as int;
    assert(!cfg.window_fits(n_bars as int, len));
    if len == 0 {
        assert(0 * step == 0) by (nonlinear_arith);
        assert(cfg.window_fits(n_bars as int, 0));
    }
    assert(len >= 1);
    assert(cfg.window_fits(n_bars as int, len - 1));
    assert(rem / step == len - 1) by (nonlinear_arith)
        requires
            step > 0,
            rem >= 0,
            (len - 1) * step <= rem,
            rem < len * step,
            len >= 1,
    {
        vstd::arithmetic::div_mod::lemma_fundamental_div_mod(rem, step);
        let q = rem / step;
        let r = rem % step;
        assert(0 <= r < step);
        if q < len - 1 {
            assert(q * step + step <= (len - 1) * step);
        } else if q > len - 1 {
            assert(q * step >= len * step);
        }
    }
}

} // verus!
