//! The adaptive noise floor: a rolling window of loudness readings and the
//! two quantiles of it that set the detection threshold.

use crate::circular_buffer_stack::CircularBufferStack;
use crate::ring::{after_writes, lemma_writes_keep_latest, retain_last, values};
use vstd::prelude::*;
use vstd::relations::{sorted_by, total_ordering};

verus! {

/// The margin, in millibels, that is added to the upper quantile unless the
/// caller chooses another: six decibels.
pub const DEFAULT_MARGIN: i32 = 600;

/// The order of loudness readings.
pub open spec fn level_leq() -> spec_fn(i32, i32) -> bool {
    |a: i32, b: i32| a <= b
}

/// The readings `s` in ascending order.
pub open spec fn ascending(s: Seq<i32>) -> Seq<i32> {
    s.sort_by(level_leq())
}

/// The position in a sorted window of `len` readings at which the quantile
/// of `tenths` tenths is read: `len * tenths / 10`, rounded down.
pub open spec fn quantile_index(len: nat, tenths: nat) -> int {
    (len * tenths / 10) as int
}

/// The quantile of `tenths` tenths of the readings `s`.
pub open spec fn quantile(s: Seq<i32>, tenths: nat) -> i32
    recommends
        s.len() > 0,
        tenths < 10,
{
    ascending(s)[quantile_index(s.len(), tenths)]
}

/// `ascending(s)` is the one ascending arrangement of `s`: it is sorted, it
/// holds the readings of `s`, each as often as `s` does, and every sequence
/// of which both are true equals it.
pub proof fn lemma_ascending_unique(s: Seq<i32>, t: Seq<i32>)
    requires
        sorted_by(t, level_leq()),
        t.to_multiset() == s.to_multiset(),
    ensures
        ascending(s) == t,
        sorted_by(ascending(s), level_leq()),
        ascending(s).to_multiset() == s.to_multiset(),
        ascending(s).len() == s.len(),
{
    assert(total_ordering(level_leq()));
    s.lemma_sort_by_ensures(level_leq());
    vstd::seq_lib::lemma_sorted_unique(ascending(s), t, level_leq());
    s.to_multiset_ensures();
    ascending(s).to_multiset_ensures();
}

/// A quantile lies inside the window it is taken from.
pub proof fn lemma_quantile_index_in_range(len: nat, tenths: nat)
    requires
        len > 0,
        tenths < 10,
    ensures
        0 <= quantile_index(len, tenths) < len,
{
    assert(len * tenths <= len * 9) by (nonlinear_arith)
        requires
            tenths <= 9,
    ;
    assert(len * tenths >= 0) by (nonlinear_arith);
}

/// Computes `quantile_index`.
pub fn quantile_position(len: usize, tenths: usize) -> (position: usize)
    requires
        len > 0,
        tenths < 10,
    ensures
        position == quantile_index(len as nat, tenths as nat),
        position < len,
{
    proof {
        lemma_quantile_index_in_range(len as nat, tenths as nat);
        assert(len * tenths <= len * 9) by (nonlinear_arith)
            requires
                tenths <= 9,
        ;
        assert(len * tenths >= 0) by (nonlinear_arith);
    }
    let wide: u128 = (len as u128) * (tenths as u128) / 10;
    wide as usize
}

/// Sorts the readings into ascending order, in place.
pub fn sort_levels(levels: &mut Vec<i32>)
    ensures
        final(levels)@ == ascending(old(levels)@),
{
    let n = levels.len();
    let mut sorted_until: usize = 0;
    while sorted_until < n
        invariant
            sorted_until <= n,
            levels@.len() == n,
            levels@.to_multiset() == old(levels)@.to_multiset(),
            forall|a: int, b: int| 0 <= a < b < sorted_until ==> levels@[a] <= levels@[b],
        decreases n - sorted_until,
    {
        let mut hole = sorted_until;
        while hole > 0 && levels[hole - 1] > levels[hole]
            invariant
                hole <= sorted_until < n,
                levels@.len() == n,
                levels@.to_multiset() == old(levels)@.to_multiset(),
                forall|a: int, b: int|
                    0 <= a < b <= sorted_until && a != hole && b != hole ==> levels@[a]
                        <= levels@[b],
                forall|b: int| hole < b <= sorted_until ==> levels@[hole as int] <= levels@[b],
            decreases hole,
        {
            let lower = levels[hole - 1];
            let upper = levels[hole];
            let ghost before = levels@;
            levels[hole - 1] = upper;
            levels[hole] = lower;
            proof {
                broadcast use vstd::multiset::group_multiset_axioms;

                let between = before.update(hole - 1, upper);
                vstd::seq_lib::to_multiset_update(before, hole - 1, upper);
                vstd::seq_lib::to_multiset_update(between, hole as int, lower);
                before.to_multiset_ensures();
                assert(before[hole - 1] == lower && before.contains(lower));
                assert(between[hole as int] == upper);
                assert(levels@ == between.update(hole as int, lower));
                let m = before.to_multiset();
                assert(between.to_multiset() == m.insert(upper).remove(lower));
                assert(levels@.to_multiset() == m.insert(upper).remove(lower).insert(lower).remove(
                    upper,
                ));
                assert(m.insert(upper).remove(lower).insert(lower) =~= m.insert(upper));
                assert(m.insert(upper).remove(upper) =~= m);
            }
            hole -= 1;
        }
        sorted_until += 1;
    }
    proof {
        assert(sorted_by(levels@, level_leq()));
        lemma_ascending_unique(old(levels)@, levels@);
    }
}

/// What the estimator holds: the window of readings, oldest first, the two
/// figures derived from it, and the margin.
pub struct EstimatorView {
    pub history: Seq<i32>,
    pub noise_floor: int,
    pub target_threshold: int,
    pub margin: int,
}

impl EstimatorView {
    /// The estimator after one more reading, with a window of `capacity`.
    pub open spec fn observed(self, level: i32, capacity: nat) -> EstimatorView {
        EstimatorView { history: retain_last(self.history.push(level), capacity), ..self }
    }

    /// The estimator after the readings `levels`, taken in order.
    pub open spec fn observed_all(self, levels: Seq<i32>, capacity: nat) -> EstimatorView
        decreases levels.len(),
    {
        if levels.len() == 0 {
            self
        } else {
            self.observed_all(levels.drop_last(), capacity).observed(levels.last(), capacity)
        }
    }

    /// The estimator after its figures were brought up to date: once the
    /// window is full the noise floor is its median and the threshold its
    /// ninth decile plus the margin; until then both stay as they are.
    pub open spec fn recomputed(self, capacity: nat) -> EstimatorView {
        if self.history.len() == capacity {
            EstimatorView {
                noise_floor: quantile(self.history, 5) as int,
                target_threshold: quantile(self.history, 9) + self.margin,
                ..self
            }
        } else {
            self
        }
    }
}

/// Once a window of `capacity` has taken `capacity` readings, whatever it
/// held before, bringing the figures up to date makes the noise floor the
/// median of exactly those readings and the threshold their ninth decile
/// plus the margin.
pub proof fn lemma_full_window_statistics(start: EstimatorView, levels: Seq<i32>, capacity: nat)
    requires
        capacity > 0,
        levels.len() == capacity,
    ensures
        start.observed_all(levels, capacity).history == levels,
        start.observed_all(levels, capacity).recomputed(capacity).noise_floor == quantile(
            levels,
            5,
        ),
        start.observed_all(levels, capacity).recomputed(capacity).target_threshold == quantile(
            levels,
            9,
        ) + start.margin,
        start.observed_all(levels, capacity).recomputed(capacity).history == levels,
        start.observed_all(levels, capacity).recomputed(capacity).margin == start.margin,
{
    lemma_observed_all(start, levels, capacity);
    assert(retain_last(start.history + levels, capacity) =~= levels);
}

/// Readings pass through the window as writes pass through a ring: after
/// `levels` the window holds the last `capacity` of what it held before
/// followed by `levels`, and nothing else has changed.
pub proof fn lemma_observed_all(start: EstimatorView, levels: Seq<i32>, capacity: nat)
    ensures
        start.observed_all(levels, capacity).history == if levels.len() == 0 {
            start.history
        } else {
            retain_last(start.history + levels, capacity)
        },
        start.observed_all(levels, capacity).noise_floor == start.noise_floor,
        start.observed_all(levels, capacity).target_threshold == start.target_threshold,
        start.observed_all(levels, capacity).margin == start.margin,
    decreases levels.len(),
{
    if levels.len() > 0 {
        let earlier = levels.drop_last();
        lemma_observed_all(start, earlier, capacity);
        assert(start.history + levels =~= (start.history + earlier).push(levels.last()));
        if earlier.len() == 0 {
            assert(start.history + earlier =~= start.history);
        } else {
            assert(retain_last(
                retain_last(start.history + earlier, capacity).push(levels.last()),
                capacity,
            ) =~= retain_last((start.history + earlier).push(levels.last()), capacity));
        }
    }
}

/// The rolling window of the last `H` loudness readings, in millibels, with
/// the noise floor and the detection threshold derived from it.
pub struct NoiseFloorEstimator<const H: usize> {
    history: CircularBufferStack<H, i32>,
    noise_floor: i64,
    target_threshold: i64,
    margin: i32,
}

impl<const H: usize> View for NoiseFloorEstimator<H> {
    type V = EstimatorView;

    closed spec fn view(&self) -> EstimatorView {
        EstimatorView {
            history: self.history@,
            noise_floor: self.noise_floor as int,
            target_threshold: self.target_threshold as int,
            margin: self.margin as int,
        }
    }
}

impl<const H: usize> NoiseFloorEstimator<H> {
    /// An estimator with an empty window. Until the window has filled once,
    /// the noise floor and the threshold are the two figures given here.
    pub fn new(default_noise_floor: i64, default_threshold: i64, margin: i32) -> (estimator: Self)
        requires
            H > 0,
        ensures
            estimator@ == (EstimatorView {
                history: Seq::empty(),
                noise_floor: default_noise_floor as int,
                target_threshold: default_threshold as int,
                margin: margin as int,
            }),
    {
        NoiseFloorEstimator {
            history: CircularBufferStack::new(),
            noise_floor: default_noise_floor,
            target_threshold: default_threshold,
            margin,
        }
    }

    /// Takes one reading into the window; the oldest gives way once the
    /// window is full. The two figures are left as they are.
    pub fn observe(&mut self, level: i32)
        ensures
            final(self)@ == old(self)@.observed(level, H as nat),
    {
        self.history.put(level);
    }

    /// Brings the two figures up to date if the window is full.
    pub fn recompute_if_full(&mut self)
        ensures
            final(self)@ == old(self)@.recomputed(H as nat),
    {
        if self.history.is_full() {
            let snapshot = self.history.clone_unordered();
            let mut sorted: Vec<i32> = Vec::new();
            let mut copied: usize = 0;
            while copied < snapshot.len()
                invariant
                    copied <= snapshot@.len(),
                    sorted@ == values(snapshot@).subrange(0, copied as int),
                decreases snapshot@.len() - copied,
            {
                sorted.push(*snapshot[copied]);
                copied += 1;
                assert(sorted@ =~= values(snapshot@).subrange(0, copied as int));
            }
            assert(sorted@ =~= values(snapshot@));
            sort_levels(&mut sorted);
            proof {
                let window = self.history@;
                values(snapshot@).lemma_sort_by_ensures(level_leq());
                lemma_ascending_unique(window, sorted@);
                lemma_quantile_index_in_range(window.len(), 5);
                lemma_quantile_index_in_range(window.len(), 9);
            }
            let len = sorted.len();
            let median = sorted[quantile_position(len, 5)];
            let upper = sorted[quantile_position(len, 9)];
            self.noise_floor = median as i64;
            self.target_threshold = upper as i64 + self.margin as i64;
        }
    }

    /// The noise floor: the median of the last full window, or the default.
    pub fn noise_floor(&self) -> (level: i64)
        ensures
            level == self@.noise_floor,
    {
        self.noise_floor
    }

    /// The detection threshold: the ninth decile of the last full window plus
    /// the margin, or the default.
    pub fn target_threshold(&self) -> (level: i64)
        ensures
            level == self@.target_threshold,
    {
        self.target_threshold
    }

    /// Whether the window has filled at least once.
    pub fn is_full(&self) -> (full: bool)
        ensures
            full == (self@.history.len() == H),
            self@.history.len() <= H,
    {
        self.history.is_full()
    }
}

} // verus!
