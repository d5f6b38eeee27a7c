//! Measuring the ambient level to find the silence threshold.

use vstd::prelude::*;

use crate::single::{last_bit, lemma_units, units, units_of_one, Single, ZERO};

verus! {

/// Frames that one calibration samples: two seconds of frames of ten milliseconds.
pub const CAL_FRAMES: u32 = 200;

/// Bit pattern of 0.001, the smallest threshold that a calibration sets.
pub const MIN_THRESHOLD: u32 = 0x3a83_126f;

/// A calibration under way: how many levels were added up, and their sum.
#[derive(Clone, Copy, PartialEq, Eq, Structural, Debug)]
pub struct Calibration {
    pub count: u32,
    pub sum: Single,
}

/// What one frame changes of the state that the threads share; what is `None` stays as it is.
#[derive(Clone, Copy, PartialEq, Eq, Structural, Debug)]
pub struct CalibrationUpdate {
    /// Whether a calibration is shown as running.
    pub calibrating: Option<bool>,
    /// Whether a calibration is asked for.
    pub triggered: Option<bool>,
    /// The silence threshold.
    pub threshold: Option<Single>,
}

/// Nothing changes.
pub open spec fn unchanged() -> CalibrationUpdate {
    CalibrationUpdate { calibrating: None, triggered: None, threshold: None }
}

/// A calibration is running.
pub open spec fn running() -> CalibrationUpdate {
    CalibrationUpdate { calibrating: Some(true), triggered: None, threshold: None }
}

/// A calibration is over and found `threshold`.
pub open spec fn found(threshold: Single) -> CalibrationUpdate {
    CalibrationUpdate {
        calibrating: Some(false),
        triggered: Some(false),
        threshold: Some(threshold),
    }
}

/// Whether `threshold` is twice the average of levels whose sum over a calibration is `sum`, and
/// at least the smallest threshold. The arithmetic is that of `plus` and `mean`.
pub open spec fn sets_threshold<A: Fn(Single, Single) -> Single, M: Fn(Single, u32) -> Single>(
    plus: A,
    mean: M,
    sum: Single,
    threshold: Single,
) -> bool {
    exists|average: Single, doubled: Single|
        {
            &&& #[trigger] call_ensures(mean, (sum, CAL_FRAMES), average)
            &&& #[trigger] call_ensures(plus, (average, average), doubled)
            &&& threshold == doubled.raised(Single { bits: MIN_THRESHOLD })
        }
}

/// One frame of calibration, from the state `before` to `after`.
///
/// Nothing happens unless a calibration is asked for. Otherwise the level is added; with the
/// last frame the threshold is set and the next calibration starts afresh.
pub open spec fn observes<A: Fn(Single, Single) -> Single, M: Fn(Single, u32) -> Single>(
    plus: A,
    mean: M,
    before: Calibration,
    triggered: bool,
    level: Single,
    after: Calibration,
    update: CalibrationUpdate,
) -> bool {
    if !triggered {
        after == before && update == unchanged()
    } else if before.count + 1 < CAL_FRAMES {
        &&& after.count == before.count + 1
        &&& call_ensures(plus, (before.sum, level), after.sum)
        &&& update == running()
    } else {
        &&& after == (Calibration { count: 0, sum: Single { bits: ZERO } })
        &&& exists|sum: Single, threshold: Single|
            {
                &&& #[trigger] call_ensures(plus, (before.sum, level), sum)
                &&& #[trigger] sets_threshold(plus, mean, sum, threshold)
                &&& update == found(threshold)
            }
    }
}

impl Calibration {
    /// A calibration that is over leaves the count at zero, so it stays below the full number.
    pub open spec fn wf(self) -> bool {
        self.count < CAL_FRAMES
    }

    /// No frame was sampled yet.
    pub fn new() -> (r: Self)
        ensures
            r.wf(),
            r == (Calibration { count: 0, sum: Single { bits: ZERO } }),
    {
        Calibration { count: 0, sum: Single { bits: ZERO } }
    }

    /// Takes the level of one frame into account, if a calibration is asked for.
    ///
    /// `plus` adds two levels; `mean` divides a sum by a number of frames.
    pub fn observe<A: Fn(Single, Single) -> Single, M: Fn(Single, u32) -> Single>(
        &mut self,
        triggered: bool,
        level: Single,
        plus: A,
        mean: M,
    ) -> (r: CalibrationUpdate)
        requires
            old(self).wf(),
            forall|x: Single, y: Single| #[trigger] call_requires(plus, (x, y)),
            forall|x: Single, n: u32| #[trigger] call_requires(mean, (x, n)),
        ensures
            final(self).wf(),
            observes(plus, mean, *old(self), triggered, level, *final(self), r),
    {
        if !triggered {
            return CalibrationUpdate { calibrating: None, triggered: None, threshold: None };
        }
        let sum = plus(self.sum, level);
        if self.count + 1 < CAL_FRAMES {
            self.count = self.count + 1;
            self.sum = sum;
            return CalibrationUpdate { calibrating: Some(true), triggered: None, threshold: None };
        }
        let average = mean(sum, CAL_FRAMES);
        let doubled = plus(average, average);
        let threshold = doubled.at_least(Single { bits: MIN_THRESHOLD });
        self.count = 0;
        self.sum = Single { bits: ZERO };
        assert(sets_threshold(plus, mean, sum, threshold));
        CalibrationUpdate {
            calibrating: Some(false),
            triggered: Some(false),
            threshold: Some(threshold),
        }
    }
}

/// Whether `sums` are the sums that adding up `levels` in turn, from zero, goes through.
pub open spec fn running_sums<A: Fn(Single, Single) -> Single>(
    plus: A,
    levels: Seq<Single>,
    sums: Seq<Single>,
) -> bool {
    &&& sums.len() == levels.len() + 1
    &&& sums[0] == (Single { bits: ZERO })
    &&& forall|i: int|
        0 <= i < levels.len() ==> call_ensures(
            plus,
            (sums[i], #[trigger] levels[i]),
            sums[i + 1],
        )
}

/// Whether `sum` is what adding up `levels` in turn, from zero, gives.
pub open spec fn adds_up<A: Fn(Single, Single) -> Single>(
    plus: A,
    levels: Seq<Single>,
    sum: Single,
) -> bool {
    exists|sums: Seq<Single>|
        #[trigger] running_sums(plus, levels, sums) && sums[levels.len() as int] == sum
}

/// Whether `states` and `updates` are what a fresh calibration goes through over `levels`.
pub open spec fn calibrates<A: Fn(Single, Single) -> Single, M: Fn(Single, u32) -> Single>(
    plus: A,
    mean: M,
    levels: Seq<Single>,
    states: Seq<Calibration>,
    updates: Seq<CalibrationUpdate>,
) -> bool {
    &&& states.len() == levels.len() + 1
    &&& updates.len() == levels.len()
    &&& states[0] == (Calibration { count: 0, sum: Single { bits: ZERO } })
    &&& forall|i: int|
        0 <= i < levels.len() ==> observes(
            plus,
            mean,
            states[i],
            true,
            levels[i],
            states[i + 1],
            #[trigger] updates[i],
        )
}

proof fn lemma_calibration_under_way<A: Fn(Single, Single) -> Single, M: Fn(Single, u32) -> Single>(
    plus: A,
    mean: M,
    levels: Seq<Single>,
    states: Seq<Calibration>,
    updates: Seq<CalibrationUpdate>,
    n: int,
)
    requires
        calibrates(plus, mean, levels, states, updates),
        0 <= n <= levels.len(),
        n < CAL_FRAMES,
    ensures
        states[n].count == n,
        running_sums(plus, levels.take(n), Seq::new((n + 1) as nat, |i: int| states[i].sum)),
        forall|i: int| 0 <= i < n ==> #[trigger] updates[i] == running(),
    decreases n,
{
    if n > 0 {
        lemma_calibration_under_way(plus, mean, levels, states, updates, n - 1);
        assert(observes(
            plus,
            mean,
            states[n - 1],
            true,
            levels[n - 1],
            states[n],
            updates[n - 1],
        ));
        let sums = Seq::new((n + 1) as nat, |i: int| states[i].sum);
        assert forall|i: int| 0 <= i < n implies call_ensures(
            plus,
            (sums[i], #[trigger] levels.take(n)[i]),
            sums[i + 1],
        ) by {
            if i < n - 1 {
                let before = Seq::new(n as nat, |i: int| states[i].sum);
                assert(levels.take(n - 1)[i] == levels[i]);
                assert(before[i] == sums[i] && before[i + 1] == sums[i + 1]);
            }
        }
    }
}

/// A calibration runs for exactly `CAL_FRAMES` frames: each before the last only shows that it
/// is running. The last sets the threshold to twice the average of all sampled levels, asks for
/// no more frames and leaves a fresh calibration behind.
pub proof fn law_calibration_completes<A: Fn(Single, Single) -> Single, M: Fn(Single, u32) -> Single>(
    plus: A,
    mean: M,
    levels: Seq<Single>,
    states: Seq<Calibration>,
    updates: Seq<CalibrationUpdate>,
)
    requires
        calibrates(plus, mean, levels, states, updates),
        levels.len() == CAL_FRAMES,
    ensures
        forall|i: int| 0 <= i < CAL_FRAMES - 1 ==> #[trigger] updates[i] == running(),
        states[CAL_FRAMES as int] == (Calibration { count: 0, sum: Single { bits: ZERO } }),
        exists|sum: Single, threshold: Single|
            {
                &&& #[trigger] adds_up(plus, levels, sum)
                &&& #[trigger] sets_threshold(plus, mean, sum, threshold)
                &&& updates[CAL_FRAMES - 1] == found(threshold)
            },
{
    let last = CAL_FRAMES - 1;
    lemma_calibration_under_way(plus, mean, levels, states, updates, last);
    assert(observes(
        plus,
        mean,
        states[last],
        true,
        levels[last],
        states[last + 1],
        updates[last],
    ));
    let (sum, threshold) = choose|sum: Single, threshold: Single|
        {
            &&& #[trigger] call_ensures(plus, (states[last].sum, levels[last]), sum)
            &&& #[trigger] sets_threshold(plus, mean, sum, threshold)
            &&& updates[last] == found(threshold)
        };
    let before = Seq::new(CAL_FRAMES as nat, |i: int| states[i].sum);
    let sums = before.push(sum);
    assert forall|i: int| 0 <= i < levels.len() implies call_ensures(
        plus,
        (sums[i], #[trigger] levels[i]),
        sums[i + 1],
    ) by {
        if i < last {
            assert(levels.take(last)[i] == levels[i]);
        }
    }
    assert(running_sums(plus, levels, sums));
    assert(adds_up(plus, levels, sum));
}

/// Whatever the levels were, the threshold that a calibration sets is a number and not below the
/// smallest threshold.
pub proof fn law_threshold_has_a_floor<A: Fn(Single, Single) -> Single, M: Fn(Single, u32) -> Single>(
    plus: A,
    mean: M,
    sum: Single,
    threshold: Single,
)
    requires
        sets_threshold(plus, mean, sum, threshold),
    ensures
        !threshold.is_nan(),
        !threshold.below(Single { bits: MIN_THRESHOLD }),
{
}

/// The threshold that a calibration sets is twice the average itself wherever that is a number of
/// at least 0.001, and 0.001 only where it is less than that or not a number.
pub proof fn law_threshold_is_twice_the_average<
    A: Fn(Single, Single) -> Single,
    M: Fn(Single, u32) -> Single,
>(plus: A, mean: M, sum: Single, threshold: Single)
    requires
        sets_threshold(plus, mean, sum, threshold),
    ensures
        exists|average: Single, doubled: Single|
            {
                &&& #[trigger] call_ensures(mean, (sum, 200u32), average)
                &&& #[trigger] call_ensures(plus, (average, average), doubled)
                &&& !doubled.is_nan() && !doubled.below(Single { bits: 0x3a83_126f }) ==> threshold
                    == doubled
                &&& doubled.is_nan() || doubled.below(Single { bits: 0x3a83_126f }) ==> threshold
                    == (Single { bits: 0x3a83_126f })
            },
{
}

/// If there is one average of the levels and one double of it, the threshold follows from it: it is
/// that double, unless that is less than 0.001 or not a number.
pub proof fn law_threshold_follows_from_the_average<
    A: Fn(Single, Single) -> Single,
    M: Fn(Single, u32) -> Single,
>(plus: A, mean: M, sum: Single, threshold: Single, average: Single, doubled: Single)
    requires
        sets_threshold(plus, mean, sum, threshold),
        forall|x: Single| #[trigger] call_ensures(mean, (sum, 200u32), x) ==> x == average,
        forall|x: Single| #[trigger] call_ensures(plus, (average, average), x) ==> x == doubled,
    ensures
        threshold == doubled || threshold == (Single { bits: 0x3a83_126f }),
        threshold != doubled ==> doubled.is_nan() || doubled.below(threshold),
        !threshold.below(doubled),
{
}

/// The smallest threshold is 0.001, to within half of what the last bit of it counts.
pub proof fn law_smallest_threshold_is_a_thousandth()
    ensures
        units(Single { bits: MIN_THRESHOLD }) * 1000 - units_of_one() <= 500 * last_bit(117),
        units_of_one() - units(Single { bits: MIN_THRESHOLD }) * 1000 <= 500 * last_bit(117),
{
    vstd::arithmetic::power2::lemma2_to64_rest();
    lemma_units(Single { bits: MIN_THRESHOLD }, 117, 0x03_126f, 0x2_0000_0000);
    assert(last_bit(117) > 0);
    assert(units(Single { bits: MIN_THRESHOLD }) == 8_589_935 * last_bit(117));
    assert(units_of_one() == 8_589_934_592 * last_bit(117));
}

/// A frame while no calibration is asked for changes nothing.
pub proof fn law_nothing_is_measured_unasked<
    A: Fn(Single, Single) -> Single,
    M: Fn(Single, u32) -> Single,
>(
    plus: A,
    mean: M,
    before: Calibration,
    level: Single,
    after: Calibration,
    update: CalibrationUpdate,
)
    requires
        observes(plus, mean, before, false, level, after, update),
    ensures
        after == before,
        update.calibrating is None,
        update.triggered is None,
        update.threshold is None,
{
}

/// A frame of a calibration adds its level to the sum, whatever the level is. Each of the first 199
/// is counted and shows that the calibration is running, and nothing else. The 200th ends it: it is
/// no longer shown or asked for, the threshold is set, and the next one starts from nothing.
pub proof fn law_every_frame_is_measured<
    A: Fn(Single, Single) -> Single,
    M: Fn(Single, u32) -> Single,
>(
    plus: A,
    mean: M,
    before: Calibration,
    level: Single,
    after: Calibration,
    update: CalibrationUpdate,
)
    requires
        before.count < 200,
        observes(plus, mean, before, true, level, after, update),
    ensures
        before.count < 199 ==> {
            &&& call_ensures(plus, (before.sum, level), after.sum)
            &&& after.count == before.count + 1
            &&& update.calibrating == Some(true)
            &&& update.triggered is None
            &&& update.threshold is None
        },
        before.count == 199 ==> {
            &&& after.count == 0
            &&& after.sum.bits == 0
            &&& update.calibrating == Some(false)
            &&& update.triggered == Some(false)
            &&& exists|sum: Single, threshold: Single|
                {
                    &&& #[trigger] call_ensures(plus, (before.sum, level), sum)
                    &&& #[trigger] sets_threshold(plus, mean, sum, threshold)
                    &&& update.threshold == Some(threshold)
                }
        },
{
}

/// A whole calibration sets the threshold from all its levels: they are added up from zero, each
/// once and in turn, their sum is divided by 200, and the double of that is the threshold unless it
/// is less than 0.001 or not a number.
pub proof fn law_calibration_measures_every_level<
    A: Fn(Single, Single) -> Single,
    M: Fn(Single, u32) -> Single,
>(
    plus: A,
    mean: M,
    levels: Seq<Single>,
    states: Seq<Calibration>,
    updates: Seq<CalibrationUpdate>,
)
    requires
        calibrates(plus, mean, levels, states, updates),
        levels.len() == 200,
    ensures
        exists|sums: Seq<Single>, average: Single, doubled: Single|
            {
                &&& sums.len() == 201
                &&& sums[0].bits == 0
                &&& forall|i: int|
                    0 <= i < 200 ==> call_ensures(
                        plus,
                        (sums[i], #[trigger] levels[i]),
                        sums[i + 1],
                    )
                &&& #[trigger] call_ensures(mean, (sums.last(), 200u32), average)
                &&& #[trigger] call_ensures(plus, (average, average), doubled)
                &&& updates.last().threshold == Some(
                    if doubled.is_nan() || doubled.below(Single { bits: 0x3a83_126f }) {
                        Single { bits: 0x3a83_126f }
                    } else {
                        doubled
                    },
                )
            },
        updates.last().calibrating == Some(false),
        updates.last().triggered == Some(false),
        forall|i: int|
            0 <= i < 199 ==> (#[trigger] updates[i]).calibrating == Some(true)
                && updates[i].triggered is None && updates[i].threshold is None,
        states.last().count == 0,
        states.last().sum.bits == 0,
{
    law_calibration_completes(plus, mean, levels, states, updates);
    let (sum, threshold) = choose|sum: Single, threshold: Single|
        {
            &&& #[trigger] adds_up(plus, levels, sum)
            &&& #[trigger] sets_threshold(plus, mean, sum, threshold)
            &&& updates[CAL_FRAMES - 1] == found(threshold)
        };
    let sums = choose|sums: Seq<Single>|
        #[trigger] running_sums(plus, levels, sums) && sums[levels.len() as int] == sum;
    assert(sums.last() == sum);
    law_threshold_is_twice_the_average(plus, mean, sum, threshold);
    let (average, doubled) = choose|average: Single, doubled: Single|
        {
            &&& #[trigger] call_ensures(mean, (sum, 200u32), average)
            &&& #[trigger] call_ensures(plus, (average, average), doubled)
            &&& !doubled.is_nan() && !doubled.below(Single { bits: 0x3a83_126f }) ==> threshold
                == doubled
            &&& doubled.is_nan() || doubled.below(Single { bits: 0x3a83_126f }) ==> threshold == (
            Single { bits: 0x3a83_126f })
        };
    assert(call_ensures(mean, (sums.last(), 200u32), average));
}

} // verus!
