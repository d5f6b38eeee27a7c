//! The level of a frame.

use vstd::prelude::*;

use crate::single::Single;

verus! {

/// Whether `sums` are the sums that adding the squares of `frame` in turn, from `zero`, goes
/// through. `plus_square` adds the square of a sample.
pub open spec fn sums_squares<T, S: Fn(Single, T) -> Single>(
    plus_square: S,
    zero: Single,
    frame: Seq<T>,
    sums: Seq<Single>,
) -> bool {
    &&& sums.len() == frame.len() + 1
    &&& sums[0] == zero
    &&& forall|i: int|
        0 <= i < frame.len() ==> call_ensures(
            plus_square,
            (sums[i], #[trigger] frame[i]),
            sums[i + 1],
        )
}

/// By what the sum of squares is divided: the number of samples, but never zero.
pub open spec fn divisor(len: nat) -> nat {
    if len == 0 {
        1
    } else {
        len
    }
}

/// Whether `level` is the root mean square of `frame`. `root_mean` takes the root of a sum
/// divided by a number of samples.
pub open spec fn is_level<T, S: Fn(Single, T) -> Single, R: Fn(Single, usize) -> Single>(
    plus_square: S,
    root_mean: R,
    zero: Single,
    frame: Seq<T>,
    level: Single,
) -> bool {
    exists|sums: Seq<Single>|
        {
            &&& #[trigger] sums_squares(plus_square, zero, frame, sums)
            &&& call_ensures(
                root_mean,
                (sums[frame.len() as int], divisor(frame.len()) as usize),
                level,
            )
        }
}

/// The level of a frame: its root mean square, which an empty frame has too.
pub fn frame_level<T: Copy, S: Fn(Single, T) -> Single, R: Fn(Single, usize) -> Single>(
    frame: &[T],
    zero: Single,
    plus_square: S,
    root_mean: R,
) -> (r: Single)
    requires
        forall|sum: Single, sample: T| #[trigger] call_requires(plus_square, (sum, sample)),
        forall|sum: Single, n: usize| #[trigger] call_requires(root_mean, (sum, n)),
    ensures
        is_level(plus_square, root_mean, zero, frame@, r),
{
    let len: usize = frame.len();
    let mut sum: Single = zero;
    let ghost mut sums: Seq<Single> = seq![zero];
    let mut i: usize = 0;
    while i < len
        invariant
            len == frame@.len(),
            i <= len,
            sums.len() == i + 1,
            sums[0] == zero,
            sums[i as int] == sum,
            forall|sum: Single, sample: T| #[trigger] call_requires(plus_square, (sum, sample)),
            forall|k: int|
                0 <= k < i ==> call_ensures(
                    plus_square,
                    (sums[k], #[trigger] frame@[k]),
                    sums[k + 1],
                ),
        decreases len - i,
    {
        sum = plus_square(sum, frame[i]);
        proof {
            sums = sums.push(sum);
        }
        i = i + 1;
    }
    let level = root_mean(
        sum,
        if len == 0 {
            1
        } else {
            len
        },
    );
    assert(sums_squares(plus_square, zero, frame@, sums));
    level
}

/// Whether adding the squares of all of `frame`, each once and in turn, to `zero` gives `sum`.
pub open spec fn sum_of_squares<T, S: Fn(Single, T) -> Single>(
    plus_square: S,
    zero: Single,
    frame: Seq<T>,
    sum: Single,
) -> bool {
    exists|sums: Seq<Single>|
        #[trigger] sums_squares(plus_square, zero, frame, sums) && sums.last() == sum
}

/// Nothing adds up to `zero`, and to nothing else.
pub proof fn law_empty_frame_adds_nothing<T, S: Fn(Single, T) -> Single>(
    plus_square: S,
    zero: Single,
    sum: Single,
)
    ensures
        sum_of_squares(plus_square, zero, Seq::<T>::empty(), sum) <==> sum == zero,
{
    if sum == zero {
        let sums = seq![zero];
        assert(sums_squares(plus_square, zero, Seq::<T>::empty(), sums));
        assert(sums.last() == sum);
    }
}

/// One more sample adds its square to the sum of the frame before it, and nothing else does.
pub proof fn law_every_sample_adds_its_square<T, S: Fn(Single, T) -> Single>(
    plus_square: S,
    zero: Single,
    frame: Seq<T>,
    sample: T,
    sum: Single,
)
    ensures
        sum_of_squares(plus_square, zero, frame.push(sample), sum) <==> exists|before: Single| #[trigger]
            sum_of_squares(plus_square, zero, frame, before) && call_ensures(
                plus_square,
                (before, sample),
                sum,
            ),
{
    let longer = frame.push(sample);
    let n = frame.len() as int;
    if sum_of_squares(plus_square, zero, longer, sum) {
        let sums = choose|sums: Seq<Single>|
            #[trigger] sums_squares(plus_square, zero, longer, sums) && sums.last() == sum;
        let fewer = sums.drop_last();
        assert forall|i: int| 0 <= i < frame.len() implies call_ensures(
            plus_square,
            (fewer[i], #[trigger] frame[i]),
            fewer[i + 1],
        ) by {
            assert(longer[i] == frame[i]);
        }
        assert(sums_squares(plus_square, zero, frame, fewer));
        assert(longer[n] == sample);
        assert(sum_of_squares(plus_square, zero, frame, fewer.last()));
    }
    if exists|before: Single| #[trigger]
        sum_of_squares(plus_square, zero, frame, before) && call_ensures(
            plus_square,
            (before, sample),
            sum,
        ) {
        let before = choose|before: Single| #[trigger]
            sum_of_squares(plus_square, zero, frame, before) && call_ensures(
                plus_square,
                (before, sample),
                sum,
            );
        let fewer = choose|sums: Seq<Single>|
            #[trigger] sums_squares(plus_square, zero, frame, sums) && sums.last() == before;
        let sums = fewer.push(sum);
        assert forall|i: int| 0 <= i < longer.len() implies call_ensures(
            plus_square,
            (sums[i], #[trigger] longer[i]),
            sums[i + 1],
        ) by {
            if i < n {
                assert(longer[i] == frame[i]);
            }
        }
        assert(sums_squares(plus_square, zero, longer, sums));
        assert(sums.last() == sum);
    }
}

/// The level is the root of the sum over the whole frame, divided by the number of all its samples.
pub proof fn law_level_is_of_the_whole_frame<
    T,
    S: Fn(Single, T) -> Single,
    R: Fn(Single, usize) -> Single,
>(plus_square: S, root_mean: R, zero: Single, frame: Seq<T>, level: Single)
    requires
        0 < frame.len() <= usize::MAX,
    ensures
        is_level(plus_square, root_mean, zero, frame, level) <==> exists|sum: Single| #[trigger]
            sum_of_squares(plus_square, zero, frame, sum) && call_ensures(
                root_mean,
                (sum, frame.len() as usize),
                level,
            ),
{
    if is_level(plus_square, root_mean, zero, frame, level) {
        let sums = choose|sums: Seq<Single>|
            {
                &&& #[trigger] sums_squares(plus_square, zero, frame, sums)
                &&& call_ensures(
                    root_mean,
                    (sums[frame.len() as int], divisor(frame.len()) as usize),
                    level,
                )
            };
        assert(sum_of_squares(plus_square, zero, frame, sums.last()));
    }
    if exists|sum: Single| #[trigger]
        sum_of_squares(plus_square, zero, frame, sum) && call_ensures(
            root_mean,
            (sum, frame.len() as usize),
            level,
        ) {
        let sum = choose|sum: Single| #[trigger]
            sum_of_squares(plus_square, zero, frame, sum) && call_ensures(
                root_mean,
                (sum, frame.len() as usize),
                level,
            );
        let sums = choose|sums: Seq<Single>|
            #[trigger] sums_squares(plus_square, zero, frame, sums) && sums.last() == sum;
        assert(sums[frame.len() as int] == sum);
    }
}

/// A frame without samples has the level of `zero` over one sample: nothing is divided by zero.
pub proof fn law_empty_frame_has_a_level<
    T,
    S: Fn(Single, T) -> Single,
    R: Fn(Single, usize) -> Single,
>(plus_square: S, root_mean: R, zero: Single, level: Single)
    ensures
        is_level(plus_square, root_mean, zero, Seq::<T>::empty(), level) <==> call_ensures(
            root_mean,
            (zero, 1usize),
            level,
        ),
{
    if call_ensures(root_mean, (zero, 1usize), level) {
        let sums = seq![zero];
        assert(sums_squares(plus_square, zero, Seq::<T>::empty(), sums));
    }
}

/// The level of a frame with one more sample comes from the sum of the frame before it, the square
/// of that sample and a divisor of one more.
pub proof fn law_level_of_a_longer_frame<
    T,
    S: Fn(Single, T) -> Single,
    R: Fn(Single, usize) -> Single,
>(plus_square: S, root_mean: R, zero: Single, frame: Seq<T>, sample: T, level: Single)
    requires
        frame.len() < usize::MAX,
        is_level(plus_square, root_mean, zero, frame.push(sample), level),
    ensures
        exists|before: Single, sum: Single|
            {
                &&& #[trigger] sum_of_squares(plus_square, zero, frame, before)
                &&& #[trigger] call_ensures(plus_square, (before, sample), sum)
                &&& call_ensures(root_mean, (sum, (frame.len() + 1) as usize), level)
            },
{
    let longer = frame.push(sample);
    law_level_is_of_the_whole_frame(plus_square, root_mean, zero, longer, level);
    let sum = choose|sum: Single| #[trigger]
        sum_of_squares(plus_square, zero, longer, sum) && call_ensures(
            root_mean,
            (sum, longer.len() as usize),
            level,
        );
    law_every_sample_adds_its_square(plus_square, zero, frame, sample, sum);
}

} // verus!
