//! First-order high-pass filter, one state per channel.
//!
//! `y[n] = alpha * (y[n-1] + x[n] - x[n-1])`: rumble below the cutoff is removed. The arithmetic of
//! one step is a function of the caller; the filter keeps what each channel had last.

use vstd::prelude::*;

use crate::frames::{samples, shaped};

verus! {

/// A first-order high-pass filter over samples of type `T`.
pub struct HighPass150<T> {
    /// Weight of one step.
    pub alpha: T,
    /// Previous input sample of each channel.
    pub prev_x: Vec<T>,
    /// Previous output sample of each channel.
    pub prev_y: Vec<T>,
}

/// The last of `values`, or `before` when there is none.
pub open spec fn last_or<T>(values: Seq<T>, before: T) -> T {
    if values.len() > 0 {
        values[values.len() - 1]
    } else {
        before
    }
}

/// Whether `ys` is what `step` makes of the inputs `xs` in turn, where each step gets the weight,
/// the previous output, the input and the previous input, and `px` and `py` came before.
pub open spec fn filters<T, F: Fn(T, T, T, T) -> T>(
    step: F,
    alpha: T,
    px: T,
    py: T,
    xs: Seq<T>,
    ys: Seq<T>,
) -> bool {
    &&& ys.len() == xs.len()
    &&& forall|s: int|
        0 <= s < xs.len() ==> call_ensures(
            step,
            (alpha, last_or(ys.take(s), py), xs[s], last_or(xs.take(s), px)),
            #[trigger] ys[s],
        )
}

/// Whether a filter for `channels` channels has filtered nothing yet.
pub open spec fn unused<T>(filter: HighPass150<T>, alpha: T, zero: T, channels: nat) -> bool {
    &&& filter.alpha == alpha
    &&& filter.prev_x@ == Seq::new(channels, |i: int| zero)
    &&& filter.prev_y@ == Seq::new(channels, |i: int| zero)
}

/// Whether the filter `before`, fed the channels `data`, becomes the filter `after` and gives the
/// channels `out`: each channel is filtered from its own previous samples, and its last ones are
/// kept for the next frame. A channel without data keeps what it had.
pub open spec fn advances<T, F: Fn(T, T, T, T) -> T>(
    step: F,
    before: HighPass150<T>,
    data: Seq<Seq<T>>,
    after: HighPass150<T>,
    out: Seq<Seq<T>>,
) -> bool {
    &&& after.alpha == before.alpha
    &&& after.prev_x@.len() == before.prev_x@.len()
    &&& after.prev_y@.len() == before.prev_y@.len()
    &&& out.len() == data.len()
    &&& forall|ch: int|
        0 <= ch < data.len() ==> filters(
            step,
            before.alpha,
            before.prev_x@[ch],
            before.prev_y@[ch],
            data[ch],
            #[trigger] out[ch],
        )
    &&& forall|ch: int|
        0 <= ch < before.prev_x@.len() ==> #[trigger] after.prev_x@[ch] == if ch < data.len() {
            last_or(data[ch], before.prev_x@[ch])
        } else {
            before.prev_x@[ch]
        }
    &&& forall|ch: int|
        0 <= ch < before.prev_y@.len() ==> #[trigger] after.prev_y@[ch] == if ch < data.len() {
            last_or(out[ch], before.prev_y@[ch])
        } else {
            before.prev_y@[ch]
        }
}

/// Whether `step` gives one result for one input.
pub open spec fn repeatable<T, F: Fn(T, T, T, T) -> T>(step: F) -> bool {
    forall|alpha: T, py: T, x: T, px: T, y: T, z: T|
        #[trigger] call_ensures(step, (alpha, py, x, px), y) && #[trigger] call_ensures(
            step,
            (alpha, py, x, px),
            z,
        ) ==> y == z
}

impl<T: Copy> HighPass150<T> {
    /// Every channel has both of its previous samples.
    pub open spec fn wf(self) -> bool {
        self.prev_x@.len() == self.prev_y@.len()
    }

    /// A filter for `channels` channels whose previous samples are all `zero`.
    pub fn new(alpha: T, zero: T, channels: usize) -> (r: Self)
        ensures
            r.wf(),
            r.alpha == alpha,
            r.prev_x@ == Seq::new(channels as nat, |i: int| zero),
            r.prev_y@ == Seq::new(channels as nat, |i: int| zero),
            unused(r, alpha, zero, channels as nat),
    {
        let mut prev_x: Vec<T> = Vec::new();
        let mut prev_y: Vec<T> = Vec::new();
        while prev_x.len() < channels
            invariant
                prev_x@.len() <= channels,
                prev_x@.len() == prev_y@.len(),
                forall|k: int| 0 <= k < prev_x@.len() ==> prev_x@[k] == zero,
                forall|k: int| 0 <= k < prev_y@.len() ==> prev_y@[k] == zero,
            decreases channels - prev_x@.len(),
        {
            prev_x.push(zero);
            prev_y.push(zero);
        }
        assert(prev_x@ =~= Seq::new(channels as nat, |i: int| zero));
        assert(prev_y@ =~= Seq::new(channels as nat, |i: int| zero));
        HighPass150 { alpha, prev_x, prev_y }
    }

    /// Filters every channel in place, each from its own previous samples, and keeps its last
    /// ones for the next frame.
    pub fn process<F: Fn(T, T, T, T) -> T>(&mut self, channels_data: &mut [Vec<T>], step: F)
        requires
            old(self).wf(),
            forall|ch: int|
                0 <= ch < old(channels_data)@.len() && (#[trigger] old(channels_data)@[ch])@.len()
                    > 0 ==> ch < old(self).prev_x@.len(),
            forall|alpha: T, py: T, x: T, px: T|
                #[trigger] call_requires(step, (alpha, py, x, px)),
        ensures
            final(self).wf(),
            final(channels_data)@.len() == old(channels_data)@.len(),
            advances(
                step,
                *old(self),
                samples(old(channels_data)@),
                *final(self),
                samples(final(channels_data)@),
            ),
    {
        let ghost begin = *self;
        let ghost data = channels_data@;
        let count: usize = channels_data.len();
        let mut ch: usize = 0;
        while ch < count
            invariant
                ch <= count,
                count == data.len(),
                channels_data@.len() == data.len(),
                begin.wf(),
                self.wf(),
                self.alpha == begin.alpha,
                self.prev_x@.len() == begin.prev_x@.len(),
                forall|c: int|
                    0 <= c < data.len() && (#[trigger] data[c])@.len() > 0 ==> c
                        < begin.prev_x@.len(),
                forall|alpha: T, py: T, x: T, px: T|
                    #[trigger] call_requires(step, (alpha, py, x, px)),
                forall|c: int| ch <= c < data.len() ==> channels_data@[c] == data[c],
                forall|c: int|
                    ch <= c < begin.prev_x@.len() ==> #[trigger] self.prev_x@[c]
                        == begin.prev_x@[c],
                forall|c: int|
                    ch <= c < begin.prev_x@.len() ==> #[trigger] self.prev_y@[c]
                        == begin.prev_y@[c],
                forall|c: int|
                    0 <= c < ch ==> filters(
                        step,
                        begin.alpha,
                        begin.prev_x@[c],
                        begin.prev_y@[c],
                        data[c]@,
                        (#[trigger] channels_data@[c])@,
                    ),
                forall|c: int|
                    0 <= c < ch && c < begin.prev_x@.len() ==> #[trigger] self.prev_x@[c]
                        == last_or(data[c]@, begin.prev_x@[c]),
                forall|c: int|
                    0 <= c < ch && c < begin.prev_x@.len() ==> #[trigger] self.prev_y@[c]
                        == last_or(channels_data@[c]@, begin.prev_y@[c]),
            decreases count - ch,
        {
            let len: usize = channels_data[ch].len();
            let ghost before = channels_data@;
            let ghost state = *self;
            let ghost xs = data[ch as int]@;
            let ghost px = begin.prev_x@[ch as int];
            let ghost py = begin.prev_y@[ch as int];
            let mut s: usize = 0;
            while s < len
                invariant
                    ch < count,
                    count == data.len(),
                    s <= len,
                    len == xs.len(),
                    xs == data[ch as int]@,
                    px == begin.prev_x@[ch as int],
                    py == begin.prev_y@[ch as int],
                    len > 0 ==> ch < begin.prev_x@.len(),
                    state.wf(),
                    self.wf(),
                    self.alpha == begin.alpha,
                    self.prev_x@.len() == begin.prev_x@.len(),
                    state.prev_x@.len() == begin.prev_x@.len(),
                    forall|alpha: T, py: T, x: T, px: T|
                        #[trigger] call_requires(step, (alpha, py, x, px)),
                    channels_data@.len() == data.len(),
                    before.len() == data.len(),
                    forall|c: int|
                        0 <= c < data.len() && c != ch ==> channels_data@[c] == before[c],
                    channels_data@[ch as int]@.len() == len,
                    forall|k: int| s <= k < len ==> channels_data@[ch as int]@[k] == xs[k],
                    filters(
                        step,
                        begin.alpha,
                        px,
                        py,
                        xs.take(s as int),
                        channels_data@[ch as int]@.take(s as int),
                    ),
                    forall|c: int|
                        0 <= c < state.prev_x@.len() && c != ch ==> #[trigger] self.prev_x@[c]
                            == state.prev_x@[c],
                    forall|c: int|
                        0 <= c < state.prev_x@.len() && c != ch ==> #[trigger] self.prev_y@[c]
                            == state.prev_y@[c],
                    ch < begin.prev_x@.len() ==> self.prev_x@[ch as int] == last_or(
                        xs.take(s as int),
                        px,
                    ),
                    ch < begin.prev_x@.len() ==> self.prev_y@[ch as int] == last_or(
                        channels_data@[ch as int]@.take(s as int),
                        py,
                    ),
                decreases len - s,
            {
                let ghost ys = channels_data@[ch as int]@;
                let x: T = channels_data[ch][s];
                let y: T = step(self.alpha, self.prev_y[ch], x, self.prev_x[ch]);
                self.prev_x[ch] = x;
                self.prev_y[ch] = y;
                channels_data[ch][s] = y;
                proof {
                    let now = channels_data@[ch as int]@;
                    let n = s as int;
                    assert(now.take(n + 1).take(n) =~= ys.take(n));
                    assert(xs.take(n + 1).take(n) =~= xs.take(n));
                    assert forall|k: int| 0 <= k < n + 1 implies call_ensures(
                        step,
                        (
                            begin.alpha,
                            last_or(now.take(n + 1).take(k), py),
                            xs.take(n + 1)[k],
                            last_or(xs.take(n + 1).take(k), px),
                        ),
                        #[trigger] now.take(n + 1)[k],
                    ) by {
                        if k < n {
                            assert(now.take(n + 1).take(k) =~= ys.take(n).take(k));
                            assert(xs.take(n + 1).take(k) =~= xs.take(n).take(k));
                            assert(now.take(n + 1)[k] == ys.take(n)[k]);
                        }
                    }
                }
                s = s + 1;
            }
            proof {
                assert(xs.take(len as int) =~= xs);
                assert(channels_data@[ch as int]@.take(len as int) =~= channels_data@[ch as int]@);
                assert forall|c: int| 0 <= c < ch + 1 implies filters(
                    step,
                    begin.alpha,
                    begin.prev_x@[c],
                    begin.prev_y@[c],
                    data[c]@,
                    (#[trigger] channels_data@[c])@,
                ) by {
                    if c < ch {
                        assert(channels_data@[c] == before[c]);
                    }
                }
            }
            ch = ch + 1;
        }
        proof {
            let was = samples(data);
            let out = samples(channels_data@);
            assert forall|c: int| 0 <= c < was.len() implies filters(
                step,
                begin.alpha,
                begin.prev_x@[c],
                begin.prev_y@[c],
                was[c],
                #[trigger] out[c],
            ) by {
                assert(out[c] == channels_data@[c]@);
            }
        }
    }
}

/// Filtering goes on across frames: the outputs of two frames, the second filtered from what the
/// first left, are the outputs of both taken as one.
pub proof fn law_frames_filter_as_one<T, F: Fn(T, T, T, T) -> T>(
    step: F,
    alpha: T,
    px: T,
    py: T,
    first: Seq<T>,
    first_out: Seq<T>,
    second: Seq<T>,
    second_out: Seq<T>,
)
    requires
        filters(step, alpha, px, py, first, first_out),
        filters(step, alpha, last_or(first, px), last_or(first_out, py), second, second_out),
    ensures
        filters(step, alpha, px, py, first + second, first_out + second_out),
        last_or(first + second, px) == last_or(second, last_or(first, px)),
        last_or(first_out + second_out, py) == last_or(second_out, last_or(first_out, py)),
{
    let xs = first + second;
    let ys = first_out + second_out;
    assert forall|s: int| 0 <= s < xs.len() implies call_ensures(
        step,
        (alpha, last_or(ys.take(s), py), xs[s], last_or(xs.take(s), px)),
        #[trigger] ys[s],
    ) by {
        if s < first.len() {
            assert(ys.take(s) =~= first_out.take(s));
            assert(xs.take(s) =~= first.take(s));
            assert(ys[s] == first_out[s]);
        } else {
            let k = s - first.len();
            assert(ys[s] == second_out[k]);
            assert(ys.take(s) =~= first_out + second_out.take(k));
            assert(xs.take(s) =~= first + second.take(k));
        }
    }
}

/// Cutting a signal shows in no output: what may come out of two frames taken as one is what may
/// come out of the first, followed by what may come out of the second, filtered from what the
/// first left. This holds of every step.
pub proof fn law_a_cut_shows_in_no_output<T, F: Fn(T, T, T, T) -> T>(
    step: F,
    alpha: T,
    px: T,
    py: T,
    first: Seq<T>,
    first_out: Seq<T>,
    second: Seq<T>,
    second_out: Seq<T>,
)
    requires
        first_out.len() == first.len(),
    ensures
        filters(step, alpha, px, py, first + second, first_out + second_out) <==> (filters(
            step,
            alpha,
            px,
            py,
            first,
            first_out,
        ) && filters(
            step,
            alpha,
            last_or(first, px),
            last_or(first_out, py),
            second,
            second_out,
        )),
{
    let xs = first + second;
    let ys = first_out + second_out;
    if filters(step, alpha, px, py, xs, ys) {
        assert forall|s: int| 0 <= s < first.len() implies call_ensures(
            step,
            (alpha, last_or(first_out.take(s), py), first[s], last_or(first.take(s), px)),
            #[trigger] first_out[s],
        ) by {
            assert(ys.take(s) =~= first_out.take(s));
            assert(xs.take(s) =~= first.take(s));
            assert(ys[s] == first_out[s]);
        }
        assert forall|k: int| 0 <= k < second.len() implies call_ensures(
            step,
            (
                alpha,
                last_or(second_out.take(k), last_or(first_out, py)),
                second[k],
                last_or(second.take(k), last_or(first, px)),
            ),
            #[trigger] second_out[k],
        ) by {
            let s = first.len() + k;
            assert(ys[s] == second_out[k]);
            assert(ys.take(s) =~= first_out + second_out.take(k));
            assert(xs.take(s) =~= first + second.take(k));
        }
    } else if filters(step, alpha, px, py, first, first_out) && filters(
        step,
        alpha,
        last_or(first, px),
        last_or(first_out, py),
        second,
        second_out,
    ) {
        law_frames_filter_as_one(step, alpha, px, py, first, first_out, second, second_out);
    }
}

/// A filter does not tell frames from their join: once it gave `first_out` for the first frame, it
/// may give `second_out` for the second and end like `end` exactly if, fed every channel of both
/// frames as one, it may give both outputs as one and end like `end`. This holds of every step.
pub proof fn law_filter_does_not_see_cuts<T, F: Fn(T, T, T, T) -> T>(
    step: F,
    start: HighPass150<T>,
    between: HighPass150<T>,
    end: HighPass150<T>,
    first: Seq<Seq<T>>,
    first_out: Seq<Seq<T>>,
    second: Seq<Seq<T>>,
    second_out: Seq<Seq<T>>,
    joined: Seq<Seq<T>>,
    joined_out: Seq<Seq<T>>,
)
    requires
        start.prev_x@.len() == start.prev_y@.len(),
        first.len() <= start.prev_x@.len(),
        second.len() == first.len(),
        second_out.len() == first.len(),
        joined.len() == first.len(),
        joined_out.len() == first.len(),
        forall|ch: int|
            0 <= ch < first.len() ==> #[trigger] joined[ch] == first[ch] + second[ch],
        forall|ch: int|
            0 <= ch < first.len() ==> #[trigger] joined_out[ch] == first_out[ch] + second_out[ch],
        advances(step, start, first, between, first_out),
    ensures
        advances(step, between, second, end, second_out) <==> advances(
            step,
            start,
            joined,
            end,
            joined_out,
        ),
{
    assert forall|ch: int| 0 <= ch < first.len() implies {
        &&& joined[ch] == first[ch] + second[ch]
        &&& joined_out[ch] == first_out[ch] + second_out[ch]
        &&& between.prev_x@[ch] == last_or(first[ch], start.prev_x@[ch])
        &&& between.prev_y@[ch] == last_or(first_out[ch], start.prev_y@[ch])
        &&& filters(
            step,
            between.alpha,
            between.prev_x@[ch],
            between.prev_y@[ch],
            second[ch],
            #[trigger] second_out[ch],
        ) <==> filters(
            step,
            start.alpha,
            start.prev_x@[ch],
            start.prev_y@[ch],
            joined[ch],
            joined_out[ch],
        )
        &&& last_or(joined[ch], start.prev_x@[ch]) == last_or(second[ch], between.prev_x@[ch])
        &&& last_or(joined_out[ch], start.prev_y@[ch]) == last_or(
            second_out[ch],
            between.prev_y@[ch],
        )
    } by {
        assert(joined[ch] == first[ch] + second[ch]);
        assert(joined_out[ch] == first_out[ch] + second_out[ch]);
        assert(filters(
            step,
            start.alpha,
            start.prev_x@[ch],
            start.prev_y@[ch],
            first[ch],
            first_out[ch],
        ));
        law_a_cut_shows_in_no_output(
            step,
            start.alpha,
            start.prev_x@[ch],
            start.prev_y@[ch],
            first[ch],
            first_out[ch],
            second[ch],
            second_out[ch],
        );
    }
    if advances(step, between, second, end, second_out) {
        assert(advances(step, start, joined, end, joined_out));
    }
}

/// Filtering keeps the shape of the channel buffers.
pub proof fn law_filtering_keeps_the_shape<T, F: Fn(T, T, T, T) -> T>(
    step: F,
    before: HighPass150<T>,
    data: Seq<Seq<T>>,
    after: HighPass150<T>,
    out: Seq<Seq<T>>,
    channels: nat,
    frames: nat,
)
    requires
        advances(step, before, data, after, out),
        shaped(data, channels, frames),
    ensures
        shaped(out, channels, frames),
{
}

proof fn lemma_one_output<T, F: Fn(T, T, T, T) -> T>(
    step: F,
    alpha: T,
    px: T,
    py: T,
    xs: Seq<T>,
    ys: Seq<T>,
    zs: Seq<T>,
    n: nat,
)
    requires
        repeatable(step),
        filters(step, alpha, px, py, xs, ys),
        filters(step, alpha, px, py, xs, zs),
        n <= xs.len(),
    ensures
        ys.take(n as int) == zs.take(n as int),
    decreases n,
{
    if n > 0 {
        let k = n - 1;
        lemma_one_output(step, alpha, px, py, xs, ys, zs, k as nat);
        assert(ys[k] == zs[k]);
    }
    assert(ys.take(n as int) =~= zs.take(n as int));
}

/// If a step gives one result for one input, there is one output for one input: filtering two
/// frames in turn gives what filtering both as one does, and leaves the same previous samples.
pub proof fn law_frames_and_their_join_filter_alike<T, F: Fn(T, T, T, T) -> T>(
    step: F,
    alpha: T,
    px: T,
    py: T,
    first: Seq<T>,
    first_out: Seq<T>,
    second: Seq<T>,
    second_out: Seq<T>,
    joined_out: Seq<T>,
)
    requires
        repeatable(step),
        filters(step, alpha, px, py, first, first_out),
        filters(step, alpha, last_or(first, px), last_or(first_out, py), second, second_out),
        filters(step, alpha, px, py, first + second, joined_out),
    ensures
        joined_out == first_out + second_out,
        last_or(first + second, px) == last_or(second, last_or(first, px)),
        last_or(joined_out, py) == last_or(second_out, last_or(first_out, py)),
{
    let xs = first + second;
    let ys = first_out + second_out;
    law_frames_filter_as_one(step, alpha, px, py, first, first_out, second, second_out);
    lemma_one_output(step, alpha, px, py, xs, ys, joined_out, xs.len());
    assert(ys.take(xs.len() as int) =~= ys);
    assert(joined_out.take(xs.len() as int) =~= joined_out);
}

/// How the samples are cut into frames does not matter: a filter that is fed two frames in turn,
/// and one that starts alike and is fed every channel of both as one, give the same samples for
/// every channel and are alike in the end.
pub proof fn law_cutting_into_frames_does_not_matter<T, F: Fn(T, T, T, T) -> T>(
    step: F,
    start: HighPass150<T>,
    between: HighPass150<T>,
    end: HighPass150<T>,
    other_start: HighPass150<T>,
    other_end: HighPass150<T>,
    first: Seq<Seq<T>>,
    first_out: Seq<Seq<T>>,
    second: Seq<Seq<T>>,
    second_out: Seq<Seq<T>>,
    joined: Seq<Seq<T>>,
    joined_out: Seq<Seq<T>>,
)
    requires
        repeatable(step),
        start.prev_x@.len() == start.prev_y@.len(),
        start.alpha == other_start.alpha,
        start.prev_x@ == other_start.prev_x@,
        start.prev_y@ == other_start.prev_y@,
        first.len() <= start.prev_x@.len(),
        second.len() == first.len(),
        joined.len() == first.len(),
        forall|ch: int|
            0 <= ch < first.len() ==> #[trigger] joined[ch] == first[ch] + second[ch],
        advances(step, start, first, between, first_out),
        advances(step, between, second, end, second_out),
        advances(step, other_start, joined, other_end, joined_out),
    ensures
        joined_out.len() == first.len(),
        forall|ch: int|
            0 <= ch < first.len() ==> #[trigger] joined_out[ch] == first_out[ch] + second_out[ch],
        end.alpha == other_end.alpha,
        end.prev_x@ == other_end.prev_x@,
        end.prev_y@ == other_end.prev_y@,
{
    assert forall|ch: int| 0 <= ch < start.prev_x@.len() implies (ch < first.len()
        ==> joined_out[ch] == first_out[ch] + second_out[ch]) && #[trigger] end.prev_x@[ch]
        == other_end.prev_x@[ch] && end.prev_y@[ch] == other_end.prev_y@[ch] by {
        if ch < first.len() {
            assert(joined[ch] == first[ch] + second[ch]);
            law_frames_and_their_join_filter_alike(
                step,
                start.alpha,
                start.prev_x@[ch],
                start.prev_y@[ch],
                first[ch],
                first_out[ch],
                second[ch],
                second_out[ch],
                joined_out[ch],
            );
        }
    }
    assert forall|ch: int| 0 <= ch < first.len() implies #[trigger] joined_out[ch] == first_out[ch]
        + second_out[ch] by {
        assert(end.prev_x@[ch] == other_end.prev_x@[ch]);
    }
    assert(end.prev_x@ =~= other_end.prev_x@);
    assert(end.prev_y@ =~= other_end.prev_y@) by {
        assert forall|ch: int| 0 <= ch < end.prev_y@.len() implies end.prev_y@[ch]
            == other_end.prev_y@[ch] by {
            assert(end.prev_x@[ch] == other_end.prev_x@[ch]);
        }
    }
}

/// Every output sample is one step from its input, the input before it and the output before it; the
/// first one from what came before the frame. There are as many outputs as inputs.
pub proof fn law_every_output_is_one_step<T, F: Fn(T, T, T, T) -> T>(
    step: F,
    alpha: T,
    px: T,
    py: T,
    xs: Seq<T>,
    ys: Seq<T>,
    s: int,
)
    requires
        filters(step, alpha, px, py, xs, ys),
        0 <= s < xs.len(),
    ensures
        ys.len() == xs.len(),
        s == 0 ==> call_ensures(step, (alpha, py, xs[0], px), ys[0]),
        s > 0 ==> call_ensures(step, (alpha, ys[s - 1], xs[s], xs[s - 1]), ys[s]),
{
    assert(call_ensures(
        step,
        (alpha, last_or(ys.take(s), py), xs[s], last_or(xs.take(s), px)),
        ys[s],
    ));
}

/// Outputs that each are one step from their inputs and the output before are what the filter gives.
pub proof fn law_steps_make_the_output<T, F: Fn(T, T, T, T) -> T>(
    step: F,
    alpha: T,
    px: T,
    py: T,
    xs: Seq<T>,
    ys: Seq<T>,
)
    requires
        ys.len() == xs.len(),
        xs.len() > 0 ==> call_ensures(step, (alpha, py, xs[0], px), ys[0]),
        forall|s: int|
            0 < s < xs.len() ==> call_ensures(
                step,
                (alpha, ys[s - 1], xs[s], xs[s - 1]),
                #[trigger] ys[s],
            ),
    ensures
        filters(step, alpha, px, py, xs, ys),
{
}

/// Each channel is filtered for itself from what it had last, whatever the other channels hold, and
/// keeps its last input and its last output; a channel without samples keeps what it had. The weight
/// stays.
pub proof fn law_channels_are_filtered_for_themselves<T, F: Fn(T, T, T, T) -> T>(
    step: F,
    before: HighPass150<T>,
    data: Seq<Seq<T>>,
    after: HighPass150<T>,
    out: Seq<Seq<T>>,
    ch: int,
    s: int,
)
    requires
        advances(step, before, data, after, out),
        before.prev_x@.len() == before.prev_y@.len(),
        0 <= ch < data.len(),
        ch < before.prev_x@.len(),
    ensures
        after.alpha == before.alpha,
        after.prev_x@.len() == before.prev_x@.len(),
        after.prev_y@.len() == before.prev_y@.len(),
        out.len() == data.len(),
        out[ch].len() == data[ch].len(),
        0 < s < data[ch].len() ==> call_ensures(
            step,
            (before.alpha, out[ch][s - 1], data[ch][s], data[ch][s - 1]),
            out[ch][s],
        ),
        data[ch].len() > 0 ==> {
            &&& call_ensures(
                step,
                (before.alpha, before.prev_y@[ch], data[ch][0], before.prev_x@[ch]),
                out[ch][0],
            )
            &&& after.prev_x@[ch] == data[ch][data[ch].len() - 1]
            &&& after.prev_y@[ch] == out[ch][data[ch].len() - 1]
        },
        data[ch].len() == 0 ==> after.prev_x@[ch] == before.prev_x@[ch] && after.prev_y@[ch]
            == before.prev_y@[ch],
{
    assert(filters(
        step,
        before.alpha,
        before.prev_x@[ch],
        before.prev_y@[ch],
        data[ch],
        out[ch],
    ));
    if data[ch].len() > 0 {
        law_every_output_is_one_step(
            step,
            before.alpha,
            before.prev_x@[ch],
            before.prev_y@[ch],
            data[ch],
            out[ch],
            0,
        );
    }
    if 0 < s < data[ch].len() {
        law_every_output_is_one_step(
            step,
            before.alpha,
            before.prev_x@[ch],
            before.prev_y@[ch],
            data[ch],
            out[ch],
            s,
        );
    }
}

/// Channels beyond those that were fed keep what they had.
pub proof fn law_unfed_channels_stay<T, F: Fn(T, T, T, T) -> T>(
    step: F,
    before: HighPass150<T>,
    data: Seq<Seq<T>>,
    after: HighPass150<T>,
    out: Seq<Seq<T>>,
    ch: int,
)
    requires
        advances(step, before, data, after, out),
        before.prev_x@.len() == before.prev_y@.len(),
        data.len() <= ch < before.prev_x@.len(),
    ensures
        after.prev_x@[ch] == before.prev_x@[ch],
        after.prev_y@[ch] == before.prev_y@[ch],
{
}

/// A new filter has its weight, and for each of its channels, however many, both previous samples,
/// all of them `zero`.
pub proof fn law_new_filter_has_heard_nothing<T>(
    filter: HighPass150<T>,
    alpha: T,
    zero: T,
    channels: nat,
    ch: int,
)
    requires
        unused(filter, alpha, zero, channels),
        0 <= ch < channels,
    ensures
        filter.alpha == alpha,
        filter.prev_x@.len() == channels,
        filter.prev_y@.len() == channels,
        filter.prev_x@[ch] == zero,
        filter.prev_y@[ch] == zero,
{
}

} // verus!
