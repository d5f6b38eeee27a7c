//! Moving samples between interleaved frames and per-channel buffers.

use vstd::prelude::*;

use crate::single::{Single, MINUS_ONE, ONE, ZERO};

verus! {

/// How many frames `interleaved_to_channels` moves: as many as are there, at most `frames`.
pub open spec fn frames_moved(len: nat, channels: nat, frames: nat) -> nat
    recommends
        channels > 0,
{
    if len / channels <= frames {
        len / channels
    } else {
        frames
    }
}

proof fn lemma_sample_index(frame: int, ch: int, frames: int, channels: int)
    requires
        0 <= frame < frames,
        0 <= ch < channels,
    ensures
        0 <= frame * channels + ch < frames * channels,
{
    assert(frame * channels + channels <= frames * channels) by (nonlinear_arith)
        requires
            frame + 1 <= frames,
            channels > 0,
    ;
    assert(0 <= frame * channels) by (nonlinear_arith)
        requires
            0 <= frame,
            0 < channels,
    ;
}

proof fn lemma_frames_moved_fit(len: nat, channels: nat, frames: nat)
    requires
        channels > 0,
    ensures
        frames_moved(len, channels, frames) * channels <= len,
{
    vstd::arithmetic::div_mod::lemma_fundamental_div_mod(len as int, channels as int);
    assert(frames_moved(len, channels, frames) * channels <= (len / channels) * channels)
        by (nonlinear_arith)
        requires
            frames_moved(len, channels, frames) <= len / channels,
    ;
    assert((len / channels) * channels == channels * (len / channels)) by (nonlinear_arith);
}

/// The samples that a row of channel buffers holds.
pub open spec fn samples<T>(buffers: Seq<Vec<T>>) -> Seq<Seq<T>> {
    buffers.map_values(|buffer: Vec<T>| buffer@)
}

/// Whether there is a buffer of `frames` samples for each of `channels` channels.
pub open spec fn shaped<T>(buffers: Seq<Seq<T>>, channels: nat, frames: nat) -> bool {
    &&& buffers.len() == channels
    &&& forall|ch: int| 0 <= ch < channels ==> (#[trigger] buffers[ch]).len() == frames
}

/// Channel buffers that hold nothing but `zero`.
pub open spec fn silent_buffers<T>(channels: nat, frames: nat, zero: T) -> Seq<Seq<T>> {
    Seq::new(channels, |ch: int| Seq::new(frames, |i: int| zero))
}

/// Channel buffers for a stream: `frames` samples of silence for each channel.
pub fn channel_buffers<T: Copy>(channels: usize, frames: usize, zero: T) -> (r: Vec<Vec<T>>)
    ensures
        r@.len() == channels,
        forall|ch: int|
            0 <= ch < channels ==> (#[trigger] r@[ch])@ == Seq::new(frames as nat, |i: int| zero),
        samples(r@) == silent_buffers(channels as nat, frames as nat, zero),
        shaped(samples(r@), channels as nat, frames as nat),
{
    let mut buffers: Vec<Vec<T>> = Vec::new();
    while buffers.len() < channels
        invariant
            buffers@.len() <= channels,
            forall|ch: int|
                0 <= ch < buffers@.len() ==> (#[trigger] buffers@[ch])@ == Seq::new(
                    frames as nat,
                    |i: int| zero,
                ),
        decreases channels - buffers@.len(),
    {
        buffers.push(render_or_silence(None, frames, zero));
    }
    assert(samples(buffers@) =~= silent_buffers(channels as nat, frames as nat, zero));
    buffers
}

/// The channel buffers `before` after the frames of `interleaved` were spread over the first
/// `channels` of them.
pub open spec fn spread<T>(
    interleaved: Seq<T>,
    channels: nat,
    frames: nat,
    before: Seq<Seq<T>>,
) -> Seq<Seq<T>> {
    Seq::new(
        before.len(),
        |ch: int|
            Seq::new(
                before[ch].len(),
                |frame: int|
                    if ch < channels && frame < frames_moved(interleaved.len(), channels, frames) {
                        interleaved[frame * channels + ch]
                    } else {
                        before[ch][frame]
                    },
            ),
    )
}

/// Spreads an interleaved frame over the channel buffers `out`.
///
/// At most `frames` frames are moved, and only whole ones; what a buffer holds beyond them stays.
pub fn interleaved_to_channels<T: Copy>(
    interleaved: &[T],
    channels: usize,
    frames: usize,
    out: &mut [Vec<T>],
)
    requires
        channels > 0,
        frames_moved(interleaved@.len(), channels as nat, frames as nat) > 0 ==> channels
            <= old(out)@.len(),
        forall|ch: int|
            0 <= ch < channels && ch < old(out)@.len() ==> (#[trigger] old(out)@[ch])@.len()
                >= frames_moved(interleaved@.len(), channels as nat, frames as nat),
    ensures
        final(out)@.len() == old(out)@.len(),
        samples(final(out)@) == spread(
            interleaved@,
            channels as nat,
            frames as nat,
            samples(old(out)@),
        ),
{
    let len: usize = interleaved.len();
    let avail_frames: usize = len / channels;
    let copy_frames: usize = if avail_frames <= frames {
        avail_frames
    } else {
        frames
    };
    let ghost start = out@;
    proof {
        lemma_frames_moved_fit(interleaved@.len(), channels as nat, frames as nat);
    }
    let mut frame: usize = 0;
    while frame < copy_frames
        invariant
            channels > 0,
            copy_frames == frames_moved(interleaved@.len(), channels as nat, frames as nat),
            len == interleaved@.len(),
            copy_frames * channels <= len,
            frame <= copy_frames,
            copy_frames > 0 ==> channels <= start.len(),
            out@.len() == start.len(),
            forall|c: int|
                0 <= c < start.len() ==> (#[trigger] out@[c])@.len() == start[c]@.len(),
            forall|c: int|
                0 <= c < channels && c < start.len() ==> (#[trigger] start[c])@.len()
                    >= copy_frames,
            forall|c: int, f: int|
                0 <= c < start.len() && 0 <= f < start[c]@.len() ==> #[trigger] out@[c]@[f] == if c
                    < channels && f < frame {
                    interleaved@[f * channels + c]
                } else {
                    start[c]@[f]
                },
        decreases copy_frames - frame,
    {
        let mut ch: usize = 0;
        while ch < channels
            invariant
                channels > 0,
                copy_frames == frames_moved(interleaved@.len(), channels as nat, frames as nat),
                len == interleaved@.len(),
            copy_frames * channels <= len,
                frame < copy_frames,
                ch <= channels,
                channels <= start.len(),
                out@.len() == start.len(),
                forall|c: int|
                    0 <= c < start.len() ==> (#[trigger] out@[c])@.len() == start[c]@.len(),
                forall|c: int|
                    0 <= c < channels && c < start.len() ==> (#[trigger] start[c])@.len()
                        >= copy_frames,
                forall|c: int, f: int|
                    0 <= c < start.len() && 0 <= f < start[c]@.len() ==> #[trigger] out@[c]@[f]
                        == if c < channels && (f < frame || (f == frame && c < ch)) {
                        interleaved@[f * channels + c]
                    } else {
                        start[c]@[f]
                    },
            decreases channels - ch,
        {
            proof {
                lemma_sample_index(
                    frame as int,
                    ch as int,
                    copy_frames as int,
                    channels as int,
                );
                assert(start[ch as int]@.len() >= copy_frames);
                assert(0 <= frame * channels) by (nonlinear_arith);
            }
            out[ch][frame] = interleaved[frame * channels + ch];
            ch = ch + 1;
        }
        frame = frame + 1;
    }
    proof {
        let after = spread(interleaved@, channels as nat, frames as nat, samples(start));
        assert forall|c: int| 0 <= c < start.len() implies samples(out@)[c] == #[trigger] after[c] by {
            assert(out@[c]@ =~= after[c]);
        }
        assert(samples(out@) =~= after);
    }
}

/// The samples that a row of channel slices holds.
pub open spec fn slice_samples<T>(channels_data: Seq<&[T]>) -> Seq<Seq<T>> {
    channels_data.map_values(|channel: &[T]| channel@)
}

/// The frame `before` after the channels were woven into its start.
pub open spec fn woven<T>(channels_data: Seq<Seq<T>>, before: Seq<T>) -> Seq<T> {
    let channels = channels_data.len() as int;
    Seq::new(
        before.len(),
        |i: int|
            if i < channels_data[0].len() * channels {
                channels_data[i % channels][i / channels]
            } else {
                before[i]
            },
    )
}

proof fn lemma_sample_place(frame: int, ch: int, channels: int)
    requires
        0 <= frame,
        0 <= ch < channels,
    ensures
        (frame * channels + ch) / channels == frame,
        (frame * channels + ch) % channels == ch,
{
    vstd::arithmetic::div_mod::lemma_fundamental_div_mod_converse(
        frame * channels + ch,
        channels,
        frame,
        ch,
    );
}

/// Weaves the channels into the interleaved frame `out`, which may be longer: its rest stays.
///
/// The first channel gives the number of frames.
pub fn channels_to_interleaved<T: Copy>(channels_data: &[&[T]], out: &mut [T])
    requires
        channels_data@.len() > 0,
        forall|ch: int|
            0 <= ch < channels_data@.len() ==> (#[trigger] channels_data@[ch])@.len()
                >= channels_data@[0]@.len(),
        channels_data@[0]@.len() * channels_data@.len() <= old(out)@.len(),
    ensures
        final(out)@ == woven(slice_samples(channels_data@), old(out)@),
{
    let channels: usize = channels_data.len();
    let frames: usize = channels_data[0].len();
    let total: usize = out.len();
    let ghost data = slice_samples(channels_data@);
    let ghost start = out@;
    let mut frame: usize = 0;
    while frame < frames
        invariant
            channels > 0,
            channels == channels_data@.len(),
            frames == channels_data@[0]@.len(),
            frames * channels <= total,
            total == start.len(),
            data == slice_samples(channels_data@),
            forall|ch: int|
                0 <= ch < channels_data@.len() ==> (#[trigger] channels_data@[ch])@.len() >= frames,
            frame <= frames,
            out@.len() == start.len(),
            forall|i: int|
                0 <= i < start.len() ==> #[trigger] out@[i] == if i < frame * channels {
                    data[i % (channels as int)][i / (channels as int)]
                } else {
                    start[i]
                },
        decreases frames - frame,
    {
        let mut ch: usize = 0;
        while ch < channels
            invariant
                channels > 0,
                channels == channels_data@.len(),
                frames == channels_data@[0]@.len(),
                frames * channels <= total,
                total == start.len(),
                data == slice_samples(channels_data@),
                forall|ch: int|
                    0 <= ch < channels_data@.len() ==> (#[trigger] channels_data@[ch])@.len()
                        >= frames,
                frame < frames,
                ch <= channels,
                out@.len() == start.len(),
                forall|i: int|
                    0 <= i < start.len() ==> #[trigger] out@[i] == if i < frame * channels + ch {
                        data[i % (channels as int)][i / (channels as int)]
                    } else {
                        start[i]
                    },
            decreases channels - ch,
        {
            proof {
                lemma_sample_index(frame as int, ch as int, frames as int, channels as int);
                lemma_sample_place(frame as int, ch as int, channels as int);
                assert(0 <= frame * channels) by (nonlinear_arith);
                assert(data[ch as int] == channels_data@[ch as int]@);
            }
            out[frame * channels + ch] = channels_data[ch][frame];
            ch = ch + 1;
        }
        assert((frame + 1) * channels == frame * channels + channels) by (nonlinear_arith);
        frame = frame + 1;
    }
    assert(out@ =~= woven(data, start));
}

/// Every sample of a frame, kept within -1 and 1.
pub open spec fn clamped_samples(frame: Seq<Single>) -> Seq<Single> {
    frame.map_values(
        |sample: Single| sample.clamped(Single { bits: MINUS_ONE }, Single { bits: ONE }),
    )
}

/// Keeps every sample of an output frame within -1 and 1.
pub fn clamp_frame(frame: &mut [Single])
    ensures
        final(frame)@ == clamped_samples(old(frame)@),
{
    let len: usize = frame.len();
    let ghost start = frame@;
    let mut i: usize = 0;
    while i < len
        invariant
            len == start.len(),
            frame@.len() == start.len(),
            i <= len,
            forall|k: int| i <= k < len ==> frame@[k] == start[k],
            forall|k: int| 0 <= k < i ==> frame@[k] == clamped_samples(start)[k],
        decreases len - i,
    {
        let sample: Single = frame[i];
        frame[i] = sample.clamp(Single { bits: MINUS_ONE }, Single { bits: ONE });
        i = i + 1;
    }
    assert(frame@ =~= clamped_samples(start));
}

/// Whether a sample lies within -1 and 1; a NaN lies nowhere and is let through.
pub open spec fn within_range(sample: Single) -> bool {
    sample.is_nan() || (!sample.below(Single { bits: MINUS_ONE }) && !(Single {
        bits: ONE,
    }).below(sample))
}

/// The frame that is sent for some channels: they are woven, and every sample is kept within -1
/// and 1.
pub open spec fn sent(channels_data: Seq<Seq<Single>>) -> Seq<Single> {
    let channels = channels_data.len() as int;
    Seq::new(
        (channels_data[0].len() * channels) as nat,
        |i: int|
            channels_data[i % channels][i / channels].clamped(
                Single { bits: MINUS_ONE },
                Single { bits: ONE },
            ),
    )
}

/// The frame that is sent for the channels: woven, and every sample kept within -1 and 1.
///
/// The first channel gives the number of frames.
pub fn output_frame(channels_data: &[&[Single]]) -> (r: Vec<Single>)
    requires
        channels_data@.len() > 0,
        forall|ch: int|
            0 <= ch < channels_data@.len() ==> (#[trigger] channels_data@[ch])@.len()
                >= channels_data@[0]@.len(),
        channels_data@[0]@.len() * channels_data@.len() <= usize::MAX,
    ensures
        r@ == sent(slice_samples(channels_data@)),
        r@.len() == channels_data@[0]@.len() * channels_data@.len(),
        forall|i: int| 0 <= i < r@.len() ==> within_range(#[trigger] r@[i]),
{
    let len: usize = channels_data[0].len() * channels_data.len();
    let mut frame: Vec<Single> = render_or_silence(None, len, Single { bits: ZERO });
    channels_to_interleaved(channels_data, frame.as_mut_slice());
    clamp_frame(frame.as_mut_slice());
    assert(frame@ =~= sent(slice_samples(channels_data@)));
    frame
}

/// The samples of a frame that may not be there.
pub open spec fn frame_samples<T>(frame: Option<Vec<T>>) -> Option<Seq<T>> {
    match frame {
        Some(frame) => Some(frame@),
        None => None,
    }
}

/// What a playback buffer of `len` samples gets: the frame that is ready as far as it goes, then
/// `zero`.
pub open spec fn played<T>(len: nat, ready: Option<Seq<T>>, zero: T) -> Seq<T> {
    Seq::new(
        len,
        |i: int|
            match ready {
                Some(frame) => if i < frame.len() {
                    frame[i]
                } else {
                    zero
                },
                None => zero,
            },
    )
}

/// Fills a playback buffer from the frame that is ready, if one is, and with silence beyond it.
pub fn fill_output<T: Copy>(out: &mut [T], ready: Option<Vec<T>>, zero: T)
    ensures
        final(out)@ == played(old(out)@.len(), frame_samples(ready), zero),
{
    let len: usize = out.len();
    let ghost expected = played(out@.len(), frame_samples(ready), zero);
    let mut i: usize = 0;
    while i < len
        invariant
            len == out@.len(),
            i <= len,
            expected == played(len as nat, frame_samples(ready), zero),
            forall|k: int| 0 <= k < i ==> out@[k] == expected[k],
        decreases len - i,
    {
        let sample: T = match &ready {
            Some(frame) => if i < frame.len() {
                frame[i]
            } else {
                zero
            },
            None => zero,
        };
        out[i] = sample;
        i = i + 1;
    }
    assert(out@ =~= expected);
}

/// The rendered frame that arrived, or `len` samples of silence when none did.
pub open spec fn rendered<T>(received: Option<Seq<T>>, len: nat, zero: T) -> Seq<T> {
    match received {
        Some(frame) => frame,
        None => Seq::new(len, |i: int| zero),
    }
}

/// The rendered frame that arrived, or `len` samples of silence when none did.
pub fn render_or_silence<T: Copy>(received: Option<Vec<T>>, len: usize, zero: T) -> (r: Vec<T>)
    ensures
        r@ == match frame_samples(received) {
            Some(frame) => frame,
            None => Seq::new(len as nat, |i: int| zero),
        },
        r@ == rendered(frame_samples(received), len as nat, zero),
{
    match received {
        Some(frame) => frame,
        None => {
            let mut silence: Vec<T> = Vec::new();
            while silence.len() < len
                invariant
                    silence@.len() <= len,
                    forall|k: int| 0 <= k < silence@.len() ==> silence@[k] == zero,
                decreases len - silence@.len(),
            {
                silence.push(zero);
            }
            assert(silence@ =~= Seq::new(len as nat, |i: int| zero));
            silence
        },
    }
}

/// Spreading a frame of whole frames and weaving the channels again gives the frame back.
pub proof fn law_weaving_undoes_spreading<T>(
    interleaved: Seq<T>,
    channels: nat,
    frames: nat,
    buffers: Seq<Seq<T>>,
    before: Seq<T>,
)
    requires
        channels > 0,
        interleaved.len() == frames * channels,
        buffers.len() == channels,
        forall|ch: int| 0 <= ch < channels ==> (#[trigger] buffers[ch]).len() == frames,
        before.len() == interleaved.len(),
    ensures
        woven(spread(interleaved, channels, frames, buffers), before) == interleaved,
{
    let channel_data = spread(interleaved, channels, frames, buffers);
    vstd::arithmetic::div_mod::lemma_div_multiples_vanish(frames as int, channels as int);
    assert(frames * channels == channels * frames) by (nonlinear_arith);
    assert(frames_moved(interleaved.len(), channels, frames) == frames);
    assert(channel_data[0].len() == buffers[0].len());
    assert forall|i: int| 0 <= i < interleaved.len() implies woven(channel_data, before)[i]
        == interleaved[i] by {
        let frame = i / (channels as int);
        let ch = i % (channels as int);
        vstd::arithmetic::div_mod::lemma_fundamental_div_mod(i, channels as int);
        vstd::arithmetic::div_mod::lemma_mod_bound(i, channels as int);
        assert(0 <= frame < frames) by (nonlinear_arith)
            requires
                i == channels * frame + ch,
                0 <= ch < channels,
                0 <= i < frames * channels,
        ;
        assert(channels * frame == frame * channels) by (nonlinear_arith);
        assert(buffers[ch].len() == frames);
        assert(channel_data[ch][frame] == interleaved[frame * channels + ch]);
    }
    assert(woven(channel_data, before) =~= interleaved);
}

/// Weaving channels of equal length and spreading the frame again gives the channels back.
pub proof fn law_spreading_undoes_weaving<T>(
    channels_data: Seq<Seq<T>>,
    frames: nat,
    buffers: Seq<Seq<T>>,
    before: Seq<T>,
)
    requires
        channels_data.len() > 0,
        forall|ch: int|
            0 <= ch < channels_data.len() ==> (#[trigger] channels_data[ch]).len() == frames,
        buffers.len() == channels_data.len(),
        forall|ch: int| 0 <= ch < buffers.len() ==> (#[trigger] buffers[ch]).len() == frames,
        before.len() == frames * channels_data.len(),
    ensures
        spread(woven(channels_data, before), channels_data.len(), frames, buffers)
            == channels_data,
{
    let channels = channels_data.len();
    let interleaved = woven(channels_data, before);
    let back = spread(interleaved, channels, frames, buffers);
    assert(frames * channels == channels * frames) by (nonlinear_arith);
    vstd::arithmetic::div_mod::lemma_div_multiples_vanish(frames as int, channels as int);
    assert(frames_moved(interleaved.len(), channels, frames) == frames);
    assert(channels_data[0].len() == frames);
    assert forall|ch: int| 0 <= ch < channels implies back[ch] == #[trigger] channels_data[ch] by {
        assert(buffers[ch].len() == frames);
        assert forall|frame: int| 0 <= frame < frames implies back[ch][frame]
            == channels_data[ch][frame] by {
            lemma_sample_index(frame, ch, frames as int, channels as int);
            lemma_sample_place(frame, ch, channels as int);
        }
        assert(back[ch] =~= channels_data[ch]);
    }
    assert(back =~= channels_data);
}

/// A playback buffer that is as long as the ready frame gets exactly that frame.
pub proof fn law_full_frame_is_played_unchanged<T>(frame: Seq<T>, zero: T)
    ensures
        played(frame.len(), Some(frame), zero) == frame,
{
    assert(played(frame.len(), Some(frame), zero) =~= frame);
}

/// No sample of a clamped frame is outside -1 and 1, and clamping it again changes nothing.
pub proof fn law_clamped_frame_is_within_range(frame: Seq<Single>)
    ensures
        forall|i: int|
            0 <= i < frame.len() ==> !(#[trigger] clamped_samples(frame)[i]).below(
                Single { bits: MINUS_ONE },
            ) && !(Single { bits: ONE }).below(clamped_samples(frame)[i]),
        clamped_samples(clamped_samples(frame)) == clamped_samples(frame),
{
    assert(clamped_samples(clamped_samples(frame)) =~= clamped_samples(frame));
}

/// Every frame that is sent for channel buffers of ten milliseconds each holds ten milliseconds of
/// every channel, and no sample of it that is a number is outside -1 and 1.
pub proof fn law_every_sent_frame_is_full(
    sample_rate: nat,
    channels: nat,
    channels_data: Seq<Seq<Single>>,
)
    requires
        channels > 0,
        shaped(channels_data, channels, sample_rate / 100),
    ensures
        sent(channels_data).len() == (sample_rate / 100) * channels,
        forall|i: int|
            0 <= i < sent(channels_data).len() ==> within_range(#[trigger] sent(channels_data)[i]),
{
}

/// An input frame of any length leaves the shape of the channel buffers as it is, and so the length
/// of what is sent for them.
pub proof fn law_spreading_keeps_the_shape<T>(
    interleaved: Seq<T>,
    channels: nat,
    frames: nat,
    before: Seq<Seq<T>>,
)
    requires
        shaped(before, channels, frames),
    ensures
        shaped(spread(interleaved, channels, frames, before), channels, frames),
{
}

/// The channel buffers after some input frames were spread over them in turn.
pub open spec fn spread_all<T>(
    inputs: Seq<Seq<T>>,
    channels: nat,
    frames: nat,
    before: Seq<Seq<T>>,
) -> Seq<Seq<T>>
    decreases inputs.len(),
{
    if inputs.len() == 0 {
        before
    } else {
        spread(
            inputs.last(),
            channels,
            frames,
            spread_all(inputs.drop_last(), channels, frames, before),
        )
    }
}

/// Whatever input frames were spread over the buffers of a stream since they were made, however
/// many and however long, they have the shape they were made with.
pub proof fn law_buffers_keep_their_shape<T>(
    inputs: Seq<Seq<T>>,
    channels: nat,
    frames: nat,
    zero: T,
)
    ensures
        shaped(
            spread_all(inputs, channels, frames, silent_buffers(channels, frames, zero)),
            channels,
            frames,
        ),
    decreases inputs.len(),
{
    if inputs.len() > 0 {
        law_buffers_keep_their_shape(inputs.drop_last(), channels, frames, zero);
        law_spreading_keeps_the_shape(
            inputs.last(),
            channels,
            frames,
            spread_all(inputs.drop_last(), channels, frames, silent_buffers(channels, frames, zero)),
        );
    }
}

/// Whatever input frames arrived, empty and partial ones too, the frame that is sent holds ten
/// milliseconds of every channel, all within -1 and 1, for any samples that are put in place of
/// those in the buffers.
pub proof fn law_every_answer_is_full(
    sample_rate: nat,
    channels: nat,
    inputs: Seq<Seq<Single>>,
    zero: Single,
    processed: Seq<Seq<Single>>,
)
    requires
        channels > 0,
        ({
            let buffers = spread_all(
                inputs,
                channels,
                sample_rate / 100,
                silent_buffers(channels, sample_rate / 100, zero),
            );
            &&& processed.len() == buffers.len()
            &&& forall|ch: int|
                0 <= ch < buffers.len() ==> (#[trigger] processed[ch]).len() == buffers[ch].len()
        }),
    ensures
        sent(processed).len() == (sample_rate / 100) * channels,
        forall|i: int|
            0 <= i < sent(processed).len() ==> within_range(#[trigger] sent(processed)[i]),
{
    let frames = sample_rate / 100;
    let buffers = spread_all(inputs, channels, frames, silent_buffers(channels, frames, zero));
    law_buffers_keep_their_shape(inputs, channels, frames, zero);
    assert forall|ch: int| 0 <= ch < channels implies (#[trigger] processed[ch]).len() == frames by {
        assert(buffers[ch].len() == frames);
    }
    law_every_sent_frame_is_full(sample_rate, channels, processed);
}

/// The samples of channel buffers are all of theirs, buffer by buffer.
pub proof fn law_samples_are_those_of_the_buffers<T>(buffers: Seq<Vec<T>>, slices: Seq<&[T]>)
    ensures
        samples(buffers).len() == buffers.len(),
        forall|ch: int| 0 <= ch < buffers.len() ==> #[trigger] samples(buffers)[ch] == buffers[ch]@,
        slice_samples(slices).len() == slices.len(),
        forall|ch: int|
            0 <= ch < slices.len() ==> #[trigger] slice_samples(slices)[ch] == slices[ch]@,
{
}

/// The samples of a frame that is there are all of its samples, and only such a frame has any.
pub proof fn law_frame_samples_are_those_of_the_frame<T>(frame: Vec<T>)
    ensures
        frame_samples(Some(frame)) == Some(frame@),
        frame_samples(None::<Vec<T>>) is None,
{
}

proof fn lemma_whole_frames(frame: int, channels: int, len: int)
    requires
        0 <= frame,
        0 < channels,
        0 <= len,
    ensures
        frame < len / channels <==> (frame + 1) * channels <= len,
{
    let whole = len / channels;
    vstd::arithmetic::div_mod::lemma_fundamental_div_mod(len, channels);
    vstd::arithmetic::div_mod::lemma_mod_bound(len, channels);
    if frame < whole {
        assert((frame + 1) * channels <= channels * whole) by (nonlinear_arith)
            requires
                frame + 1 <= whole,
                0 < channels,
        ;
    } else {
        assert((frame + 1) * channels >= channels * whole + channels) by (nonlinear_arith)
            requires
                frame + 1 >= whole + 1,
                0 < channels,
        ;
    }
}

/// Spreading puts the sample of each channel in each whole frame that has a place, in its place, and
/// leaves everything else in the buffers as it was, whatever the lengths of frame and buffers are.
pub proof fn law_spreading_puts_every_sample_in_its_place<T>(
    interleaved: Seq<T>,
    channels: nat,
    frames: nat,
    before: Seq<Seq<T>>,
    ch: int,
    frame: int,
)
    requires
        channels > 0,
        0 <= ch < before.len(),
        0 <= frame < before[ch].len(),
    ensures
        spread(interleaved, channels, frames, before).len() == before.len(),
        spread(interleaved, channels, frames, before)[ch].len() == before[ch].len(),
        ch < channels && frame < frames && (frame + 1) * channels <= interleaved.len() ==> spread(
            interleaved,
            channels,
            frames,
            before,
        )[ch][frame] == interleaved[frame * channels + ch],
        ch >= channels || frame >= frames || (frame + 1) * channels > interleaved.len() ==> spread(
            interleaved,
            channels,
            frames,
            before,
        )[ch][frame] == before[ch][frame],
{
    lemma_whole_frames(frame, channels as int, interleaved.len() as int);
}

/// Weaving puts every sample of every channel in its place, channel beside channel and frame after
/// frame, and leaves what is beyond them as it was.
pub proof fn law_weaving_puts_every_sample_in_its_place<T>(
    channels_data: Seq<Seq<T>>,
    before: Seq<T>,
    ch: int,
    frame: int,
    beyond: int,
)
    requires
        channels_data[0].len() * channels_data.len() <= before.len(),
        0 <= ch < channels_data.len(),
        0 <= frame < channels_data[0].len(),
    ensures
        woven(channels_data, before).len() == before.len(),
        0 <= frame * channels_data.len() + ch < before.len(),
        woven(channels_data, before)[frame * channels_data.len() + ch] == channels_data[ch][frame],
        channels_data[0].len() * channels_data.len() <= beyond < before.len() ==> woven(
            channels_data,
            before,
        )[beyond] == before[beyond],
{
    let channels = channels_data.len() as int;
    lemma_sample_index(frame, ch, channels_data[0].len() as int, channels);
    lemma_sample_place(frame, ch, channels);
}

/// Clamping a frame changes no sample that is within -1 and 1 or not a number, makes 1 of what is
/// above and -1 of what is below, and keeps every sample in its place.
pub proof fn law_clamping_works_sample_by_sample(frame: Seq<Single>, i: int)
    requires
        0 <= i < frame.len(),
    ensures
        clamped_samples(frame).len() == frame.len(),
        (Single { bits: 0x3f80_0000 }).below(frame[i]) ==> clamped_samples(frame)[i] == (Single {
            bits: 0x3f80_0000,
        }),
        frame[i].below(Single { bits: 0xbf80_0000 }) ==> clamped_samples(frame)[i] == (Single {
            bits: 0xbf80_0000,
        }),
        !(Single { bits: 0x3f80_0000 }).below(frame[i]) && !frame[i].below(
            Single { bits: 0xbf80_0000 },
        ) ==> clamped_samples(frame)[i] == frame[i],
{
}

/// What is sent holds every sample of every channel in its place, channel beside channel and frame
/// after frame: unchanged if it is within -1 and 1 or not a number, and else as the limit that it is
/// beyond.
pub proof fn law_sent_frame_is_the_channels(channels_data: Seq<Seq<Single>>, ch: int, frame: int)
    requires
        0 <= ch < channels_data.len(),
        0 <= frame < channels_data[0].len(),
    ensures
        sent(channels_data).len() == channels_data[0].len() * channels_data.len(),
        ({
            let sample = channels_data[ch][frame];
            let place = frame * channels_data.len() + ch;
            &&& 0 <= place < sent(channels_data).len()
            &&& (Single { bits: 0x3f80_0000 }).below(sample) ==> sent(channels_data)[place] == (
            Single { bits: 0x3f80_0000 })
            &&& sample.below(Single { bits: 0xbf80_0000 }) ==> sent(channels_data)[place] == (
            Single { bits: 0xbf80_0000 })
            &&& !(Single { bits: 0x3f80_0000 }).below(sample) && !sample.below(
                Single { bits: 0xbf80_0000 },
            ) ==> sent(channels_data)[place] == sample
        }),
{
    let channels = channels_data.len() as int;
    lemma_sample_index(frame, ch, channels_data[0].len() as int, channels);
    lemma_sample_place(frame, ch, channels);
}

/// What is sent is the woven frame, clamped, whatever stood in the frame before.
pub proof fn law_sent_is_woven_and_clamped(channels_data: Seq<Seq<Single>>, before: Seq<Single>)
    requires
        channels_data.len() > 0,
        before.len() == channels_data[0].len() * channels_data.len(),
    ensures
        sent(channels_data) == clamped_samples(woven(channels_data, before)),
{
    assert(sent(channels_data) =~= clamped_samples(woven(channels_data, before)));
}

/// Spreading what was sent gives every channel back, clamped.
pub proof fn law_spreading_what_was_sent_gives_the_channels(
    channels_data: Seq<Seq<Single>>,
    frames: nat,
    buffers: Seq<Seq<Single>>,
)
    requires
        channels_data.len() > 0,
        shaped(channels_data, channels_data.len(), frames),
        shaped(buffers, channels_data.len(), frames),
    ensures
        spread(sent(channels_data), channels_data.len(), frames, buffers).len()
            == channels_data.len(),
        forall|ch: int|
            0 <= ch < channels_data.len() ==> #[trigger] spread(
                sent(channels_data),
                channels_data.len(),
                frames,
                buffers,
            )[ch] == clamped_samples(channels_data[ch]),
{
    let channels = channels_data.len() as int;
    let clamped = channels_data.map_values(|channel: Seq<Single>| clamped_samples(channel));
    let before = sent(channels_data);
    assert(clamped[0].len() == frames);
    assert forall|i: int| 0 <= i < before.len() implies woven(clamped, before)[i] == before[i] by {
        let ch = i % channels;
        let frame = i / channels;
        vstd::arithmetic::div_mod::lemma_fundamental_div_mod(i, channels);
        vstd::arithmetic::div_mod::lemma_mod_bound(i, channels);
        assert(0 <= frame < frames) by (nonlinear_arith)
            requires
                i == channels * frame + ch,
                0 <= ch < channels,
                0 <= i < frames * channels,
        ;
        assert(channels_data[ch].len() == frames);
        assert(clamped[ch] == clamped_samples(channels_data[ch]));
    }
    assert(woven(clamped, before) =~= before);
    law_spreading_undoes_weaving(clamped, frames, buffers, before);
}

/// A playback buffer gets the ready frame sample by sample as far as both go, and silence beyond it;
/// without a ready frame it gets silence only.
pub proof fn law_playback_is_the_frame_and_then_silence<T>(
    len: nat,
    frame: Seq<T>,
    zero: T,
    i: int,
)
    requires
        0 <= i < len,
    ensures
        played(len, Some(frame), zero).len() == len,
        i < frame.len() ==> played(len, Some(frame), zero)[i] == frame[i],
        i >= frame.len() ==> played(len, Some(frame), zero)[i] == zero,
        played(len, None, zero).len() == len,
        played(len, None, zero)[i] == zero,
{
}

/// A rendered frame that arrived is taken as it is; without one there is silence of the length that
/// was asked for.
pub proof fn law_missing_render_is_silence<T>(frame: Seq<T>, len: nat, zero: T)
    ensures
        rendered(Some(frame), len, zero) == frame,
        rendered(None, len, zero).len() == len,
        forall|i: int| 0 <= i < len ==> #[trigger] rendered(None, len, zero)[i] == zero,
{
}

/// New buffers hold silence only, for every channel the same length of it.
pub proof fn law_new_buffers_are_silent<T>(channels: nat, frames: nat, zero: T, ch: int, frame: int)
    requires
        0 <= ch < channels,
        0 <= frame < frames,
    ensures
        silent_buffers(channels, frames, zero).len() == channels,
        silent_buffers(channels, frames, zero)[ch].len() == frames,
        silent_buffers(channels, frames, zero)[ch][frame] == zero,
{
}

} // verus!
