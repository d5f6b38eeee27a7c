use rustdac::bridge::frames_per_buffer;
use rustdac::frames::{
    channel_buffers, channels_to_interleaved, clamp_frame, fill_output, interleaved_to_channels,
    output_frame, render_or_silence,
};
use rustdac::highpass::HighPass150;
use rustdac::level::frame_level;
use rustdac::single::Single;

#[test]
fn buffers_are_made_silent() {
    assert_eq!(channel_buffers(2, 3, 0.5f32), vec![vec![0.5; 3]; 2]);
    assert_eq!(channel_buffers(1, 0, 7), vec![Vec::<i32>::new()]);
    assert_eq!(channel_buffers(0, 3, 7), Vec::<Vec<i32>>::new());
}

#[test]
fn spreads_a_stereo_frame() {
    let mut out = vec![vec![0.0f32; 3], vec![0.0f32; 3]];
    interleaved_to_channels(&[1.0, 2.0, 3.0, 4.0, 5.0, 6.0], 2, 3, &mut out);
    assert_eq!(out, vec![vec![1.0, 3.0, 5.0], vec![2.0, 4.0, 6.0]]);
}

#[test]
fn short_frame_leaves_the_rest_of_the_buffers() {
    let mut out = vec![vec![9; 3], vec![9; 3]];
    interleaved_to_channels(&[1, 2, 3], 2, 3, &mut out);
    assert_eq!(out, vec![vec![1, 9, 9], vec![2, 9, 9]]);
    interleaved_to_channels(&[], 2, 3, &mut out);
    assert_eq!(out, vec![vec![1, 9, 9], vec![2, 9, 9]]);
}

#[test]
fn long_frame_is_cut_and_spare_buffers_stay() {
    let mut out = vec![vec![9; 2], vec![9; 4], vec![9; 2]];
    interleaved_to_channels(&[1, 2, 3, 4, 5, 6, 7, 8], 2, 2, &mut out);
    assert_eq!(out, vec![vec![1, 3], vec![2, 4, 9, 9], vec![9, 9]]);
}

#[test]
fn weaves_channels_and_keeps_the_rest() {
    let mut out = vec![0; 8];
    channels_to_interleaved(&[&[1, 2, 3][..], &[4, 5, 6, 7][..]], &mut out);
    assert_eq!(out, vec![1, 4, 2, 5, 3, 6, 0, 0]);
}

#[test]
fn weaving_and_spreading_undo_each_other() {
    let frame: Vec<u32> = (0..960).collect();
    let mut channels = vec![vec![0u32; 480]; 2];
    interleaved_to_channels(&frame, 2, 480, &mut channels);
    let mut back = vec![0u32; 960];
    channels_to_interleaved(&[channels[0].as_slice(), channels[1].as_slice()], &mut back);
    assert_eq!(back, frame);
    let mut again = vec![vec![7u32; 480]; 2];
    interleaved_to_channels(&back, 2, 480, &mut again);
    assert_eq!(again, channels);
}

#[test]
fn output_frame_is_woven_and_clamped() {
    let single = |x: f32| Single { bits: x.to_bits() };
    let left = [0.25f32, 1.5, -0.5].map(single);
    let right = [-2.0f32, 0.75, f32::NEG_INFINITY, 9.0].map(single);
    let frame: Vec<f32> =
        output_frame(&[&left[..], &right[..]]).iter().map(|s| f32::from_bits(s.bits)).collect();
    assert_eq!(frame, vec![0.25, -1.0, 1.0, 0.75, -0.5, -1.0]);
    let frame = output_frame(&[&[single(f32::NAN)][..]]);
    assert_eq!(frame.len(), 1);
    assert!(f32::from_bits(frame[0].bits).is_nan());
    let nothing: [Single; 0] = [];
    assert_eq!(output_frame(&[&nothing[..], &left[..]]).len(), 0);
}

#[test]
fn sent_frames_have_one_length() {
    let mut channels = channel_buffers(2, frames_per_buffer(48000), Single { bits: 0 });
    for len in [0, 1, 2, 77, 480, 959, 960, 961, 5000] {
        let input = vec![Single { bits: 3.0f32.to_bits() }; len];
        interleaved_to_channels(&input, 2, 480, &mut channels);
        let frame = output_frame(&[channels[0].as_slice(), channels[1].as_slice()]);
        assert_eq!(frame.len(), 960);
        assert!(frame.iter().all(|s| f32::from_bits(s.bits).abs() <= 1.0));
    }
}

#[test]
fn output_frame_is_clamped() {
    let samples = [0.5f32, -0.5, 1.5, -1.5, f32::INFINITY, f32::NAN];
    let mut frame: Vec<Single> = samples.iter().map(|s| Single { bits: s.to_bits() }).collect();
    clamp_frame(&mut frame);
    let clamped: Vec<f32> = frame.iter().map(|s| f32::from_bits(s.bits)).collect();
    assert_eq!(&clamped[..5], &[0.5, -0.5, 1.0, -1.0, 1.0]);
    assert!(clamped[5].is_nan());
    let once = frame.clone();
    clamp_frame(&mut frame);
    assert_eq!(frame, once);
}

#[test]
fn playback_is_filled_with_the_frame_and_silence() {
    let mut out = vec![9.0f32; 4];
    fill_output(&mut out, Some(vec![0.1, 0.2]), 0.0);
    assert_eq!(out, vec![0.1, 0.2, 0.0, 0.0]);
    fill_output(&mut out, Some(vec![1.0, 2.0, 3.0, 4.0, 5.0]), 0.0);
    assert_eq!(out, vec![1.0, 2.0, 3.0, 4.0]);
    fill_output(&mut out, None, 0.0);
    assert_eq!(out, vec![0.0; 4]);
}

#[test]
fn missing_render_frame_is_silence() {
    assert_eq!(render_or_silence(None, 3, 0.0f32), vec![0.0; 3]);
    assert_eq!(render_or_silence(Some(vec![1.0f32]), 3, 0.0), vec![1.0]);
}

fn step(alpha: f32, py: f32, x: f32, px: f32) -> f32 {
    alpha * (py + x - px)
}

#[test]
fn high_pass_follows_its_recurrence() {
    let mut filter = HighPass150::new(0.5f32, 0.0, 2);
    let mut data = vec![vec![1.0, 1.0, 3.0], vec![2.0, 0.0]];
    filter.process(&mut data, step);
    assert_eq!(data, vec![vec![0.5, 0.25, 1.125], vec![1.0, -0.5]]);
    assert_eq!(filter.prev_x, vec![3.0, 0.0]);
    assert_eq!(filter.prev_y, vec![1.125, -0.5]);
}

#[test]
fn high_pass_goes_on_across_frames() {
    let signal: Vec<f32> = (0..100).map(|i| ((i * 37) % 11) as f32 - 5.0).collect();
    let mut whole = vec![signal.clone()];
    let mut other = HighPass150::new(0.98f32, 0.0, 1);
    other.process(&mut whole, step);
    let mut filter = HighPass150::new(0.98f32, 0.0, 1);
    let mut first = vec![signal[..40].to_vec()];
    let mut second = vec![signal[40..].to_vec()];
    filter.process(&mut first, step);
    filter.process(&mut second, step);
    first[0].extend_from_slice(&second[0]);
    assert_eq!(first, whole);
    assert_eq!(filter.prev_x, other.prev_x);
    assert_eq!(filter.prev_y, other.prev_y);
    assert_eq!(filter.alpha, other.alpha);
}

#[test]
fn high_pass_leaves_unused_channels_alone() {
    let mut filter = HighPass150::new(0.5f32, 0.25, 3);
    let mut data = vec![vec![1.0], vec![]];
    filter.process(&mut data, step);
    assert_eq!(filter.prev_x, vec![1.0, 0.25, 0.25]);
    assert_eq!(filter.prev_y, vec![0.5, 0.25, 0.25]);
    assert_eq!(data[1].len(), 0);
}

fn level(frame: &[f32]) -> f32 {
    let single = |x: f32| Single { bits: x.to_bits() };
    let level = frame_level(
        frame,
        single(0.0),
        |sum: Single, x: f32| single(f32::from_bits(sum.bits) + x * x),
        |sum: Single, n: usize| single((f32::from_bits(sum.bits) / n as f32).sqrt()),
    );
    f32::from_bits(level.bits)
}

#[test]
fn level_is_the_root_mean_square() {
    assert_eq!(level(&[3.0, 4.0, 0.0, 0.0]), 2.5);
    assert_eq!(level(&[-0.5; 960]), 0.5);
    assert_eq!(level(&[]), 0.0);
    assert!(level(&[f32::NAN, 0.0]).is_nan());
}
