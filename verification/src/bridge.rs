//! The life of the bridge: its streams, what its threads share at the start, and how a run ends.

use vstd::prelude::*;

use crate::single::{last_bit, lemma_units, units, units_of_one, Single, ZERO};

verus! {

/// Samples per second of every stream.
pub const SAMPLE_RATE_HZ: usize = 48_000;

/// Channels of every stream.
pub const CHANNELS: usize = 2;

/// Bit pattern of 0.02, the silence threshold until the first calibration is over.
pub const DEFAULT_THRESHOLD: u32 = 0x3ca3_d70a;

/// Milliseconds between two reports of the canceller's metrics.
pub const METRICS_INTERVAL_MS: u64 = 100;

/// Milliseconds between two looks at the processor load.
pub const LOAD_INTERVAL_MS: u64 = 500;

/// Frames in a buffer of ten milliseconds.
pub open spec fn buffer_frames(sample_rate: nat) -> nat {
    sample_rate / 100
}

/// Frames in a buffer of ten milliseconds.
pub fn frames_per_buffer(sample_rate: usize) -> (r: usize)
    ensures
        r == sample_rate / 100,
        r == buffer_frames(sample_rate as nat),
{
    sample_rate / 100
}

/// What the threads share.
#[derive(Clone, Copy, PartialEq, Eq, Structural, Debug)]
pub struct SharedState {
    /// The processing thread sleeps.
    pub sleeping: bool,
    /// Nobody listens to the virtual microphone.
    pub no_consumers: bool,
    /// Level below which a frame is silent.
    pub threshold: Single,
    /// Level of the latest frame.
    pub level: Single,
    /// A calibration is asked for.
    pub triggered: bool,
    /// A calibration is running.
    pub calibrating: bool,
}

/// What the threads share at the start: nobody is known to listen, and a calibration runs first.
pub open spec fn at_start() -> SharedState {
    SharedState {
        sleeping: false,
        no_consumers: true,
        threshold: Single { bits: DEFAULT_THRESHOLD },
        level: Single { bits: ZERO },
        triggered: true,
        calibrating: false,
    }
}

/// What the threads share at the start: nobody is known to listen, and a calibration runs first.
pub fn startup() -> (r: SharedState)
    ensures
        r == (SharedState {
            sleeping: false,
            no_consumers: true,
            threshold: Single { bits: DEFAULT_THRESHOLD },
            level: Single { bits: ZERO },
            triggered: true,
            calibrating: false,
        }),
        r == at_start(),
{
    SharedState {
        sleeping: false,
        no_consumers: true,
        threshold: Single { bits: DEFAULT_THRESHOLD },
        level: Single { bits: ZERO },
        triggered: true,
        calibrating: false,
    }
}

/// Whether `elapsed_nanos` nanoseconds reach an interval of `interval_ms` milliseconds.
pub open spec fn due(elapsed_nanos: nat, interval_ms: nat) -> bool {
    elapsed_nanos >= interval_ms * 1_000_000
}

/// Whether `elapsed_nanos` nanoseconds reach an interval of `interval_ms` milliseconds.
pub fn is_due(elapsed_nanos: u128, interval_ms: u64) -> (r: bool)
    ensures
        r == (elapsed_nanos >= interval_ms * 1_000_000),
        r == due(elapsed_nanos as nat, interval_ms as nat),
{
    elapsed_nanos >= interval_ms as u128 * 1_000_000
}

/// How a run of the bridge ended.
#[derive(Clone, Copy, PartialEq, Eq, Structural, Debug)]
pub enum RunEnd {
    /// A device that the bridge needs is not there.
    DeviceMissing,
    /// A stream reported an error.
    StreamError,
    /// The user quit.
    Quit,
    /// Something else went wrong.
    Failed,
}

/// What the program does after a run.
#[derive(Clone, Copy, PartialEq, Eq, Structural, Debug)]
pub enum NextStep {
    /// Run again in a second because the devices changed.
    Restart,
    /// Run again in a second after a failure.
    RestartAfterFailure,
    /// Exit.
    Exit,
}

/// What the program does after a run.
pub open spec fn next_step(end: RunEnd) -> NextStep {
    match end {
        RunEnd::DeviceMissing => NextStep::Restart,
        RunEnd::StreamError => NextStep::Restart,
        RunEnd::Quit => NextStep::Exit,
        RunEnd::Failed => NextStep::RestartAfterFailure,
    }
}

/// What the program does after a run: it ends only when the user quit.
pub fn after_run(end: RunEnd) -> (r: NextStep)
    ensures
        r == match end {
            RunEnd::DeviceMissing => NextStep::Restart,
            RunEnd::StreamError => NextStep::Restart,
            RunEnd::Quit => NextStep::Exit,
            RunEnd::Failed => NextStep::RestartAfterFailure,
        },
        r == next_step(end),
{
    match end {
        RunEnd::DeviceMissing => NextStep::Restart,
        RunEnd::StreamError => NextStep::Restart,
        RunEnd::Quit => NextStep::Exit,
        RunEnd::Failed => NextStep::RestartAfterFailure,
    }
}

/// A hundred buffers hold no more than a second, and lack less than one frame each to be a second.
pub proof fn law_hundred_buffers_are_a_second(sample_rate: nat)
    ensures
        buffer_frames(sample_rate) * 100 <= sample_rate,
        sample_rate < (buffer_frames(sample_rate) + 1) * 100,
{
}

/// An interval is over from the moment on that it has lasted, and stays over.
pub proof fn law_interval_is_over_once_it_lasted(interval_ms: nat, elapsed_nanos: nat, later: nat)
    requires
        elapsed_nanos <= later,
    ensures
        due(interval_ms * 1_000_000, interval_ms),
        due(elapsed_nanos, interval_ms) ==> due(later, interval_ms),
        later < interval_ms * 1_000_000 ==> !due(later, interval_ms),
{
}

/// The program ends exactly if the user quit; after anything else it runs again, and it tells a
/// failure from devices that changed.
pub proof fn law_only_the_user_ends_the_program(end: RunEnd)
    ensures
        next_step(end) == NextStep::Exit <==> end == RunEnd::Quit,
        next_step(end) == NextStep::RestartAfterFailure <==> end == RunEnd::Failed,
{
}

/// Until the first calibration is over the threshold is 0.02, to within half of what the last bit of
/// it counts.
pub proof fn law_default_threshold_is_a_fiftieth()
    ensures
        units(Single { bits: DEFAULT_THRESHOLD }) * 50 - units_of_one() <= 25 * last_bit(121),
        units_of_one() - units(Single { bits: DEFAULT_THRESHOLD }) * 50 <= 25 * last_bit(121),
{
    vstd::arithmetic::power2::lemma2_to64();
    lemma_units(Single { bits: DEFAULT_THRESHOLD }, 121, 0x23_d70a, 0x2000_0000);
    assert(last_bit(121) > 0);
    assert(units(Single { bits: DEFAULT_THRESHOLD }) == 10_737_418 * last_bit(121));
    assert(units_of_one() == 536_870_912 * last_bit(121));
}

/// The bridge starts awake, with nobody known to listen and a calibration asked for that is not
/// running yet; no level was measured, so the first frames are judged by the threshold from before
/// any calibration.
pub proof fn law_bridge_starts_with_a_calibration()
    ensures
        !at_start().sleeping,
        at_start().no_consumers,
        at_start().triggered,
        !at_start().calibrating,
        units(at_start().level) == 0,
        at_start().threshold.bits == DEFAULT_THRESHOLD,
        at_start().level.below(at_start().threshold),
{
}

/// A stream has 48000 samples of both of its channels in a second, 480 of each in a buffer. Ten times
/// in a second metrics are reported, and twice the load is looked at.
pub proof fn law_streams_and_reports_keep_their_pace()
    ensures
        buffer_frames(SAMPLE_RATE_HZ as nat) == 480,
        SAMPLE_RATE_HZ == 100 * 480,
        CHANNELS == 2,
        METRICS_INTERVAL_MS * 10 == 1000,
        LOAD_INTERVAL_MS * 2 == 1000,
{
}

} // verus!
