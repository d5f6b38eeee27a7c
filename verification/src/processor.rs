//! The processing thread: what it keeps between frames and the order of its work on one.

use vstd::prelude::*;

use crate::calibration::{observes, Calibration, CalibrationUpdate, CAL_FRAMES};
use crate::gate::{gate_step, FrameState, Gate, SilenceGate, SLEEP_FRAMES};
use crate::preset::AecPreset;
use crate::single::{Single, ZERO};

verus! {

/// What the processing thread keeps between frames.
pub struct Processor {
    /// The preset that the echo canceller was built for.
    pub preset: AecPreset,
    /// Silent frames seen in a row.
    pub gate: SilenceGate,
    /// The calibration under way.
    pub calibration: Calibration,
}

/// What is done before the work on a captured frame.
#[derive(Clone, Copy, PartialEq, Eq, Structural, Debug)]
pub struct FrameStart {
    /// Whether the sleep flag is cleared.
    pub clear_sleeping: bool,
    /// The preset that a new echo canceller is built for, if one is needed.
    pub rebuild: Option<AecPreset>,
}

/// The preset once `requested` was taken up.
pub open spec fn preset_taken(current: AecPreset, requested: Option<AecPreset>) -> AecPreset {
    match requested {
        Some(preset) => preset,
        None => current,
    }
}

/// The preset that a new echo canceller is built for when `requested` is taken up, if one is
/// needed.
pub open spec fn rebuild_needed(current: AecPreset, requested: Option<AecPreset>) -> Option<
    AecPreset,
> {
    if preset_taken(current, requested) != current {
        requested
    } else {
        None
    }
}

/// Whether a thread that is `before` takes up a captured frame by becoming `after` and doing what
/// `start` says.
pub open spec fn begins(
    before: Processor,
    sleeping: bool,
    requested: Option<AecPreset>,
    after: Processor,
    start: FrameStart,
) -> bool {
    &&& after.preset == preset_taken(before.preset, requested)
    &&& after.gate.silent_frames == if sleeping {
        0
    } else {
        before.gate.silent_frames
    }
    &&& after.calibration == before.calibration
    &&& start.clear_sleeping == sleeping
    &&& start.rebuild == rebuild_needed(before.preset, requested)
}

impl Processor {
    /// Both counters are within their limits.
    pub open spec fn wf(self) -> bool {
        self.gate.wf() && self.calibration.wf()
    }

    /// The processing thread before its first frame: the aggressive preset, nothing counted.
    pub fn new() -> (r: Self)
        ensures
            r.wf(),
            r.preset == AecPreset::Aggressive,
            r.gate.silent_frames == 0,
            r.calibration.count == 0,
            r.calibration.sum.bits == 0,
    {
        Processor {
            preset: AecPreset::Aggressive,
            gate: SilenceGate::new(),
            calibration: Calibration::new(),
        }
    }

    /// Takes up a captured frame: a thread that was asleep counts silence afresh, and a requested
    /// preset that differs from the current one asks for a new echo canceller.
    pub fn begin_frame(&mut self, sleeping: bool, requested: Option<AecPreset>) -> (r: FrameStart)
        requires
            old(self).wf(),
        ensures
            final(self).wf(),
            final(self).preset == preset_taken(old(self).preset, requested),
            final(self).gate.silent_frames == if sleeping {
                0
            } else {
                old(self).gate.silent_frames
            },
            final(self).calibration == old(self).calibration,
            r.clear_sleeping == sleeping,
            r.rebuild == rebuild_needed(old(self).preset, requested),
            begins(*old(self), sleeping, requested, *final(self), r),
    {
        if sleeping {
            self.gate.reset();
        }
        let rebuild: Option<AecPreset> = match requested {
            Some(preset) => {
                if preset != self.preset {
                    self.preset = preset;
                    Some(preset)
                } else {
                    None
                }
            },
            None => None,
        };
        FrameStart { clear_sleeping: sleeping, rebuild }
    }

    /// What decides on sleep: what this thread keeps, and what is stored where all threads see it.
    pub open spec fn vigil(self, triggered: bool, threshold: Single) -> Vigil {
        Vigil {
            triggered,
            threshold,
            calibration: self.calibration,
            silent: self.gate.silent_frames as nat,
        }
    }

    /// Is done with a captured frame of the given level: a calibration takes it into account, and
    /// whether to sleep is then decided by what is stored once the update is.
    ///
    /// `plus` adds two levels; `mean` divides a sum by a number of frames.
    pub fn end_frame<A: Fn(Single, Single) -> Single, M: Fn(Single, u32) -> Single>(
        &mut self,
        no_consumers: bool,
        triggered: bool,
        threshold: Single,
        level: Single,
        plus: A,
        mean: M,
    ) -> (r: (CalibrationUpdate, Gate))
        requires
            old(self).wf(),
            forall|x: Single, y: Single| #[trigger] call_requires(plus, (x, y)),
            forall|x: Single, n: u32| #[trigger] call_requires(mean, (x, n)),
        ensures
            final(self).wf(),
            final(self).preset == old(self).preset,
            watches(
                plus,
                mean,
                no_consumers,
                old(self).vigil(triggered, threshold),
                level,
                r.0,
                final(self).vigil(
                    triggered_once_stored(triggered, r.0),
                    threshold_once_stored(threshold, r.0),
                ),
                r.1,
            ),
            no_consumers ==> r.1 == Gate::ParkForConsumer && final(self).gate.silent_frames == 0,
    {
        let update = self.calibration.observe(triggered, level, plus, mean);
        let triggered = match update.triggered {
            Some(stored) => stored,
            None => triggered,
        };
        let threshold = match update.threshold {
            Some(stored) => stored,
            None => threshold,
        };
        let gate = self.gate.decide(FrameState { no_consumers, triggered, level, threshold });
        (update, gate)
    }
}

/// Whether a calibration is asked for, once an update is stored.
pub open spec fn triggered_once_stored(triggered: bool, update: CalibrationUpdate) -> bool {
    match update.triggered {
        Some(stored) => stored,
        None => triggered,
    }
}

/// The silence threshold, once an update is stored.
pub open spec fn threshold_once_stored(threshold: Single, update: CalibrationUpdate) -> Single {
    match update.threshold {
        Some(stored) => stored,
        None => threshold,
    }
}

/// The preset of an echo canceller that was built for `built` and is rebuilt when asked to.
pub open spec fn built_for(built: AecPreset, rebuild: Option<AecPreset>) -> AecPreset {
    match rebuild {
        Some(preset) => preset,
        None => built,
    }
}

/// An echo canceller that is rebuilt when a frame asks for it is always built for the current
/// preset, and it is rebuilt only when the preset changes.
pub proof fn law_canceller_follows_preset(current: AecPreset, requested: Option<AecPreset>)
    ensures
        built_for(current, rebuild_needed(current, requested)) == preset_taken(current, requested),
        rebuild_needed(current, requested) is Some <==> preset_taken(current, requested)
            != current,
{
}

/// What decides on sleep from one frame to the next.
pub struct Vigil {
    /// A calibration is asked for.
    pub triggered: bool,
    /// Level below which a frame is silent.
    pub threshold: Single,
    /// The calibration under way.
    pub calibration: Calibration,
    /// Silent frames seen in a row.
    pub silent: nat,
}

/// One frame of the given level while no other thread interferes: the calibration takes the level
/// into account, its update is stored, and whether to sleep is then decided by what is stored.
pub open spec fn watches<A: Fn(Single, Single) -> Single, M: Fn(Single, u32) -> Single>(
    plus: A,
    mean: M,
    no_consumers: bool,
    before: Vigil,
    level: Single,
    update: CalibrationUpdate,
    after: Vigil,
    gate: Gate,
) -> bool {
    &&& observes(
        plus,
        mean,
        before.calibration,
        before.triggered,
        level,
        after.calibration,
        update,
    )
    &&& after.triggered == triggered_once_stored(before.triggered, update)
    &&& after.threshold == threshold_once_stored(before.threshold, update)
    &&& (after.silent, gate) == gate_step(
        before.silent,
        FrameState {
            no_consumers,
            triggered: after.triggered,
            level,
            threshold: after.threshold,
        },
    )
}

/// Whether a thread that starts with a calibration asked for and nothing counted goes through
/// these states over frames of these levels, while somebody listens.
pub open spec fn keeps_watch<A: Fn(Single, Single) -> Single, M: Fn(Single, u32) -> Single>(
    plus: A,
    mean: M,
    levels: Seq<Single>,
    updates: Seq<CalibrationUpdate>,
    states: Seq<Vigil>,
    gates: Seq<Gate>,
) -> bool {
    &&& updates.len() == levels.len()
    &&& gates.len() == levels.len()
    &&& states.len() == levels.len() + 1
    &&& states[0].triggered
    &&& states[0].calibration == (Calibration { count: 0, sum: Single { bits: ZERO } })
    &&& states[0].silent == 0
    &&& forall|i: int|
        0 <= i < levels.len() ==> watches(
            plus,
            mean,
            false,
            states[i],
            levels[i],
            #[trigger] updates[i],
            states[i + 1],
            gates[i],
        )
}

proof fn lemma_watch<A: Fn(Single, Single) -> Single, M: Fn(Single, u32) -> Single>(
    plus: A,
    mean: M,
    levels: Seq<Single>,
    updates: Seq<CalibrationUpdate>,
    states: Seq<Vigil>,
    gates: Seq<Gate>,
    n: int,
)
    requires
        keeps_watch(plus, mean, levels, updates, states, gates),
        0 <= n <= levels.len(),
        n < CAL_FRAMES + SLEEP_FRAMES - 1,
    ensures
        n < CAL_FRAMES ==> states[n].triggered && states[n].calibration.count == n
            && states[n].silent == 0 && states[n].threshold == states[0].threshold,
        n >= CAL_FRAMES ==> !states[n].triggered && states[n].silent <= n - CAL_FRAMES + 1
            && states[n].threshold == states[CAL_FRAMES as int].threshold,
        forall|i: int| 0 <= i < n ==> #[trigger] gates[i] == Gate::Run,
    decreases n,
{
    if n > 0 {
        lemma_watch(plus, mean, levels, updates, states, gates, n - 1);
        assert(watches(
            plus,
            mean,
            false,
            states[n - 1],
            levels[n - 1],
            updates[n - 1],
            states[n],
            gates[n - 1],
        ));
    }
}

/// A thread that has just started, with somebody listening and nobody interfering, keeps its
/// threshold while the first calibration runs and the threshold that it found after that. It
/// does not go to sleep before the calibration is over and the frames since, the last of the
/// calibration included, could all have been silent.
pub proof fn law_no_sleep_before_the_first_calibration_is_over<
    A: Fn(Single, Single) -> Single,
    M: Fn(Single, u32) -> Single,
>(
    plus: A,
    mean: M,
    levels: Seq<Single>,
    updates: Seq<CalibrationUpdate>,
    states: Seq<Vigil>,
    gates: Seq<Gate>,
)
    requires
        keeps_watch(plus, mean, levels, updates, states, gates),
        levels.len() == CAL_FRAMES + SLEEP_FRAMES - 2,
    ensures
        forall|i: int| 0 <= i < levels.len() ==> #[trigger] gates[i] == Gate::Run,
        forall|i: int|
            0 <= i < CAL_FRAMES ==> (#[trigger] states[i]).triggered && states[i].threshold
                == states[0].threshold,
        forall|i: int|
            CAL_FRAMES <= i <= levels.len() ==> !(#[trigger] states[i]).triggered
                && states[i].threshold == states[CAL_FRAMES as int].threshold,
{
    lemma_watch(plus, mean, levels, updates, states, gates, levels.len() as int);
    assert forall|i: int| 0 <= i < CAL_FRAMES implies (#[trigger] states[i]).triggered
        && states[i].threshold == states[0].threshold by {
        lemma_watch(plus, mean, levels, updates, states, gates, i);
    }
    assert forall|i: int| CAL_FRAMES <= i <= levels.len() implies !(
    #[trigger] states[i]).triggered && states[i].threshold
        == states[CAL_FRAMES as int].threshold by {
        lemma_watch(plus, mean, levels, updates, states, gates, i);
    }
}

/// One piece of work on a frame.
#[derive(Clone, Copy, PartialEq, Eq, Structural, Debug)]
pub enum Stage {
    /// Spread the captured frame over the channels.
    SpreadCapture,
    /// Remove rumble from the captured channels.
    RemoveRumble,
    /// Load the captured channels into the capture buffer.
    LoadCapture,
    /// Let the canceller analyse the capture buffer, still in full band.
    AnalyzeCapture,
    /// Split the capture buffer into frequency bands.
    SplitCapture,
    /// High-pass filter the lowest band of the capture buffer.
    FilterLowBand,
    /// Spread the rendered frame, or silence, over the channels.
    SpreadRender,
    /// Load the rendered channels into the render buffer.
    LoadRender,
    /// Split the render buffer into frequency bands.
    SplitRender,
    /// Let the canceller analyse the render buffer.
    AnalyzeRender,
    /// Let the canceller remove the echo from the capture buffer.
    CancelEcho,
    /// Merge the frequency bands of the capture buffer.
    MergeCapture,
    /// Unload the capture buffer into the output channels.
    UnloadOutput,
    /// Weave the output channels into a frame whose samples are kept within range.
    FrameOutput,
    /// Report the canceller's metrics, if it is time to.
    ReportMetrics,
    /// Send the output frame.
    SendOutput,
    /// Measure and publish the level of the captured frame.
    MeasureLevel,
}

impl Stage {
    /// The stage's place in the work on a frame.
    pub open spec fn place(self) -> int {
        match self {
            Stage::SpreadCapture => 0,
            Stage::RemoveRumble => 1,
            Stage::LoadCapture => 2,
            Stage::AnalyzeCapture => 3,
            Stage::SplitCapture => 4,
            Stage::FilterLowBand => 5,
            Stage::SpreadRender => 6,
            Stage::LoadRender => 7,
            Stage::SplitRender => 8,
            Stage::AnalyzeRender => 9,
            Stage::CancelEcho => 10,
            Stage::MergeCapture => 11,
            Stage::UnloadOutput => 12,
            Stage::FrameOutput => 13,
            Stage::ReportMetrics => 14,
            Stage::SendOutput => 15,
            Stage::MeasureLevel => 16,
        }
    }

    /// The first stage.
    pub fn first() -> (r: Stage)
        ensures
            r.place() == 0,
    {
        Stage::SpreadCapture
    }

    /// The stage that follows, if this one is not the last.
    pub fn next(self) -> (r: Option<Stage>)
        ensures
            match r {
                Some(stage) => stage.place() == self.place() + 1,
                None => self == Stage::MeasureLevel,
            },
    {
        match self {
            Stage::SpreadCapture => Some(Stage::RemoveRumble),
            Stage::RemoveRumble => Some(Stage::LoadCapture),
            Stage::LoadCapture => Some(Stage::AnalyzeCapture),
            Stage::AnalyzeCapture => Some(Stage::SplitCapture),
            Stage::SplitCapture => Some(Stage::FilterLowBand),
            Stage::FilterLowBand => Some(Stage::SpreadRender),
            Stage::SpreadRender => Some(Stage::LoadRender),
            Stage::LoadRender => Some(Stage::SplitRender),
            Stage::SplitRender => Some(Stage::AnalyzeRender),
            Stage::AnalyzeRender => Some(Stage::CancelEcho),
            Stage::CancelEcho => Some(Stage::MergeCapture),
            Stage::MergeCapture => Some(Stage::UnloadOutput),
            Stage::UnloadOutput => Some(Stage::FrameOutput),
            Stage::FrameOutput => Some(Stage::ReportMetrics),
            Stage::ReportMetrics => Some(Stage::SendOutput),
            Stage::SendOutput => Some(Stage::MeasureLevel),
            Stage::MeasureLevel => None,
        }
    }
}

/// Whether `run` steps through the stages from the first to the last.
pub open spec fn runs_through(run: Seq<Stage>) -> bool {
    &&& run.len() > 0
    &&& run[0].place() == 0
    &&& forall|i: int|
        0 <= i && i + 1 < run.len() ==> run[i + 1].place() == (#[trigger] run[i]).place() + 1
    &&& run.last() == Stage::MeasureLevel
}

proof fn lemma_run_counts_up(run: Seq<Stage>, i: int)
    requires
        runs_through(run),
        0 <= i < run.len(),
    ensures
        run[i].place() == i,
    decreases i,
{
    if i > 0 {
        lemma_run_counts_up(run, i - 1);
        assert(run[i - 1 + 1].place() == run[i - 1].place() + 1);
    }
}

/// Stepping through the stages performs each of them exactly once, at its place.
pub proof fn law_every_stage_is_performed_once(run: Seq<Stage>, stage: Stage, i: int)
    requires
        runs_through(run),
    ensures
        0 <= stage.place() < run.len(),
        run[stage.place()] == stage,
        0 <= i < run.len() && run[i] == stage ==> i == stage.place(),
{
    lemma_run_counts_up(run, run.len() - 1);
    lemma_run_counts_up(run, stage.place());
    if 0 <= i < run.len() {
        lemma_run_counts_up(run, i);
    }
}

/// Stepping through the stages, echo is cancelled only after both signals were analysed and the
/// captured one was split and filtered, and only a merged and clamped signal is sent.
pub proof fn law_echo_is_cancelled_between_analysis_and_output(
    run: Seq<Stage>,
    cancel: int,
    send: int,
    i: int,
)
    requires
        runs_through(run),
        0 <= cancel < run.len(),
        run[cancel] == Stage::CancelEcho,
        0 <= send < run.len(),
        run[send] == Stage::SendOutput,
        0 <= i < run.len(),
    ensures
        run[i] == Stage::RemoveRumble || run[i] == Stage::AnalyzeCapture || run[i]
            == Stage::SplitCapture || run[i] == Stage::FilterLowBand || run[i]
            == Stage::SplitRender || run[i] == Stage::AnalyzeRender ==> i < cancel,
        run[i] == Stage::MergeCapture || run[i] == Stage::UnloadOutput || run[i]
            == Stage::FrameOutput ==> cancel < i < send,
{
    lemma_run_counts_up(run, cancel);
    lemma_run_counts_up(run, send);
    lemma_run_counts_up(run, i);
}

/// A frame that begins without a requested preset leaves the preset as it was and asks for no new
/// echo canceller.
pub proof fn law_preset_stays_unless_requested(current: AecPreset)
    ensures
        preset_taken(current, None) == current,
        rebuild_needed(current, None) is None,
{
}

/// A requested preset is in force from the frame on. A new echo canceller is asked for exactly if
/// that is another preset than before, and then for the preset that was requested.
pub proof fn law_requested_preset_is_taken(current: AecPreset, requested: AecPreset)
    ensures
        preset_taken(current, Some(requested)) == requested,
        requested == current ==> rebuild_needed(current, Some(requested)) is None,
        requested != current ==> rebuild_needed(current, Some(requested)) == Some(requested),
{
}

/// A new echo canceller is never asked for but for the preset that was requested, and never for the
/// one that is in force.
pub proof fn law_rebuild_is_for_the_requested_preset(
    current: AecPreset,
    requested: Option<AecPreset>,
    rebuilt: AecPreset,
)
    requires
        rebuild_needed(current, requested) == Some(rebuilt),
    ensures
        requested == Some(rebuilt),
        rebuilt != current,
{
}

/// An echo canceller that is not rebuilt stays what it is; a rebuilt one is what it is rebuilt for.
pub proof fn law_canceller_is_kept_or_rebuilt(built: AecPreset, preset: AecPreset)
    ensures
        built_for(built, None) == built,
        built_for(built, Some(preset)) == preset,
{
}

/// Beginning a frame touches neither the calibration nor, for a thread that was awake, the count of
/// silent frames; a thread that was asleep counts afresh, and its sleep flag is cleared.
pub proof fn law_beginning_a_frame_keeps_what_is_measured(
    before: Processor,
    sleeping: bool,
    requested: Option<AecPreset>,
    after: Processor,
    start: FrameStart,
)
    requires
        begins(before, sleeping, requested, after, start),
    ensures
        after.calibration == before.calibration,
        !sleeping ==> after.gate == before.gate && !start.clear_sleeping,
        sleeping ==> after.gate.silent_frames == 0 && start.clear_sleeping,
        requested is None ==> after.preset == before.preset && start.rebuild is None,
        requested matches Some(preset) ==> after.preset == preset,
        start.rebuild matches Some(preset) ==> requested == Some(preset) && preset != before.preset
            && after.preset == preset,
        start.rebuild is None ==> after.preset == before.preset,
{
}

/// Storing an update changes what it names, to what it says, and nothing else.
pub proof fn law_update_is_stored(triggered: bool, threshold: Single, update: CalibrationUpdate)
    ensures
        update.triggered is None ==> triggered_once_stored(triggered, update) == triggered,
        update.triggered is Some ==> update.triggered == Some(
            triggered_once_stored(triggered, update),
        ),
        update.threshold is None ==> threshold_once_stored(threshold, update) == threshold,
        update.threshold is Some ==> update.threshold == Some(
            threshold_once_stored(threshold, update),
        ),
{
}

/// A frame that is done with is judged by what is stored: with nobody listening the thread sleeps at
/// once. Otherwise a frame below the stored threshold counts as one more silent frame, unless a
/// calibration is still asked for, and the twentieth in a row puts the thread to sleep; any other
/// frame starts the count again.
pub proof fn law_frame_is_judged_by_what_is_stored<
    A: Fn(Single, Single) -> Single,
    M: Fn(Single, u32) -> Single,
>(
    plus: A,
    mean: M,
    no_consumers: bool,
    before: Vigil,
    level: Single,
    update: CalibrationUpdate,
    after: Vigil,
    gate: Gate,
)
    requires
        before.silent < 20,
        watches(plus, mean, no_consumers, before, level, update, after, gate),
    ensures
        observes(
            plus,
            mean,
            before.calibration,
            before.triggered,
            level,
            after.calibration,
            update,
        ),
        Some(after.triggered) == if update.triggered is Some {
            update.triggered
        } else {
            Some(before.triggered)
        },
        Some(after.threshold) == if update.threshold is Some {
            update.threshold
        } else {
            Some(before.threshold)
        },
        no_consumers <==> gate == Gate::ParkForConsumer,
        no_consumers ==> after.silent == 0,
        !no_consumers && !after.triggered && level.below(after.threshold) ==> {
            &&& before.silent < 19 ==> after.silent == before.silent + 1 && gate == Gate::Run
            &&& before.silent == 19 ==> after.silent == 0 && gate == Gate::ParkForSound
        },
        !no_consumers && (after.triggered || !level.below(after.threshold)) ==> after.silent == 0
            && gate == Gate::Run,
{
}

/// What decides on sleep is what the thread counts and what is stored.
pub proof fn law_vigil_is_what_is_counted_and_stored(
    processor: Processor,
    triggered: bool,
    threshold: Single,
)
    ensures
        processor.vigil(triggered, threshold).triggered == triggered,
        processor.vigil(triggered, threshold).threshold == threshold,
        processor.vigil(triggered, threshold).calibration == processor.calibration,
        processor.vigil(triggered, threshold).silent == processor.gate.silent_frames,
{
}

} // verus!
