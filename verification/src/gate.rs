//! When the processing thread goes to sleep and what wakes it.

use vstd::prelude::*;

use crate::single::Single;

verus! {

/// Silent frames in a row after which the processing thread goes to sleep: 200 ms of frames of
/// 10 ms each.
pub const SLEEP_FRAMES: u32 = 20;

/// What the processing thread knows when it is done with a frame.
#[derive(Clone, Copy, PartialEq, Eq, Structural, Debug)]
pub struct FrameState {
    /// No program listens to the virtual microphone.
    pub no_consumers: bool,
    /// A calibration is asked for.
    pub triggered: bool,
    /// Level of the frame.
    pub level: Single,
    /// Level below which a frame is silent.
    pub threshold: Single,
}

impl FrameState {
    /// Whether the frame counts as silence: somebody listens, no calibration needs frames, and
    /// the level is below the threshold.
    pub open spec fn counts_as_silence(self) -> bool {
        !self.no_consumers && !self.triggered && self.level.below(self.threshold)
    }
}

/// What the processing thread does after a frame.
#[derive(Clone, Copy, PartialEq, Eq, Structural, Debug)]
pub enum Gate {
    /// Go on with the next frame.
    Run,
    /// Sleep because nobody listens.
    ParkForConsumer,
    /// Sleep because it has been silent for long enough.
    ParkForSound,
}

impl Gate {
    /// Whether the thread falls asleep.
    pub fn falls_asleep(self) -> (r: bool)
        ensures
            r == (self != Gate::Run),
    {
        match self {
            Gate::Run => false,
            Gate::ParkForConsumer => true,
            Gate::ParkForSound => true,
        }
    }

    /// Whether a parked thread stays parked, given the flags that it sees when it is woken.
    pub open spec fn remains(self, no_consumers: bool, sleeping: bool) -> bool {
        match self {
            Gate::Run => false,
            Gate::ParkForConsumer => no_consumers || sleeping,
            Gate::ParkForSound => sleeping,
        }
    }

    /// Whether a parked thread stays parked, given the flags that it sees when it is woken.
    pub fn stays_parked(self, no_consumers: bool, sleeping: bool) -> (r: bool)
        ensures
            r == self.remains(no_consumers, sleeping),
    {
        match self {
            Gate::Run => false,
            Gate::ParkForConsumer => no_consumers || sleeping,
            Gate::ParkForSound => sleeping,
        }
    }
}

/// The count of silent frames after a frame, and what the thread does, given the count before.
pub open spec fn gate_step(silent: nat, state: FrameState) -> (nat, Gate) {
    if state.no_consumers {
        (0, Gate::ParkForConsumer)
    } else if !state.counts_as_silence() {
        (0, Gate::Run)
    } else if silent + 1 < SLEEP_FRAMES {
        (silent + 1, Gate::Run)
    } else {
        (0, Gate::ParkForSound)
    }
}

/// Counts silent frames in a row.
#[derive(Clone, Copy, PartialEq, Eq, Structural, Debug)]
pub struct SilenceGate {
    pub silent_frames: u32,
}

impl SilenceGate {
    /// A full count puts the thread to sleep and starts again, so it is never kept.
    pub open spec fn wf(self) -> bool {
        self.silent_frames < SLEEP_FRAMES
    }

    /// No silent frame was seen yet.
    pub fn new() -> (r: Self)
        ensures
            r.wf(),
            r.silent_frames == 0,
    {
        SilenceGate { silent_frames: 0 }
    }

    /// Forgets the silent frames seen so far.
    pub fn reset(&mut self)
        ensures
            final(self).wf(),
            final(self).silent_frames == 0,
    {
        self.silent_frames = 0;
    }

    /// Decides what the thread does after a frame.
    pub fn decide(&mut self, state: FrameState) -> (r: Gate)
        requires
            old(self).wf(),
        ensures
            final(self).wf(),
            (final(self).silent_frames as nat, r) == gate_step(
                old(self).silent_frames as nat,
                state,
            ),
    {
        if state.no_consumers {
            self.silent_frames = 0;
            return Gate::ParkForConsumer;
        }
        if !state.triggered && state.level.is_below(state.threshold) {
            self.silent_frames = self.silent_frames + 1;
            if self.silent_frames >= SLEEP_FRAMES {
                self.silent_frames = 0;
                return Gate::ParkForSound;
            }
        } else {
            self.silent_frames = 0;
        }
        Gate::Run
    }
}

/// What is done to the processing thread to wake it.
#[derive(Clone, Copy, PartialEq, Eq, Structural, Debug)]
pub struct WakeUp {
    /// Whether the sleep flag is cleared.
    pub clear_sleeping: bool,
    /// Whether the thread is unparked, once the flags are stored.
    pub unpark: bool,
}

impl WakeUp {
    /// Whether a thread that parked for `gate` goes on: it is unparked, and the flags that it then
    /// sees do not keep it parked.
    pub open spec fn resumes(self, gate: Gate, no_consumers: bool, sleeping: bool) -> bool {
        self.unpark && !gate.remains(no_consumers, sleeping && !self.clear_sleeping)
    }
}

/// Whether an incoming frame wakes a sleeping processing thread.
pub open spec fn wakes(sleeping: bool, level: Single, threshold: Single) -> bool {
    sleeping && threshold.below(level)
}

/// Wakes the processing thread for an incoming frame: only one above the threshold does, and only
/// if the thread sleeps.
pub fn input_wakes(sleeping: bool, level: Single, threshold: Single) -> (r: WakeUp)
    ensures
        r.clear_sleeping == wakes(sleeping, level, threshold),
        r.unpark == wakes(sleeping, level, threshold),
{
    let awake = sleeping && threshold.is_below(level);
    WakeUp { clear_sleeping: awake, unpark: awake }
}

/// What the watcher does after it looked for programs that listen.
#[derive(Clone, Copy, PartialEq, Eq, Structural, Debug)]
pub struct WatchUpdate {
    /// Whether nobody listens.
    pub no_consumers: bool,
    /// Whether the sleep flag is cleared.
    pub clear_sleeping: bool,
    /// Whether the processing thread is unparked, once the flags are stored.
    pub unpark: bool,
}

/// What the watcher does: it records whether anybody listens, and wakes the processing thread when
/// somebody just began to.
pub open spec fn watched(was_empty: bool, consumers: bool) -> WatchUpdate {
    WatchUpdate {
        no_consumers: !consumers,
        clear_sleeping: was_empty && consumers,
        unpark: was_empty && consumers,
    }
}

/// Records whether anybody listens, and wakes the processing thread when somebody just began to.
pub fn watch_consumers(was_empty: bool, consumers: bool) -> (r: WatchUpdate)
    ensures
        r == watched(was_empty, consumers),
        r.no_consumers == !consumers,
        r.clear_sleeping == (was_empty && consumers),
        r.unpark == (was_empty && consumers),
{
    let begun = was_empty && consumers;
    WatchUpdate { no_consumers: !consumers, clear_sleeping: begun, unpark: begun }
}

/// The count of silent frames after `states`, from none.
pub open spec fn silence_count(states: Seq<FrameState>) -> nat
    decreases states.len(),
{
    if states.len() == 0 {
        0
    } else {
        gate_step(silence_count(states.drop_last()), states.last()).0
    }
}

/// The count is a count: as many of the last frames as it says were all silent.
pub proof fn law_count_is_of_the_last_frames(states: Seq<FrameState>)
    ensures
        silence_count(states) < SLEEP_FRAMES,
        silence_count(states) <= states.len(),
        forall|i: int|
            states.len() - silence_count(states) <= i < states.len() ==> (
            #[trigger] states[i]).counts_as_silence(),
    decreases states.len(),
{
    if states.len() > 0 {
        let before = states.drop_last();
        law_count_is_of_the_last_frames(before);
        assert forall|i: int|
            states.len() - silence_count(states) <= i < states.len() implies (
        #[trigger] states[i]).counts_as_silence() by {
            if i < states.len() - 1 {
                assert(states[i] == before[i]);
            }
        }
    }
}

/// The thread goes to sleep for silence only when the last `SLEEP_FRAMES` frames were all silent.
pub proof fn law_sleep_needs_silence(states: Seq<FrameState>, state: FrameState)
    requires
        gate_step(silence_count(states), state).1 == Gate::ParkForSound,
    ensures
        states.len() + 1 >= SLEEP_FRAMES,
        state.counts_as_silence(),
        forall|i: int|
            states.len() + 1 - SLEEP_FRAMES <= i < states.len() ==> (
            #[trigger] states[i]).counts_as_silence(),
{
    law_count_is_of_the_last_frames(states);
}

/// Silence is counted frame by frame.
proof fn lemma_silence_adds_up(states: Seq<FrameState>)
    requires
        states.len() < SLEEP_FRAMES,
        forall|i: int| 0 <= i < states.len() ==> (#[trigger] states[i]).counts_as_silence(),
    ensures
        silence_count(states) == states.len(),
    decreases states.len(),
{
    if states.len() > 0 {
        let before = states.drop_last();
        assert forall|i: int| 0 <= i < before.len() implies (
        #[trigger] before[i]).counts_as_silence() by {
            assert(before[i] == states[i]);
        }
        lemma_silence_adds_up(before);
    }
}

/// `SLEEP_FRAMES` silent frames from a count of none put the thread to sleep, and no fewer do.
pub proof fn law_silence_puts_to_sleep(states: Seq<FrameState>, state: FrameState)
    requires
        states.len() < SLEEP_FRAMES,
        forall|i: int| 0 <= i < states.len() ==> (#[trigger] states[i]).counts_as_silence(),
        state.counts_as_silence(),
    ensures
        gate_step(silence_count(states), state).1 == if states.len() + 1 == SLEEP_FRAMES {
            Gate::ParkForSound
        } else {
            Gate::Run
        },
{
    lemma_silence_adds_up(states);
}

/// While a calibration is asked for and somebody listens, the thread keeps running, and silence
/// is counted afresh afterwards.
pub proof fn law_calibration_keeps_awake(silent: nat, state: FrameState)
    requires
        state.triggered,
        !state.no_consumers,
    ensures
        gate_step(silent, state) == (0nat, Gate::Run),
{
}

/// Without consumers the thread sleeps at once, whatever else it knows.
pub proof fn law_no_consumers_sleep_at_once(silent: nat, state: FrameState)
    requires
        state.no_consumers,
    ensures
        gate_step(silent, state) == (0nat, Gate::ParkForConsumer),
{
}

/// A thread that falls asleep, or sees a sound, starts counting silence afresh.
pub proof fn law_count_starts_afresh(silent: nat, state: FrameState)
    ensures
        gate_step(silent, state).1 != Gate::Run ==> gate_step(silent, state).0 == 0,
        !state.counts_as_silence() ==> gate_step(silent, state).0 == 0,
{
}

/// A frame that counts as silence does not wake the thread: silent frames leave the sleeper
/// alone.
pub proof fn law_silence_never_wakes(state: FrameState, sleeping: bool)
    requires
        state.counts_as_silence(),
    ensures
        !wakes(sleeping, state.level, state.threshold),
{
}

/// A thread that fell asleep stays parked until the sleep flag is cleared, and one that sleeps
/// for want of consumers until somebody listens too.
pub proof fn law_only_a_cleared_flag_ends_sleep(gate: Gate, no_consumers: bool)
    requires
        gate != Gate::Run,
    ensures
        gate.remains(no_consumers, true),
        gate.remains(no_consumers, false) == (gate == Gate::ParkForConsumer && no_consumers),
{
}

/// When somebody just began to listen, the watcher's update makes a sleeping thread go on, whatever
/// it went to sleep for. Any other update leaves the sleep flag and the thread alone.
pub proof fn law_new_consumer_wakes(gate: Gate, was_empty: bool, consumers: bool, sleeping: bool)
    ensures
        ({
            let u = watched(was_empty, consumers);
            let wake_up = WakeUp { clear_sleeping: u.clear_sleeping, unpark: u.unpark };
            if was_empty && consumers {
                &&& !Gate::ParkForConsumer.remains(u.no_consumers, sleeping && !u.clear_sleeping)
                &&& wake_up.resumes(gate, u.no_consumers, sleeping)
            } else {
                !u.clear_sleeping && !u.unpark
            }
        }),
{
}

/// A sound above the threshold makes a thread go on that sleeps for silence, and one that sleeps
/// for want of consumers if somebody listens.
pub proof fn law_sound_wakes(gate: Gate, no_consumers: bool, level: Single, threshold: Single)
    requires
        threshold.below(level),
    ensures
        ({
            let awake = wakes(true, level, threshold);
            let wake_up = WakeUp { clear_sleeping: awake, unpark: awake };
            wake_up.resumes(gate, no_consumers, true) == (gate != Gate::ParkForConsumer
                || !no_consumers)
        }),
{
}

/// A frame counts as silence exactly if somebody listens, no calibration is asked for, and its level
/// is a number less than the threshold.
pub proof fn law_silence_is_below_the_threshold(state: FrameState)
    ensures
        state.counts_as_silence() ==> !state.no_consumers && !state.triggered && !state.level.is_nan()
            && !state.threshold.is_nan() && state.level.rank() < state.threshold.rank(),
        !state.counts_as_silence() ==> state.no_consumers || state.triggered
            || !state.level.below(state.threshold),
{
}

/// The thread sleeps for want of consumers exactly if nobody listens, and for silence only after a
/// silent frame; any other frame lets it run. Every silent frame counts as one.
pub proof fn law_each_frame_is_judged_for_itself(silent: nat, state: FrameState)
    requires
        silent < 20,
    ensures
        gate_step(silent, state).1 == Gate::ParkForConsumer <==> state.no_consumers,
        gate_step(silent, state).1 == Gate::ParkForSound <==> silent == 19
            && state.counts_as_silence(),
        silent < 19 && state.counts_as_silence() ==> gate_step(silent, state).0 == silent + 1,
        silent == 19 || !state.counts_as_silence() ==> gate_step(silent, state).0 == 0,
{
}

/// Twenty silent frames in a row, however loud it was before them, put the thread to sleep by the
/// last of them at the latest.
pub proof fn law_twenty_silent_frames_end_in_sleep(states: Seq<FrameState>, from: nat)
    requires
        from + 20 == states.len(),
        forall|i: int|
            from <= i < states.len() ==> (#[trigger] states[i]).counts_as_silence(),
    ensures
        exists|i: int|
            from <= i < states.len() && (#[trigger] gate_step(
                silence_count(states.take(i)),
                states[i],
            )).1 == Gate::ParkForSound,
{
    if forall|i: int|
        from <= i < states.len() ==> (#[trigger] gate_step(
            silence_count(states.take(i)),
            states[i],
        )).1 != Gate::ParkForSound {
        lemma_count_goes_on(states, from, 19);
        law_count_is_of_the_last_frames(states.take(from as int));
        let i = from as int + 19;
        assert(gate_step(silence_count(states.take(i)), states[i]).1 != Gate::ParkForSound);
    }
}

proof fn lemma_count_goes_on(states: Seq<FrameState>, from: nat, n: nat)
    requires
        from + n < states.len(),
        forall|i: int| from <= i < states.len() ==> (#[trigger] states[i]).counts_as_silence(),
        forall|i: int|
            from <= i < states.len() ==> (#[trigger] gate_step(
                silence_count(states.take(i)),
                states[i],
            )).1 != Gate::ParkForSound,
    ensures
        silence_count(states.take((from + n) as int)) >= n,
    decreases n,
{
    if n > 0 {
        lemma_count_goes_on(states, from, (n - 1) as nat);
        let i = from + n - 1;
        assert(states.take(i + 1).drop_last() =~= states.take(i));
        assert(states.take(i + 1).last() == states[i]);
        assert(states[i].counts_as_silence());
        assert(gate_step(silence_count(states.take(i)), states[i]).1 != Gate::ParkForSound);
    }
}

/// A sound wakes exactly a thread that sleeps, and only a sound louder than the threshold does: not
/// one of the same level, and not what is not a number.
pub proof fn law_only_sound_wakes_and_only_sleepers(level: Single, threshold: Single)
    ensures
        !wakes(false, level, threshold),
        wakes(true, level, threshold) <==> !level.is_nan() && !threshold.is_nan()
            && threshold.rank() < level.rank(),
        !wakes(true, threshold, threshold),
{
}

/// The watcher records what it saw, whatever was known before, and wakes the thread exactly when
/// somebody listens and nobody did before.
pub proof fn law_watcher_records_what_it_saw(was_empty: bool, consumers: bool)
    ensures
        watched(was_empty, consumers).no_consumers != consumers,
        watched(was_empty, consumers).unpark ==> was_empty && consumers,
        watched(true, true).unpark && watched(true, true).clear_sleeping,
        watched(was_empty, consumers).clear_sleeping == watched(was_empty, consumers).unpark,
{
}

/// A thread goes on after a wake-up only if it is unparked, and then exactly if the flags that are
/// left let it: those of a thread that does not sleep always do.
pub proof fn law_thread_resumes_by_its_flags(
    wake_up: WakeUp,
    gate: Gate,
    no_consumers: bool,
    sleeping: bool,
)
    ensures
        !wake_up.unpark ==> !wake_up.resumes(gate, no_consumers, sleeping),
        wake_up.unpark ==> wake_up.resumes(Gate::Run, no_consumers, sleeping),
        wake_up.unpark && gate != Gate::Run && sleeping && !wake_up.clear_sleeping
            ==> !wake_up.resumes(gate, no_consumers, sleeping),
        wake_up.unpark && (!sleeping || wake_up.clear_sleeping) ==> wake_up.resumes(
            gate,
            no_consumers,
            sleeping,
        ) == !(gate == Gate::ParkForConsumer && no_consumers),
{
}

} // verus!
