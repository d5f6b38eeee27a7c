//! The user's side: keys and the latest metrics.

use vstd::prelude::*;

use crate::gate::{Gate, WakeUp};
use crate::preset::AecPreset;
use crate::processor::preset_taken;

verus! {

/// A key of the keyboard.
#[derive(Clone, Copy, PartialEq, Eq, Structural, Debug)]
pub enum Key {
    /// A key that stands for a character.
    Char(char),
    /// Any other key.
    Other,
}

/// What a key asks for.
#[derive(Clone, Copy, PartialEq, Eq, Structural, Debug)]
pub enum KeyAction {
    /// Nothing.
    Nothing,
    /// End the program.
    Quit,
    /// Send the processing thread this preset.
    SendPreset(AecPreset),
    /// Clear the sleep flag and unpark the processing thread.
    Wake,
    /// Ask for a calibration.
    Calibrate,
}

impl KeyAction {
    /// What is done to the processing thread to wake it: all of it for `Wake`, and nothing for any
    /// other action.
    pub open spec fn waking(self) -> WakeUp {
        WakeUp { clear_sleeping: self == KeyAction::Wake, unpark: self == KeyAction::Wake }
    }

    /// What is done to the processing thread to wake it.
    pub fn wake_up(self) -> (r: WakeUp)
        ensures
            r == self.waking(),
    {
        match self {
            KeyAction::Wake => WakeUp { clear_sleeping: true, unpark: true },
            _ => WakeUp { clear_sleeping: false, unpark: false },
        }
    }
}

/// What the user sees of the bridge.
pub struct Console {
    /// The preset that the user chose last.
    pub preset: AecPreset,
    /// The latest metrics of the echo canceller.
    pub metrics: String,
}

/// What a key asks for, given the current preset and whether a calibration is running.
pub open spec fn key_action(pressed: bool, key: Key, preset: AecPreset, calibrating: bool)
    -> KeyAction {
    if !pressed {
        KeyAction::Nothing
    } else if key == Key::Char('q') {
        KeyAction::Quit
    } else if key == Key::Char('s') {
        KeyAction::SendPreset(preset.successor())
    } else if key == Key::Char('w') {
        KeyAction::Wake
    } else if key == Key::Char('c') && !calibrating {
        KeyAction::Calibrate
    } else {
        KeyAction::Nothing
    }
}

/// The preset after an action.
pub open spec fn preset_after(preset: AecPreset, action: KeyAction) -> AecPreset {
    match action {
        KeyAction::SendPreset(chosen) => chosen,
        _ => preset,
    }
}

/// The last of the metrics that arrived, or those from before if none did.
pub open spec fn latest(before: Seq<char>, received: Seq<Seq<char>>) -> Seq<char> {
    if received.len() > 0 {
        received.last()
    } else {
        before
    }
}

impl Console {
    /// The console before anything happened.
    pub fn new() -> (r: Self)
        ensures
            r.preset == AecPreset::Aggressive,
            r.metrics@ == "Waiting for AEC metrics..."@,
    {
        Console {
            preset: AecPreset::Aggressive,
            metrics: "Waiting for AEC metrics...".to_owned(),
        }
    }

    /// Keeps the last of the metrics that arrived, if any did.
    pub fn receive_metrics(&mut self, received: Vec<String>)
        ensures
            final(self).preset == old(self).preset,
            final(self).metrics@ == if received@.len() > 0 {
                received@.last()@
            } else {
                old(self).metrics@
            },
            final(self).metrics@ == latest(
                old(self).metrics@,
                received@.map_values(|text: String| text@),
            ),
    {
        let len: usize = received.len();
        if len > 0 {
            self.metrics = received[len - 1].clone();
        }
    }

    /// Acts on a key: `q` quits, `s` takes the next preset, `w` wakes the processing thread and
    /// `c` calibrates unless a calibration is running. Only presses count.
    pub fn on_key(&mut self, pressed: bool, key: Key, calibrating: bool) -> (r: KeyAction)
        ensures
            r == key_action(pressed, key, old(self).preset, calibrating),
            final(self).preset == preset_after(old(self).preset, r),
            final(self).metrics == old(self).metrics,
    {
        if !pressed {
            return KeyAction::Nothing;
        }
        match key {
            Key::Char('q') => KeyAction::Quit,
            Key::Char('s') => {
                self.preset = self.preset.next();
                KeyAction::SendPreset(self.preset)
            },
            Key::Char('w') => KeyAction::Wake,
            Key::Char('c') => {
                if calibrating {
                    KeyAction::Nothing
                } else {
                    KeyAction::Calibrate
                }
            },
            _ => KeyAction::Nothing,
        }
    }
}

/// Only `s` changes the preset, and as many presses of it as there are presets bring back the
/// preset from before.
pub proof fn law_preset_key_cycles(preset: AecPreset, pressed: bool, key: Key, calibrating: bool)
    ensures
        preset_after(preset, key_action(pressed, key, preset, calibrating)) != preset ==> pressed
            && key == Key::Char('s'),
        ({
            let once = preset_after(preset, key_action(true, Key::Char('s'), preset, calibrating));
            let twice = preset_after(once, key_action(true, Key::Char('s'), once, calibrating));
            once != preset && twice == preset
        }),
{
}

/// A key and whether it was pressed.
pub struct KeyEvent {
    pub pressed: bool,
    pub key: Key,
    /// Whether a calibration was running then.
    pub calibrating: bool,
}

/// The preset after some keys.
pub open spec fn preset_after_keys(preset: AecPreset, events: Seq<KeyEvent>) -> AecPreset
    decreases events.len(),
{
    if events.len() == 0 {
        preset
    } else {
        let before = preset_after_keys(preset, events.drop_last());
        let event = events.last();
        preset_after(before, key_action(event.pressed, event.key, before, event.calibrating))
    }
}

/// The presets that are sent to the processing thread over some keys.
pub open spec fn presets_sent(preset: AecPreset, events: Seq<KeyEvent>) -> Seq<AecPreset>
    decreases events.len(),
{
    if events.len() == 0 {
        Seq::empty()
    } else {
        let before = preset_after_keys(preset, events.drop_last());
        let event = events.last();
        let sent = presets_sent(preset, events.drop_last());
        match key_action(event.pressed, event.key, before, event.calibrating) {
            KeyAction::SendPreset(chosen) => sent.push(chosen),
            _ => sent,
        }
    }
}

/// The preset of the processing thread once it took up the requests in turn.
pub open spec fn taken_up(preset: AecPreset, requests: Seq<AecPreset>) -> AecPreset
    decreases requests.len(),
{
    if requests.len() == 0 {
        preset
    } else {
        preset_taken(taken_up(preset, requests.drop_last()), Some(requests.last()))
    }
}

/// A processing thread that starts with the console's preset and takes up every preset it is
/// sent has the console's preset in the end, whatever keys were used.
pub proof fn law_processing_follows_the_console(preset: AecPreset, events: Seq<KeyEvent>)
    ensures
        taken_up(preset, presets_sent(preset, events)) == preset_after_keys(preset, events),
    decreases events.len(),
{
    if events.len() > 0 {
        law_processing_follows_the_console(preset, events.drop_last());
    }
}

/// While a calibration is running no key asks for another one.
pub proof fn law_no_second_calibration(pressed: bool, key: Key, preset: AecPreset)
    ensures
        key_action(pressed, key, preset, true) != KeyAction::Calibrate,
{
}

/// A press of `w` makes a thread go on that sleeps for silence, and one that sleeps for want of
/// consumers if somebody listens. Nothing but a press of `w` clears the sleep flag or unparks the
/// thread.
pub proof fn law_wake_key_wakes(
    pressed: bool,
    key: Key,
    preset: AecPreset,
    calibrating: bool,
    no_consumers: bool,
    sleeping: bool,
)
    ensures
        ({
            let waking = key_action(pressed, key, preset, calibrating).waking();
            if pressed && key == Key::Char('w') {
                &&& waking.resumes(Gate::ParkForSound, no_consumers, sleeping)
                &&& waking.resumes(Gate::ParkForConsumer, no_consumers, sleeping) == !no_consumers
            } else {
                !waking.clear_sleeping && !waking.unpark
            }
        }),
        !Gate::ParkForSound.remains(no_consumers, false),
{
}

/// Each key does one thing, only when pressed, and no other key does it.
pub proof fn law_each_key_does_one_thing(
    pressed: bool,
    key: Key,
    preset: AecPreset,
    calibrating: bool,
)
    ensures
        ({
            let action = key_action(pressed, key, preset, calibrating);
            &&& action == KeyAction::Quit <==> pressed && key == Key::Char('q')
            &&& action == KeyAction::Wake <==> pressed && key == Key::Char('w')
            &&& action == KeyAction::Calibrate <==> pressed && key == Key::Char('c') && !calibrating
            &&& action is SendPreset <==> pressed && key == Key::Char('s')
            &&& action matches KeyAction::SendPreset(chosen) ==> chosen != preset
        }),
{
}

/// The console's preset is the one that was last sent, and stays until another one is sent.
pub proof fn law_console_keeps_what_it_sent(preset: AecPreset, action: KeyAction)
    ensures
        action matches KeyAction::SendPreset(chosen) ==> preset_after(preset, action) == chosen,
        !(action is SendPreset) ==> preset_after(preset, action) == preset,
{
}

/// One more key changes the preset by what it asks for, and sends one more preset exactly if it asks
/// for one; no keys change and send nothing.
pub proof fn law_keys_act_in_turn(preset: AecPreset, events: Seq<KeyEvent>, event: KeyEvent)
    ensures
        preset_after_keys(preset, Seq::empty()) == preset,
        presets_sent(preset, Seq::empty()).len() == 0,
        ({
            let before = preset_after_keys(preset, events);
            let sent = presets_sent(preset, events);
            let more = events.push(event);
            if event.pressed && event.key == Key::Char('s') {
                &&& preset_after_keys(preset, more) != before
                &&& presets_sent(preset, more) == sent.push(preset_after_keys(preset, more))
            } else {
                &&& preset_after_keys(preset, more) == before
                &&& presets_sent(preset, more) == sent
            }
        }),
{
    let more = events.push(event);
    assert(more.drop_last() =~= events);
    assert(more.last() == event);
}

/// The metrics that arrived last are kept, whatever arrived before them; without any the metrics
/// stay.
pub proof fn law_latest_metrics_are_kept(
    before: Seq<char>,
    received: Seq<Seq<char>>,
    metrics: Seq<char>,
)
    ensures
        latest(before, received.push(metrics)) == metrics,
        latest(before, Seq::empty()) == before,
{
}

/// Only waking wakes.
pub proof fn law_only_waking_wakes(action: KeyAction)
    ensures
        action == KeyAction::Wake ==> action.waking().clear_sleeping && action.waking().unpark,
        action != KeyAction::Wake ==> !action.waking().clear_sleeping && !action.waking().unpark,
{
}

} // verus!
