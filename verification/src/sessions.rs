//! Reporting which programs use the virtual microphone.

use vstd::prelude::*;

use crate::devices::SessionState;
use crate::text::{
    align_left, align_right, decimal, decimal_text, holds, law_left_aligned_text_begins_the_column,
    law_right_aligned_text_ends_the_column, law_text_holds_its_parts, left_aligned, right_aligned,
};

verus! {

/// Name of the watched microphone.
pub const TARGET_MIC: &'static str = "CABLE Output (VB-Audio Virtual Cable)";

/// Milliseconds between two checks.
pub const POLL_INTERVAL_MS: u64 = 2000;

/// What was read of one audio session.
pub enum SessionReading {
    /// The session itself could not be read.
    Unreadable { error: String },
    /// Its state could not be read.
    StateUnreadable { error: String },
    /// The session's state, the process it belongs to, 0 if that is not known, and the name of
    /// the process if there is one.
    Read { state: SessionState, pid: u32, process: Option<String> },
}

/// A line of the report.
pub struct ReportLine {
    /// Whether the line is a warning.
    pub warning: bool,
    pub text: String,
}

/// The outcome of one check.
pub struct MicReport {
    /// How many sessions there are.
    pub heading: String,
    /// One line for each session.
    pub lines: Vec<ReportLine>,
    /// How many of them are active.
    pub active_sessions: usize,
    /// Whether the microphone is in use.
    pub in_use: bool,
}

impl SessionReading {
    /// Whether the session is active, as far as it could be read.
    pub open spec fn is_active(self) -> bool {
        self matches SessionReading::Read { state, .. } && state == SessionState::Active
    }

    /// Whether something of the session could not be read.
    pub open spec fn is_warning(self) -> bool {
        !(self is Read)
    }

    /// The line on the session at `index`.
    pub open spec fn line(self, index: nat) -> Seq<char> {
        match self {
            SessionReading::Unreadable { error } => "  [warn] Could not read session "@ + decimal(
                index,
            ) + ": "@ + error@,
            SessionReading::StateUnreadable { error } =>
                "  [warn] Could not read state for session "@ + decimal(index) + ": "@ + error@,
            SessionReading::Read { state, pid, process } => "  Session "@ + right_aligned(
                decimal(index),
                2,
            ) + ": ["@ + left_aligned(state_label(state), 8) + "] PID="@ + right_aligned(
                decimal(pid as nat),
                6,
            ) + "  ("@ + process_name(pid as nat, process) + ")"@,
        }
    }
}

/// A session state in words.
pub open spec fn state_label(state: SessionState) -> Seq<char> {
    match state {
        SessionState::Active => "ACTIVE \u{2713}"@,
        SessionState::Inactive => "inactive"@,
        SessionState::Expired => "expired"@,
    }
}

/// The name of a process, or what stands for it.
pub open spec fn process_name(pid: nat, process: Option<String>) -> Seq<char> {
    if pid == 0 {
        "<system/PID=0>"@
    } else {
        match process {
            Some(name) => name@,
            None => "<unknown PID "@ + decimal(pid) + ">"@,
        }
    }
}

/// The heading over the lines on `count` sessions.
pub open spec fn heading(count: nat) -> Seq<char> {
    "  Found "@ + decimal(count) + " session(s) total on '"@ + TARGET_MIC@ + "'"@
}

/// How many of the sessions are active.
pub open spec fn active_count(readings: Seq<SessionReading>) -> nat
    decreases readings.len(),
{
    if readings.len() == 0 {
        0
    } else {
        active_count(readings.drop_last()) + if readings.last().is_active() {
            1nat
        } else {
            0nat
        }
    }
}

fn state_text(state: SessionState) -> (r: &'static str)
    ensures
        r@ == state_label(state),
{
    match state {
        SessionState::Active => "ACTIVE \u{2713}",
        SessionState::Inactive => "inactive",
        SessionState::Expired => "expired",
    }
}

fn process_text(pid: u32, process: &Option<String>) -> (r: String)
    ensures
        r@ == process_name(pid as nat, *process),
{
    if pid == 0 {
        return "<system/PID=0>".to_owned();
    }
    match process {
        Some(name) => name.clone(),
        None => {
            let mut r = "<unknown PID ".to_owned();
            r.append(decimal_text(pid as u64).as_str());
            r.append(">");
            r
        },
    }
}

/// The line on the session at `index`.
pub fn describe_session(index: usize, reading: &SessionReading) -> (r: ReportLine)
    ensures
        r.warning == reading.is_warning(),
        r.text@ == reading.line(index as nat),
{
    let number = decimal_text(index as u64);
    match reading {
        SessionReading::Unreadable { error } => {
            let mut text = "  [warn] Could not read session ".to_owned();
            text.append(number.as_str());
            text.append(": ");
            text.append(error.as_str());
            ReportLine { warning: true, text }
        },
        SessionReading::StateUnreadable { error } => {
            let mut text = "  [warn] Could not read state for session ".to_owned();
            text.append(number.as_str());
            text.append(": ");
            text.append(error.as_str());
            ReportLine { warning: true, text }
        },
        SessionReading::Read { state, pid, process } => {
            let mut text = "  Session ".to_owned();
            text.append(align_right(number.as_str(), 2).as_str());
            text.append(": [");
            text.append(align_left(state_text(*state), 8).as_str());
            text.append("] PID=");
            text.append(align_right(decimal_text(*pid as u64).as_str(), 6).as_str());
            text.append("  (");
            text.append(process_text(*pid, process).as_str());
            text.append(")");
            ReportLine { warning: false, text }
        },
    }
}

/// Reports on the sessions of the watched microphone and finds out whether it is in use: whether
/// any of them is active.
pub fn check_mic_in_use(readings: &Vec<SessionReading>) -> (r: MicReport)
    ensures
        r.heading@ == "  Found "@ + decimal(readings@.len()) + " session(s) total on '"@
            + TARGET_MIC@ + "'"@,
        r.heading@ == heading(readings@.len()),
        r.lines@.len() == readings@.len(),
        forall|i: int|
            0 <= i < readings@.len() ==> (#[trigger] r.lines@[i]).text@ == readings@[i].line(
                i as nat,
            ) && r.lines@[i].warning == readings@[i].is_warning(),
        r.active_sessions == active_count(readings@),
        r.in_use == (r.active_sessions > 0),
{
    let len: usize = readings.len();
    let mut heading = "  Found ".to_owned();
    heading.append(decimal_text(len as u64).as_str());
    heading.append(" session(s) total on '");
    heading.append(TARGET_MIC);
    heading.append("'");
    let mut lines: Vec<ReportLine> = Vec::new();
    let mut active_sessions: usize = 0;
    let mut i: usize = 0;
    while i < len
        invariant
            len == readings@.len(),
            i <= len,
            lines@.len() == i,
            forall|k: int|
                0 <= k < i ==> (#[trigger] lines@[k]).text@ == readings@[k].line(k as nat)
                    && lines@[k].warning == readings@[k].is_warning(),
            active_sessions <= i,
            active_sessions == active_count(readings@.take(i as int)),
        decreases len - i,
    {
        lines.push(describe_session(i, &readings[i]));
        assert(readings@.take(i + 1).drop_last() =~= readings@.take(i as int));
        if let SessionReading::Read { state, .. } = &readings[i] {
            if *state == SessionState::Active {
                active_sessions = active_sessions + 1;
            }
        }
        i = i + 1;
    }
    assert(readings@.take(len as int) =~= readings@);
    MicReport { heading, lines, active_sessions, in_use: active_sessions > 0 }
}

/// What a check concludes.
pub open spec fn conclusion(in_use: bool) -> Seq<char> {
    if in_use {
        "\u{2192} Microphone IS in use (at least one ACTIVE session).\n"@
    } else {
        "\u{2192} Microphone is NOT in use (no active sessions).\n"@
    }
}

/// What a check concludes.
pub fn usage_text(in_use: bool) -> (r: &'static str)
    ensures
        r@ == if in_use {
            "\u{2192} Microphone IS in use (at least one ACTIVE session).\n"@
        } else {
            "\u{2192} Microphone is NOT in use (no active sessions).\n"@
        },
        r@ == conclusion(in_use),
{
    if in_use {
        "\u{2192} Microphone IS in use (at least one ACTIVE session).\n"
    } else {
        "\u{2192} Microphone is NOT in use (no active sessions).\n"
    }
}

/// The microphone counts as in use exactly if some session was read as active; sessions that
/// could not be read never make it so.
pub proof fn law_in_use_means_an_active_session(readings: Seq<SessionReading>)
    ensures
        active_count(readings) <= readings.len(),
        active_count(readings) > 0 <==> exists|i: int|
            0 <= i < readings.len() && (#[trigger] readings[i]).is_active(),
    decreases readings.len(),
{
    if readings.len() > 0 {
        let before = readings.drop_last();
        law_in_use_means_an_active_session(before);
        if active_count(before) > 0 {
            let i = choose|i: int| 0 <= i < before.len() && (#[trigger] before[i]).is_active();
            assert(readings[i].is_active());
        }
        if readings.last().is_active() {
            assert(readings[readings.len() - 1].is_active());
        }
        assert forall|i: int|
            0 <= i < readings.len() && (#[trigger] readings[i]).is_active() implies active_count(
            readings,
        ) > 0 by {
            if i < before.len() {
                assert(before[i].is_active());
            }
        }
    }
}

/// A session is active exactly if its state was read and is that; what could not be read is a
/// warning and never active.
pub proof fn law_session_counts_by_its_state(
    state: SessionState,
    pid: u32,
    process: Option<String>,
    error: String,
)
    ensures
        (SessionReading::Read { state, pid, process }).is_active() <==> state
            == SessionState::Active,
        !(SessionReading::Read { state, pid, process }).is_warning(),
        !(SessionReading::Unreadable { error }).is_active(),
        (SessionReading::Unreadable { error }).is_warning(),
        !(SessionReading::StateUnreadable { error }).is_active(),
        (SessionReading::StateUnreadable { error }).is_warning(),
{
}

/// Active sessions add up: those of two lists together are those of both, none are in no list, and
/// one more session is one more exactly if it is active.
pub proof fn law_active_sessions_add_up(
    first: Seq<SessionReading>,
    second: Seq<SessionReading>,
    reading: SessionReading,
)
    ensures
        active_count(first + second) == active_count(first) + active_count(second),
        active_count(Seq::empty()) == 0,
        active_count(seq![reading]) == if reading.is_active() {
            1nat
        } else {
            0nat
        },
    decreases second.len(),
{
    reveal_with_fuel(active_count, 2);
    assert(seq![reading].drop_last() =~= Seq::<SessionReading>::empty());
    if second.len() == 0 {
        assert(first + second =~= first);
    } else {
        law_active_sessions_add_up(first, second.drop_last(), reading);
        assert((first + second).drop_last() =~= first + second.drop_last());
        assert((first + second).last() == second.last());
    }
}

/// A process is shown by its name, if it has one; a process without one by its number, and number 0
/// as the system.
pub proof fn law_process_is_shown_by_name_or_number(pid: nat, name: String, process: Option<String>)
    ensures
        pid > 0 ==> process_name(pid, Some(name)) == name@,
        pid > 0 ==> holds(process_name(pid, None), decimal(pid)),
        process_name(0, process) == "<system/PID=0>"@,
{
    if pid > 0 {
        law_text_holds_its_parts("<unknown PID "@, decimal(pid), ">"@);
    }
}

/// The line on a session that was read shows its number, its state, its process and the number of
/// that.
pub proof fn law_line_shows_the_session(
    index: nat,
    state: SessionState,
    pid: u32,
    process: Option<String>,
)
    ensures
        ({
            let line = (SessionReading::Read { state, pid, process }).line(index);
            &&& holds(line, decimal(index))
            &&& holds(line, state_label(state))
            &&& holds(line, decimal(pid as nat))
            &&& holds(line, process_name(pid as nat, process))
        }),
{
    let line = (SessionReading::Read { state, pid, process }).line(index);
    let number = decimal(index);
    let label = state_label(state);
    let owner = decimal(pid as nat);
    let name = process_name(pid as nat, process);
    let a = "  Session "@ + right_aligned(number, 2).take(
        right_aligned(number, 2).len() - number.len(),
    );
    let b = ": ["@;
    let c = left_aligned(label, 8).skip(label.len() as int) + "] PID="@ + right_aligned(
        owner,
        6,
    ).take(right_aligned(owner, 6).len() - owner.len());
    let d = "  ("@;
    let e = ")"@;
    law_right_aligned_text_ends_the_column(number, 2);
    law_left_aligned_text_begins_the_column(label, 8);
    law_right_aligned_text_ends_the_column(owner, 6);
    law_text_holds_its_parts(a, number, b + label + c + owner + d + name + e);
    assert(a + number + (b + label + c + owner + d + name + e) =~= line);
    law_text_holds_its_parts(a + number + b, label, c + owner + d + name + e);
    assert(a + number + b + label + (c + owner + d + name + e) =~= line);
    law_text_holds_its_parts(a + number + b + label + c, owner, d + name + e);
    assert(a + number + b + label + c + owner + (d + name + e) =~= line);
    law_text_holds_its_parts(a + number + b + label + c + owner + d, name, e);
    assert(a + number + b + label + c + owner + d + name + e =~= line);
}

/// The line on a session of which something could not be read shows its number and the error.
pub proof fn law_warning_shows_the_error(index: nat, error: String)
    ensures
        holds((SessionReading::Unreadable { error }).line(index), decimal(index)),
        holds((SessionReading::Unreadable { error }).line(index), error@),
        holds((SessionReading::StateUnreadable { error }).line(index), decimal(index)),
        holds((SessionReading::StateUnreadable { error }).line(index), error@),
{
    let number = decimal(index);
    let none = Seq::<char>::empty();
    let read = "  [warn] Could not read session "@;
    let state = "  [warn] Could not read state for session "@;
    law_text_holds_its_parts(read, number, ": "@ + error@);
    assert(read + number + (": "@ + error@) =~= (SessionReading::Unreadable { error }).line(index));
    law_text_holds_its_parts(read + number + ": "@, error@, none);
    assert(read + number + ": "@ + error@ + none =~= (SessionReading::Unreadable { error }).line(
        index,
    ));
    law_text_holds_its_parts(state, number, ": "@ + error@);
    assert(state + number + (": "@ + error@) =~= (SessionReading::StateUnreadable { error }).line(
        index,
    ));
    law_text_holds_its_parts(state + number + ": "@, error@, none);
    assert(state + number + ": "@ + error@ + none =~= (SessionReading::StateUnreadable {
        error,
    }).line(index));
}

/// The states are told apart on screen.
pub proof fn law_states_have_their_labels(state: SessionState, other: SessionState)
    ensures
        state_label(SessionState::Active) == "ACTIVE \u{2713}"@,
        state_label(SessionState::Inactive) == "inactive"@,
        state_label(SessionState::Expired) == "expired"@,
        state != other ==> state_label(state) != state_label(other),
{
    reveal_strlit("ACTIVE \u{2713}");
    reveal_strlit("inactive");
    reveal_strlit("expired");
    assert("ACTIVE \u{2713}"@[0] == 'A');
    assert("inactive"@[0] == 'i');
    assert("expired"@[0] == 'e');
}

/// The heading shows how many sessions there are and of which microphone.
pub proof fn law_heading_shows_the_count(count: nat)
    ensures
        holds(heading(count), decimal(count)),
        holds(heading(count), "CABLE Output (VB-Audio Virtual Cable)"@),
{
    let found = "  Found "@;
    let total = " session(s) total on '"@;
    let mic = "CABLE Output (VB-Audio Virtual Cable)"@;
    law_text_holds_its_parts(found, decimal(count), total + mic + "'"@);
    assert(found + decimal(count) + (total + mic + "'"@) =~= heading(count));
    law_text_holds_its_parts(found + decimal(count) + total, mic, "'"@);
    assert(found + decimal(count) + total + mic + "'"@ =~= heading(count));
}

/// The conclusion tells a microphone in use from one that is not, and a check follows every two
/// seconds.
pub proof fn law_conclusion_tells_use_from_no_use()
    ensures
        conclusion(true) == "\u{2192} Microphone IS in use (at least one ACTIVE session).\n"@,
        conclusion(false) == "\u{2192} Microphone is NOT in use (no active sessions).\n"@,
        POLL_INTERVAL_MS == 2 * 1000,
{
}

} // verus!
