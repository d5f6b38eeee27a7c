//! Choosing devices and finding out who listens to the virtual microphone.

use vstd::prelude::*;

use crate::text::{contains_text, holds};

verus! {

/// Name of the virtual speaker that the cleaned signal goes to.
pub const VIRTUAL_MIC: &'static str = "CABLE In 16 Ch (VB-Audio Virtual Cable)";

/// What the name of the capture side of the virtual cable holds.
pub const CABLE_OUTPUT: &'static str = "CABLE Output";

/// Whether `found` is the first of the devices that reported `name`, or nothing if there is none.
pub open spec fn finds(names: Seq<Option<String>>, name: Seq<char>, found: Option<usize>) -> bool {
    match found {
        Some(i) => {
            &&& i < names.len()
            &&& is_named(names[i as int], name)
            &&& forall|j: int| 0 <= j < i ==> !is_named(#[trigger] names[j], name)
        },
        None => forall|j: int| 0 <= j < names.len() ==> !is_named(#[trigger] names[j], name),
    }
}

/// Whether a device reported this name.
pub open spec fn is_named(reported: Option<String>, name: Seq<char>) -> bool {
    reported matches Some(text) && text@ == name
}

/// The first of the devices that reported `name`; a device whose name could not be read is none
/// of them.
pub fn find_device_by_name(names: &Vec<Option<String>>, name: &str) -> (r: Option<usize>)
    ensures
        match r {
            Some(i) => {
                &&& i < names@.len()
                &&& is_named(names@[i as int], name@)
                &&& forall|j: int| 0 <= j < i ==> !is_named(#[trigger] names@[j], name@)
            },
            None => forall|j: int|
                0 <= j < names@.len() ==> !is_named(#[trigger] names@[j], name@),
        },
        finds(names@, name@, r),
{
    let wanted: String = name.to_owned();
    let len: usize = names.len();
    let mut i: usize = 0;
    while i < len
        invariant
            len == names@.len(),
            i <= len,
            wanted@ == name@,
            forall|j: int| 0 <= j < i ==> !is_named(#[trigger] names@[j], name@),
        decreases len - i,
    {
        if let Some(reported) = &names[i] {
            if reported.eq(&wanted) {
                return Some(i);
            }
        }
        i = i + 1;
    }
    None
}

/// The name of a device on screen.
pub open spec fn label(name: Option<String>) -> Seq<char> {
    match name {
        Some(text) => text@,
        None => "Unknown"@,
    }
}

/// The name of a device on screen.
pub fn device_label(name: Option<String>) -> (r: String)
    ensures
        r@ == match name {
            Some(text) => text@,
            None => "Unknown"@,
        },
        r@ == label(name),
{
    match name {
        Some(text) => text,
        None => "Unknown".to_owned(),
    }
}

/// The state of an audio session.
#[derive(Clone, Copy, PartialEq, Eq, Structural, Debug)]
pub enum SessionState {
    Active,
    Inactive,
    Expired,
}

/// What was read of a capture device.
pub struct DeviceReading {
    /// Its name, if it could be read.
    pub name: Option<String>,
    /// The states of its sessions, each if it could be read, if the sessions could be listed.
    pub sessions: Option<Vec<Option<SessionState>>>,
}

/// Whether a device of this name is the capture side of the virtual cable.
pub fn is_cable_output(name: &str) -> (r: bool)
    ensures
        r == holds(name@, CABLE_OUTPUT@),
{
    contains_text(name, CABLE_OUTPUT)
}

/// Whether any of the sessions is active.
pub open spec fn any_active(sessions: Seq<Option<SessionState>>) -> bool {
    exists|j: int| 0 <= j < sessions.len() && #[trigger] sessions[j] == Some(SessionState::Active)
}

impl DeviceReading {
    /// Whether a program listens on this device: it is the capture side of the virtual cable and
    /// has an active session.
    pub open spec fn is_listened_to(self) -> bool {
        &&& self.name matches Some(name) && holds(name@, CABLE_OUTPUT@)
        &&& self.sessions matches Some(sessions) && any_active(sessions@)
    }
}

/// Whether a program listens on any of the devices.
pub open spec fn consumed(devices: Seq<DeviceReading>) -> bool {
    exists|i: int| 0 <= i < devices.len() && (#[trigger] devices[i]).is_listened_to()
}

fn has_active(sessions: &Vec<Option<SessionState>>) -> (r: bool)
    ensures
        r == any_active(sessions@),
{
    let len: usize = sessions.len();
    let mut j: usize = 0;
    while j < len
        invariant
            len == sessions@.len(),
            j <= len,
            forall|k: int| 0 <= k < j ==> #[trigger] sessions@[k] != Some(SessionState::Active),
        decreases len - j,
    {
        if let Some(state) = sessions[j] {
            if state == SessionState::Active {
                assert(sessions@[j as int] == Some(SessionState::Active));
                return true;
            }
        }
        j = j + 1;
    }
    false
}

/// Whether any program listens to the virtual microphone.
pub fn has_cable_output_consumers(devices: &Vec<DeviceReading>) -> (r: bool)
    ensures
        r == exists|i: int| 0 <= i < devices@.len() && (#[trigger] devices@[i]).is_listened_to(),
        r == consumed(devices@),
{
    let len: usize = devices.len();
    let mut i: usize = 0;
    while i < len
        invariant
            len == devices@.len(),
            i <= len,
            forall|k: int| 0 <= k < i ==> !(#[trigger] devices@[k]).is_listened_to(),
        decreases len - i,
    {
        if let Some(name) = &devices[i].name {
            if is_cable_output(name.as_str()) {
                if let Some(sessions) = &devices[i].sessions {
                    if has_active(sessions) {
                        assert(devices@[i as int].is_listened_to());
                        return true;
                    }
                }
            }
        }
        i = i + 1;
    }
    false
}

/// Devices that are not the capture side of the virtual cable, or whose name could not be read,
/// never count as listened to, whatever their sessions are.
pub proof fn law_other_devices_do_not_count(device: DeviceReading)
    requires
        match device.name {
            Some(name) => !holds(name@, CABLE_OUTPUT@),
            None => true,
        },
    ensures
        !device.is_listened_to(),
{
}

/// A device whose name holds "CABLE Output" and that has an active session, at whatever place among
/// however many, is listened to.
pub proof fn law_active_session_on_the_cable_counts(
    device: DeviceReading,
    name: String,
    sessions: Vec<Option<SessionState>>,
    j: int,
)
    requires
        device.name == Some(name),
        holds(name@, "CABLE Output"@),
        device.sessions == Some(sessions),
        0 <= j < sessions@.len(),
        sessions@[j] == Some(SessionState::Active),
    ensures
        device.is_listened_to(),
{
}

/// A device that is listened to has a name that holds "CABLE Output" and an active session.
pub proof fn law_listening_needs_an_active_session_on_the_cable(device: DeviceReading)
    requires
        device.is_listened_to(),
    ensures
        device.name is Some,
        holds(device.name->0@, "CABLE Output"@),
        device.sessions is Some,
        exists|j: int|
            0 <= j < device.sessions->0@.len() && #[trigger] device.sessions->0@[j] == Some(
                SessionState::Active,
            ),
{
}

/// Some program listens as soon as one device is listened to, wherever it stands in the list and
/// whatever the other devices are.
pub proof fn law_one_listener_is_enough(devices: Seq<DeviceReading>, i: int)
    requires
        0 <= i < devices.len(),
        devices[i].is_listened_to(),
    ensures
        consumed(devices),
{
}

/// Two lists of devices have a listener together exactly if one of them has; no devices have none,
/// and a single device has one exactly if it is listened to.
pub proof fn law_lists_of_devices_add_up(
    first: Seq<DeviceReading>,
    second: Seq<DeviceReading>,
    device: DeviceReading,
)
    ensures
        consumed(first + second) <==> consumed(first) || consumed(second),
        !consumed(Seq::empty()),
        consumed(seq![device]) <==> device.is_listened_to(),
{
    let all = first + second;
    assert forall|i: int| 0 <= i < first.len() && (#[trigger] first[i]).is_listened_to() implies consumed(
        all,
    ) by {
        assert(all[i].is_listened_to());
    }
    assert forall|i: int|
        0 <= i < second.len() && (#[trigger] second[i]).is_listened_to() implies consumed(all) by {
        assert(all[first.len() + i].is_listened_to());
    }
    if consumed(all) {
        let i = choose|i: int| 0 <= i < all.len() && (#[trigger] all[i]).is_listened_to();
        if i < first.len() {
            assert(first[i].is_listened_to());
        } else {
            assert(second[i - first.len()].is_listened_to());
        }
    }
    if device.is_listened_to() {
        assert(seq![device][0].is_listened_to());
    }
}

/// Two lists of sessions have an active one together exactly if one of them has; a session that
/// could not be read, or is not active, adds none.
pub proof fn law_lists_of_sessions_add_up(
    first: Seq<Option<SessionState>>,
    second: Seq<Option<SessionState>>,
    session: Option<SessionState>,
)
    ensures
        any_active(first + second) <==> any_active(first) || any_active(second),
        !any_active(Seq::empty()),
        any_active(seq![session]) <==> session == Some(SessionState::Active),
{
    let all = first + second;
    assert forall|j: int|
        0 <= j < first.len() && #[trigger] first[j] == Some(SessionState::Active) implies any_active(
        all,
    ) by {
        assert(all[j] == first[j]);
    }
    assert forall|j: int|
        0 <= j < second.len() && #[trigger] second[j] == Some(SessionState::Active) implies any_active(
        all,
    ) by {
        assert(all[first.len() + j] == second[j]);
    }
    if any_active(all) {
        let j = choose|j: int| 0 <= j < all.len() && #[trigger] all[j] == Some(SessionState::Active);
        if j < first.len() {
            assert(first[j] == all[j]);
        } else {
            assert(second[j - first.len()] == all[j]);
        }
    }
    if session == Some(SessionState::Active) {
        assert(seq![session][0] == session);
    }
}

/// A device has a name exactly if it reported that very name.
pub proof fn law_name_is_compared_as_a_whole(reported: Option<String>, name: Seq<char>)
    ensures
        reported is None ==> !is_named(reported, name),
        reported is Some ==> (is_named(reported, name) <==> reported->0@ == name),
{
}

/// A device that reported the name is found, whatever stands before and behind it, unless one before
/// it reported the same name; and only a device that reported the name is found.
pub proof fn law_first_device_of_the_name_is_found(
    names: Seq<Option<String>>,
    name: Seq<char>,
    found: Option<usize>,
    i: int,
)
    requires
        finds(names, name, found),
        0 <= i < names.len(),
        names[i] matches Some(reported) && reported@ == name,
    ensures
        found is Some,
        found->0 <= i,
        names[found->0 as int] is Some,
        names[found->0 as int]->0@ == name,
{
    assert(is_named(names[i], name));
}

/// The search has one outcome, and what follows in the list does not change a device that was found.
pub proof fn law_search_has_one_outcome(
    names: Seq<Option<String>>,
    more: Seq<Option<String>>,
    name: Seq<char>,
    found: Option<usize>,
    other: Option<usize>,
)
    requires
        finds(names, name, found),
        finds(names + more, name, other),
    ensures
        found is Some ==> other == found,
        more.len() == 0 ==> other == found,
{
    let all = names + more;
    if found is Some {
        let i = found->0 as int;
        assert(all[i] == names[i]);
        assert(is_named(all[i], name));
        if other is Some {
            let k = other->0 as int;
            if k < i {
                assert(names[k] == all[k]);
                assert(!is_named(names[k], name));
            }
        }
    }
    if more.len() == 0 {
        assert(all =~= names);
        if other is Some {
            assert(is_named(names[other->0 as int], name));
        }
    }
}

/// A device is shown by the name that it reported.
pub proof fn law_device_is_shown_by_its_name(name: String)
    ensures
        label(Some(name)) == name@,
        label(None) == "Unknown"@,
{
}

/// The cleaned signal goes to the 16-channel input of the virtual cable, and its listeners are looked
/// for at the output of that cable.
pub proof fn law_both_ends_are_of_the_virtual_cable()
    ensures
        VIRTUAL_MIC@ == "CABLE In 16 Ch (VB-Audio Virtual Cable)"@,
        CABLE_OUTPUT@ == "CABLE Output"@,
{
}

} // verus!
