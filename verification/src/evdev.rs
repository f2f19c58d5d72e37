//! The keyboards that are listened to, and what the device layer reports.

use crate::config::command::form::same;
use crate::errors::{Failure, LeftError};
use crate::text::chars_of;
use vstd::prelude::*;

verus! {

/// The name that the daemon gives to its own output device.
pub const VIRTUAL_DEVICE_NAME: &'static str = "LeftHK Virtual Keyboard";

/// What the key of an event is.
#[derive(Debug, Clone, Copy, PartialEq, Eq, Structural)]
pub enum KeyCode {
    /// A modifier, by the code of the modifier.
    Modifier(u32),
    /// Any other key, by its code.
    Key(u32),
}

/// What the tracker reads of an input event: its value (0 for a release,
/// 1 for a press, 2 for a repeat) and its key, if it is about a key.
#[derive(Debug, Clone, Copy, PartialEq, Eq, Structural)]
pub struct KeyEvent {
    pub value: i32,
    pub code: Option<KeyCode>,
}

/// What the device layer hands to the worker.
#[derive(Debug)]
pub enum Task {
    /// An event, and the path of the keyboard it came from.
    KeyboardEvent((String, KeyEvent)),
    KeyboardAdded(String),
    KeyboardRemoved(String),
}

/// What the device manager says has happened to a device.
#[derive(Debug, Clone, Copy, PartialEq, Eq, Structural)]
pub enum Change {
    Add,
    Remove,
    Other,
}

/// What the device manager knows of a device.
#[derive(Debug)]
pub struct Properties {
    pub name: Option<String>,
    pub id_input_keyboard: Option<String>,
    pub id_input_mouse: Option<String>,
    pub devname: Option<String>,
}

/// A property's value, or `default` where the device has none.
pub open spec fn value_or(property: Option<String>, default: Seq<char>) -> Seq<char> {
    match property {
        Some(v) => v@,
        None => default,
    }
}

/// A device is a keyboard when it is marked as one and not marked as a mouse.
pub open spec fn keyboard_class(p: Properties) -> bool {
    value_or(p.id_input_keyboard, "0"@) == "1"@ && value_or(p.id_input_mouse, "0"@) == "0"@
}

/// Whether `needle` stands somewhere in `hay`.
pub open spec fn holds(hay: Seq<char>, needle: Seq<char>) -> bool {
    exists|i: int| 0 <= i <= hay.len() - needle.len() && #[trigger] hay.subrange(
        i,
        i + needle.len(),
    ) == needle
}

/// Whether the device is the daemon's own output device, going by its name.
pub open spec fn own_device(p: Properties) -> bool {
    holds(value_or(p.name, Seq::empty()), "LeftHK"@)
}

/// What a change of a device means to the worker: a keyboard that is not the
/// daemon's own and has a path was added or removed; anything else is
/// nothing.
pub open spec fn task_of(p: Properties, change: Change) -> Option<Seq<char>> {
    if own_device(p) || !keyboard_class(p) || value_or(p.devname, Seq::empty()).len() == 0
        || change == Change::Other {
        None
    } else {
        Some(value_or(p.devname, Seq::empty()))
    }
}

fn contains(hay: &str, needle: &str) -> (r: bool)
    ensures
        r == holds(hay@, needle@),
{
    let h = chars_of(hay);
    let n = chars_of(needle);
    if n.len() > h.len() {
        return false;
    }
    let mut i: usize = 0;
    while i <= h.len() - n.len()
        invariant
            n.len() <= h.len(),
            i <= h.len() - n.len() + 1,
            h@ == hay@,
            n@ == needle@,
            forall|k: int| 0 <= k < i ==> #[trigger] h@.subrange(k, k + n.len()) != n@,
        decreases h.len() - n.len() + 1 - i,
    {
        let mut j: usize = 0;
        while j < n.len() && h[i + j] == n[j]
            invariant
                i + n.len() <= h.len(),
                j <= n.len(),
                forall|k: int| 0 <= k < j ==> h@[i + k] == n@[k],
            decreases n.len() - j,
        {
            j = j + 1;
        }
        if j == n.len() {
            assert(h@.subrange(i as int, i + n.len()) =~= n@);
            return true;
        }
        assert(h@.subrange(i as int, i + n.len())[j as int] != n@[j as int]);
        i = i + 1;
    }
    false
}

fn is_value(property: &Option<String>, default: &str, wanted: &str) -> (r: bool)
    ensures
        r == (value_or(*property, default@) == wanted@),
{
    match property {
        Some(v) => same(v.as_str(), wanted),
        None => same(default, wanted),
    }
}

impl Properties {
    /// Whether the device is a keyboard.
    pub fn is_keyboard(&self) -> (r: bool)
        ensures
            r == keyboard_class(*self),
    {
        is_value(&self.id_input_keyboard, "0", "1") && is_value(&self.id_input_mouse, "0", "0")
    }

    /// Whether the device is the daemon's own output device.
    pub fn is_own(&self) -> (r: bool)
        ensures
            r == own_device(*self),
    {
        match &self.name {
            Some(name) => contains(name.as_str(), "LeftHK"),
            None => {
                let r = contains("", "LeftHK");
                proof {
                    reveal_strlit("");
                }
                assert(""@ =~= Seq::<char>::empty());
                r
            },
        }
    }

    /// What to tell the worker when the device manager reports `change` for
    /// this device.
    pub fn watch(&self, change: Change) -> (r: Option<Task>)
        ensures
            match task_of(*self, change) {
                Some(path) => match change {
                    Change::Add => r matches Some(Task::KeyboardAdded(p)) && p@ == path,
                    _ => r matches Some(Task::KeyboardRemoved(p)) && p@ == path,
                },
                None => r is None,
            },
    {
        if self.is_own() || !self.is_keyboard() {
            return None;
        }
        let path = match &self.devname {
            Some(p) => p.clone(),
            None => String::new(),
        };
        if path.as_str().unicode_len() == 0 {
            return None;
        }
        match change {
            Change::Add => Some(Task::KeyboardAdded(path)),
            Change::Remove => Some(Task::KeyboardRemoved(path)),
            Change::Other => None,
        }
    }
}

/// The keyboards that are grabbed, by path.
#[derive(Debug)]
pub struct EvDev {
    pub devices: Vec<String>,
}

impl View for EvDev {
    type V = Set<Seq<char>>;

    open spec fn view(&self) -> Set<Seq<char>> {
        self.devices.deep_view().to_set()
    }
}

impl Default for EvDev {
    fn default() -> (out: Self)
        ensures
            out@ == Set::<Seq<char>>::empty(),
    {
        let out = EvDev { devices: Vec::new() };
        assert(out.devices.deep_view().to_set() =~= Set::<Seq<char>>::empty());
        out
    }
}

impl EvDev {
    /// No keyboards yet.
    pub fn new() -> (out: Self)
        ensures
            out@ == Set::<Seq<char>>::empty(),
    {
        EvDev::default()
    }

    /// Whether the keyboard at `path` is grabbed, so that its events have
    /// somewhere to go.
    pub fn has_device(&self, path: &str) -> (r: bool)
        ensures
            r == self@.contains(path@),
    {
        let mut i: usize = 0;
        while i < self.devices.len()
            invariant
                i <= self.devices.len(),
                forall|k: int| 0 <= k < i ==> self.devices.deep_view()[k] != path@,
            decreases self.devices.len() - i,
        {
            if same(self.devices[i].as_str(), path) {
                assert(self.devices.deep_view()[i as int] == path@);
                assert(self.devices.deep_view().contains(path@));
                return true;
            }
            i = i + 1;
        }
        assert(!self.devices.deep_view().contains(path@));
        false
    }

    /// Notes that the keyboard at `path` is grabbed.
    pub fn add_device(&mut self, path: String)
        ensures
            final(self)@ == old(self)@.insert(path@),
    {
        if self.has_device(path.as_str()) {
            assert(self@ =~= self@.insert(path@));
            return ;
        }
        let ghost before = self.devices.deep_view();
        self.devices.push(path);
        assert(self.devices.deep_view() =~= before.push(path@));
        assert(self@ =~= old(self)@.insert(path@)) by {
            assert forall|x: Seq<char>| self@.contains(x) <==> old(self)@.insert(path@).contains(
                x,
            ) by {
                let now = self.devices.deep_view();
                if now.contains(x) {
                    let k = choose|k: int| 0 <= k < now.len() && now[k] == x;
                    if k < before.len() {
                        assert(before[k] == x);
                        assert(before.contains(x));
                    }
                }
                if before.contains(x) {
                    let k = choose|k: int| 0 <= k < before.len() && before[k] == x;
                    assert(now[k] == x);
                }
                if x == path@ {
                    assert(now[before.len() as int] == x);
                }
            }
        }
    }

    /// Forgets the keyboard at `path`.
    pub fn remove_device(&mut self, path: &str)
        ensures
            final(self)@ == old(self)@.remove(path@),
    {
        let mut kept: Vec<String> = Vec::new();
        let mut i: usize = 0;
        while i < self.devices.len()
            invariant
                i <= self.devices.len(),
                forall|x: Seq<char>|
                    kept.deep_view().contains(x) <==> (x != path@ && exists|k: int|
                        0 <= k < i && self.devices.deep_view()[k] == x),
            decreases self.devices.len() - i,
        {
            let ghost before = kept.deep_view();
            if !same(self.devices[i].as_str(), path) {
                kept.push(self.devices[i].clone());
                assert(kept.deep_view() =~= before.push(self.devices.deep_view()[i as int]));
                assert forall|x: Seq<char>|
                    kept.deep_view().contains(x) <==> (x != path@ && exists|k: int|
                        0 <= k < i + 1 && self.devices.deep_view()[k] == x) by {
                    let now = kept.deep_view();
                    if now.contains(x) {
                        let j = choose|j: int| 0 <= j < now.len() && now[j] == x;
                        if j < before.len() {
                            assert(before[j] == x);
                            assert(before.contains(x));
                            let k = choose|k: int|
                                0 <= k < i && self.devices.deep_view()[k] == x;
                            assert(0 <= k < i + 1 && self.devices.deep_view()[k] == x);
                        } else {
                            assert(self.devices.deep_view()[i as int] == x);
                        }
                    }
                    if x != path@ && exists|k: int|
                        0 <= k < i + 1 && self.devices.deep_view()[k] == x {
                        let k = choose|k: int| 0 <= k < i + 1 && self.devices.deep_view()[k] == x;
                        if k < i {
                            assert(before.contains(x));
                            let j = choose|j: int| 0 <= j < before.len() && before[j] == x;
                            assert(now[j] == x);
                        } else {
                            assert(now[before.len() as int] == x);
                        }
                    }
                }
            } else {
                assert forall|x: Seq<char>|
                    kept.deep_view().contains(x) <==> (x != path@ && exists|k: int|
                        0 <= k < i + 1 && self.devices.deep_view()[k] == x) by {
                    if x != path@ && exists|k: int|
                        0 <= k < i + 1 && self.devices.deep_view()[k] == x {
                        let k = choose|k: int| 0 <= k < i + 1 && self.devices.deep_view()[k] == x;
                        assert(k < i);
                    }
                    if kept.deep_view().contains(x) {
                        let k = choose|k: int| 0 <= k < i && self.devices.deep_view()[k] == x;
                        assert(0 <= k < i + 1 && self.devices.deep_view()[k] == x);
                    }
                }
            }
            i = i + 1;
        }
        let ghost old_devices = self.devices.deep_view();
        self.devices = kept;
        assert(self@ =~= old(self)@.remove(path@)) by {
            assert forall|x: Seq<char>| self@.contains(x) <==> old(self)@.remove(path@).contains(
                x,
            ) by {
                if old_devices.contains(x) {
                    let k = choose|k: int| 0 <= k < old_devices.len() && old_devices[k] == x;
                    assert(old_devices[k] == x);
                }
            }
        }
    }
}

/// The steps of taking a keyboard over, in the order in which they are
/// made.
#[derive(Debug, Clone, Copy, PartialEq, Eq, Structural)]
pub enum AddStep {
    /// Open the device.
    Open,
    /// Wait until none of its keys is held.
    Settle,
    /// Make the output device that goes with it.
    Pair,
    /// Grab it, so that nobody else gets its events.
    Grab,
    /// Let it go again.
    Ungrab,
    /// Grab it for good.
    Regrab,
    /// Begin to read its events.
    Listen,
}

/// The step that follows `step`; none after the last.
pub open spec fn step_after(step: AddStep) -> Option<AddStep> {
    match step {
        AddStep::Open => Some(AddStep::Settle),
        AddStep::Settle => Some(AddStep::Pair),
        AddStep::Pair => Some(AddStep::Grab),
        AddStep::Grab => Some(AddStep::Ungrab),
        AddStep::Ungrab => Some(AddStep::Regrab),
        AddStep::Regrab => Some(AddStep::Listen),
        AddStep::Listen => None,
    }
}

/// What it means that `step` has failed for the keyboard at `path`, where
/// the system gave `reason` for it.
pub open spec fn failure_of(step: AddStep, path: Seq<char>, reason: Seq<char>) -> Failure {
    match step {
        AddStep::Open => Failure::DeviceOpenFailed(path),
        AddStep::Settle => Failure::IoError(reason),
        AddStep::Pair => Failure::Plain(LeftError::VirtualDeviceCreationFailed),
        AddStep::Grab => Failure::DeviceGrabFailed(path),
        AddStep::Ungrab => Failure::DeviceUngrabFailed(path),
        AddStep::Regrab => Failure::DeviceGrabFailed(path),
        AddStep::Listen => Failure::IoError(reason),
    }
}

impl AddStep {
    /// The step to begin with.
    pub fn first() -> (out: Self)
        ensures
            out == AddStep::Open,
    {
        AddStep::Open
    }

    /// What comes after this step: the next step if it went well, nothing
    /// more if it was the last, and the error to give up with if it failed
    /// for the reason that the system gave.
    pub fn after(self, path: &str, outcome: core::result::Result<(), String>) -> (out:
        core::result::Result<Option<AddStep>, LeftError>)
        ensures
            outcome is Ok ==> out == Ok::<Option<AddStep>, LeftError>(step_after(self)),
            outcome matches Err(reason) ==> (out matches Err(e) && e@ == failure_of(
                self,
                path@,
                reason@,
            )),
    {
        match outcome {
            Ok(()) => Ok(
                match self {
                    AddStep::Open => Some(AddStep::Settle),
                    AddStep::Settle => Some(AddStep::Pair),
                    AddStep::Pair => Some(AddStep::Grab),
                    AddStep::Grab => Some(AddStep::Ungrab),
                    AddStep::Ungrab => Some(AddStep::Regrab),
                    AddStep::Regrab => Some(AddStep::Listen),
                    AddStep::Listen => None,
                },
            ),
            Err(reason) => Err(
                match self {
                    AddStep::Open => LeftError::DeviceOpenFailed(path.to_owned()),
                    AddStep::Settle => LeftError::IoError(reason),
                    AddStep::Pair => LeftError::VirtualDeviceCreationFailed,
                    AddStep::Grab => LeftError::DeviceGrabFailed(path.to_owned()),
                    AddStep::Ungrab => LeftError::DeviceUngrabFailed(path.to_owned()),
                    AddStep::Regrab => LeftError::DeviceGrabFailed(path.to_owned()),
                    AddStep::Listen => LeftError::IoError(reason),
                },
            ),
        }
    }
}

} // verus!
