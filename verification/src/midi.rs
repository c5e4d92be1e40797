//! MIDI controller mapping (Korg NanoKontrol & friends).
//!
//! This module is platform-independent and hardware-free: it parses raw MIDI
//! bytes into [`MidiMessage`]s, holds the user's [`MidiMapping`] (channel +
//! kind + note/CC number → action), and dispatches incoming messages to the
//! actions they are bound to. The device I/O itself lives in the GUI.
//!
//! Supported message kinds: Note On, Note Off (including Note On with velocity
//! 0, which the MIDI spec treats as Note Off), and Control Change. The parser
//! handles complete 3-byte messages; running status is not supported and such
//! frames are ignored (documented limitation).
use vstd::prelude::*;

use uuid::Uuid;

verus! {


/// Which MIDI message kind a binding listens for.
#[derive(Debug, Clone, Copy, PartialEq, Eq, Structural)]
pub enum MidiKind {
    /// Note On (status 0x90..0x9F). Velocity 0 is normalized to Note Off.
    NoteOn,
    /// Note Off (status 0x80..0x8F, or Note On with velocity 0).
    NoteOff,
    /// Control Change (status 0xB0..0xBF).
    ControlChange,
}

impl Default for MidiKind {
    /// Control Change is the kind most controllers use for faders/knobs.
    fn default() -> (r: Self)
        ensures
            r == MidiKind::ControlChange,
    {
        MidiKind::ControlChange
    }
}

impl MidiKind {
    /// The short label used in the mapping table and for serialization tests.
    pub fn label(self) -> (r: &'static str)
        ensures
            r@ == match self {
                MidiKind::NoteOn => "NoteOn"@,
                MidiKind::NoteOff => "NoteOff"@,
                MidiKind::ControlChange => "CC"@,
            },
    {
        match self {
            MidiKind::NoteOn => "NoteOn",
            MidiKind::NoteOff => "NoteOff",
            MidiKind::ControlChange => "CC",
        }
    }
}

/// A parsed, normalized MIDI message.
#[derive(Debug, Clone, Copy, PartialEq, Eq, Structural)]
pub struct MidiMessage {
    /// MIDI channel 0..15 (as sent; the GUI shows 1-based numbers).
    pub channel: u8,
    pub kind: MidiKind,
    /// Note number or CC number (data byte 1).
    pub number: u8,
    /// Velocity or CC value (data byte 2).
    pub value: u8,
}

/// The message a frame starting with `status, number, value` encodes: the
/// high nibble of the status selects the kind, the low nibble is the
/// channel, and a Note On with velocity 0 becomes a Note Off with
/// velocity 127.
pub open spec fn parse_spec(bytes: Seq<u8>) -> Option<MidiMessage> {
    if bytes.len() < 3 {
        None
    } else {
        let status = bytes[0];
        let hi = status / 16;
        let channel = (status % 16) as u8;
        let kind = if hi == 9 {
            Some(MidiKind::NoteOn)
        } else if hi == 8 {
            Some(MidiKind::NoteOff)
        } else if hi == 11 {
            Some(MidiKind::ControlChange)
        } else {
            None
        };
        match kind {
            None => None,
            Some(k) => if k == MidiKind::NoteOn && bytes[2] == 0 {
                Some(MidiMessage { channel, kind: MidiKind::NoteOff, number: bytes[1], value: 127 })
            } else {
                Some(MidiMessage { channel, kind: k, number: bytes[1], value: bytes[2] })
            },
        }
    }
}

/// What each frame means, by its status byte: a Control Change
/// (`0xB0..=0xBF`) reports its controller number and value as sent, every
/// value (zero included); a Note Off (`0x80..=0x8F`) reports its note and
/// velocity; a Note On (`0x90..=0x9F`) reports its note and velocity, except
/// that velocity zero means Note Off with velocity 127; the channel is the
/// status byte's low nibble. Frames shorter than three bytes and every
/// other status are not understood.
pub proof fn lemma_midi_frames_by_status(bytes: Seq<u8>)
    ensures
        bytes.len() >= 3 && 0xB0 <= bytes[0] <= 0xBF ==> parse_spec(bytes) == Some(
            MidiMessage { channel: (bytes[0] - 0xB0) as u8, kind: MidiKind::ControlChange, number: bytes[1], value: bytes[2] },
        ),
        bytes.len() >= 3 && 0x80 <= bytes[0] <= 0x8F ==> parse_spec(bytes) == Some(
            MidiMessage { channel: (bytes[0] - 0x80) as u8, kind: MidiKind::NoteOff, number: bytes[1], value: bytes[2] },
        ),
        bytes.len() >= 3 && 0x90 <= bytes[0] <= 0x9F && bytes[2] > 0 ==> parse_spec(bytes) == Some(
            MidiMessage { channel: (bytes[0] - 0x90) as u8, kind: MidiKind::NoteOn, number: bytes[1], value: bytes[2] },
        ),
        bytes.len() >= 3 && 0x90 <= bytes[0] <= 0x9F && bytes[2] == 0 ==> parse_spec(bytes) == Some(
            MidiMessage { channel: (bytes[0] - 0x90) as u8, kind: MidiKind::NoteOff, number: bytes[1], value: 127 },
        ),
        bytes.len() < 3 || !(0x80 <= bytes[0] <= 0x9F || 0xB0 <= bytes[0] <= 0xBF) ==> parse_spec(bytes) is None,
{
}

/// Parse a complete 3-byte MIDI message. Returns `None` for anything that is
/// not a Note On/Off/CC frame we understand (SysEx, program change, running
/// status, malformed frames).
pub fn parse_midi(bytes: &[u8]) -> (r: Option<MidiMessage>)
    ensures
        r == parse_spec(bytes@),
{
    if bytes.len() < 3 {
        return None;
    }
    let status = bytes[0];
    assert(status & 0xF0u8 == (status / 16) * 16) by (bit_vector);
    assert(status & 0x0Fu8 == status % 16) by (bit_vector);
    let high = status & 0xF0u8;
    let channel = status & 0x0Fu8;
    let kind = if high == 0x90u8 {
        MidiKind::NoteOn
    } else if high == 0x80u8 {
        MidiKind::NoteOff
    } else if high == 0xB0u8 {
        MidiKind::ControlChange
    } else {
        return None;
    };
    let number = bytes[1];
    let mut value = bytes[2];
    // Note On with velocity 0 is a Note Off per the MIDI spec.
    let kind = if kind == MidiKind::NoteOn && value == 0 {
        value = 127;
        MidiKind::NoteOff
    } else {
        kind
    };
    Some(MidiMessage { channel, kind, number, value })
}

/// An action a MIDI binding can trigger. `SwitchScene` targets a scene by its
/// stable id so renames do not break bindings.
#[derive(Debug, Clone, PartialEq, Eq)]
pub enum MidiAction {
    /// Switch the program scene to the given scene id.
    SwitchScene(Uuid),
    /// Toggle recording (start/stop the active capture path).
    ToggleRecord,
    /// Toggle streaming (start/stop the configured ingest).
    ToggleStream,
    /// Toggle the mute state of the active output.
    ToggleMute,
    /// Set the master volume from the CC value (0..127 → 0.0..1.0).
    SetMasterVolume,
    /// Toggle the chroma key of the currently selected source.
    ToggleChromaKey,
}

impl MidiAction {
    /// Stable wire name used for serialization and for the mapping table.
    pub fn name(&self) -> (r: &'static str)
        ensures
            r@ == match *self {
                MidiAction::SwitchScene(_) => "SwitchScene"@,
                MidiAction::ToggleRecord => "ToggleRecord"@,
                MidiAction::ToggleStream => "ToggleStream"@,
                MidiAction::ToggleMute => "ToggleMute"@,
                MidiAction::SetMasterVolume => "SetMasterVolume"@,
                MidiAction::ToggleChromaKey => "ToggleChromaKey"@,
            },
    {
        match self {
            MidiAction::SwitchScene(_) => "SwitchScene",
            MidiAction::ToggleRecord => "ToggleRecord",
            MidiAction::ToggleStream => "ToggleStream",
            MidiAction::ToggleMute => "ToggleMute",
            MidiAction::SetMasterVolume => "SetMasterVolume",
            MidiAction::ToggleChromaKey => "ToggleChromaKey",
        }
    }
}

/// One entry of a [`MidiMapping`]: which message triggers which action.
#[derive(Debug, Clone, PartialEq, Eq)]
pub struct MidiBinding {
    /// MIDI channel 0..15.
    pub channel: u8,
    pub kind: MidiKind,
    /// Note number or CC number.
    pub number: u8,
    pub action: MidiAction,
}

/// A binding reacts to a message with its channel, kind and number.
pub open spec fn binding_matches(b: MidiBinding, msg: MidiMessage) -> bool {
    b.channel == msg.channel && b.kind == msg.kind && b.number == msg.number
}

/// The actions of the bindings that react to `msg`, in binding order.
pub open spec fn dispatch_spec(bs: Seq<MidiBinding>, msg: MidiMessage) -> Seq<MidiAction>
    decreases bs.len(),
{
    if bs.len() == 0 {
        Seq::empty()
    } else {
        let rest = dispatch_spec(bs.drop_last(), msg);
        if binding_matches(bs.last(), msg) {
            rest.push(bs.last().action)
        } else {
            rest
        }
    }
}

impl MidiBinding {
    /// Convenience constructor used by the GUI "learn/add" flow and tests.
    pub fn new(channel: u8, kind: MidiKind, number: u8, action: MidiAction) -> (r: Self)
        ensures
            r == (MidiBinding { channel, kind, number, action }),
    {
        MidiBinding { channel, kind, number, action }
    }

    /// True when this binding matches the given message.
    pub fn matches(&self, msg: &MidiMessage) -> (r: bool)
        ensures
            r == binding_matches(*self, *msg),
    {
        self.channel == msg.channel && self.kind == msg.kind && self.number == msg.number
    }
}

/// The full set of user-configured MIDI bindings.
#[derive(Debug, Clone, PartialEq, Eq)]
pub struct MidiMapping {
    pub bindings: Vec<MidiBinding>,
}

impl Default for MidiMapping {
    fn default() -> (r: Self)
        ensures
            r.bindings@.len() == 0,
    {
        MidiMapping { bindings: Vec::new() }
    }
}

/// Some binding for `msg`'s channel, kind and number triggers `a`.
pub open spec fn bound_to(bs: Seq<MidiBinding>, msg: MidiMessage, a: MidiAction) -> bool {
    exists|i: int|
        0 <= i < bs.len() && (#[trigger] bs[i]).channel == msg.channel && bs[i].kind == msg.kind
            && bs[i].number == msg.number && bs[i].action == a
}

/// A message triggers exactly the actions bound to its channel, kind and
/// number: every dispatched action is so bound, every binding with the
/// message's channel, kind and number contributes its action, and one
/// action comes per such binding (none when no binding fits).
pub proof fn lemma_dispatch_triggers_bound_actions(bs: Seq<MidiBinding>, msg: MidiMessage)
    ensures
        forall|k: int| 0 <= k < dispatch_spec(bs, msg).len() ==> #[trigger] bound_to(bs, msg, dispatch_spec(bs, msg)[k]),
        forall|i: int| 0 <= i < bs.len() && (#[trigger] bs[i]).channel == msg.channel && bs[i].kind == msg.kind
            && bs[i].number == msg.number ==> dispatch_spec(bs, msg).contains(bs[i].action),
        dispatch_spec(bs, msg).len() <= bs.len(),
        (forall|i: int| 0 <= i < bs.len() ==> !((#[trigger] bs[i]).channel == msg.channel && bs[i].kind == msg.kind
            && bs[i].number == msg.number)) ==> dispatch_spec(bs, msg).len() == 0,
    decreases bs.len(),
{
    let r = dispatch_spec(bs, msg);
    if bs.len() > 0 {
        let init = bs.drop_last();
        let rest = dispatch_spec(init, msg);
        lemma_dispatch_triggers_bound_actions(init, msg);
        assert forall|k: int| 0 <= k < r.len() implies #[trigger] bound_to(bs, msg, r[k]) by {
            if k < rest.len() {
                assert(r[k] == rest[k]);
                assert(bound_to(init, msg, rest[k]));
                let i = choose|i: int|
                    0 <= i < init.len() && (#[trigger] init[i]).channel == msg.channel && init[i].kind == msg.kind
                        && init[i].number == msg.number && init[i].action == rest[k];
                assert(bs[i] == init[i]);
            } else {
                assert(bs[bs.len() - 1] == bs.last());
            }
        }
        assert forall|i: int| 0 <= i < bs.len() && (#[trigger] bs[i]).channel == msg.channel && bs[i].kind == msg.kind
            && bs[i].number == msg.number implies r.contains(bs[i].action) by {
            if i < init.len() {
                assert(init[i] == bs[i]);
                let k = choose|k: int| 0 <= k < rest.len() && rest[k] == init[i].action;
                assert(r[k] == rest[k]);
            } else {
                assert(bs[i] == bs.last());
                assert(r[rest.len() as int] == bs[i].action);
            }
        }
        if forall|i: int| 0 <= i < bs.len() ==> !((#[trigger] bs[i]).channel == msg.channel && bs[i].kind == msg.kind
            && bs[i].number == msg.number) {
            assert forall|i: int| 0 <= i < init.len() implies !((#[trigger] init[i]).channel == msg.channel && init[i].kind
                == msg.kind && init[i].number == msg.number) by {
                assert(init[i] == bs[i]);
            }
            assert(bs[bs.len() - 1] == bs.last());
        }
    }
}

impl MidiMapping {
    /// Dispatch a parsed message: returns the actions of every binding that
    /// matches (normally zero or one), in binding order. A CC binding used
    /// as a fader returns [`MidiAction::SetMasterVolume`] with the value
    /// carried implicitly — the GUI scales `msg.value` to a volume ratio at
    /// apply time.
    pub fn dispatch(&self, msg: &MidiMessage) -> (r: Vec<&MidiAction>)
        ensures
            r@.map_values(|a: &MidiAction| *a) == dispatch_spec(self.bindings@, *msg),
    {
        let ghost bs = self.bindings@;
        let mut out: Vec<&MidiAction> = Vec::new();
        let n = self.bindings.len();
        let mut i: usize = 0;
        while i < n
            invariant
                n == bs.len(),
                bs == self.bindings@,
                i <= n,
                out@.map_values(|a: &MidiAction| *a) == dispatch_spec(bs.subrange(0, i as int), *msg),
            decreases n - i,
        {
            proof {
                assert(bs.subrange(0, i + 1).drop_last() =~= bs.subrange(0, i as int));
                assert(bs.subrange(0, i + 1).last() == bs[i as int]);
            }
            let b = &self.bindings[i];
            if b.matches(msg) {
                out.push(&b.action);
                proof {
                    assert(out@.map_values(|a: &MidiAction| *a) =~= dispatch_spec(
                        bs.subrange(0, i as int),
                        *msg,
                    ).push(bs[i as int].action));
                }
            } else {
                proof {
                    assert(out@.map_values(|a: &MidiAction| *a) =~= dispatch_spec(
                        bs.subrange(0, i as int),
                        *msg,
                    ));
                }
            }
            i = i + 1;
        }
        proof {
            assert(bs.subrange(0, n as int) =~= bs);
        }
        out
    }
}

} // verus!
