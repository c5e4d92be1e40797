use rivulet_core::midi::{parse_midi, MidiAction, MidiBinding, MidiKind, MidiMapping, MidiMessage};
use uuid::Uuid;

#[test]
fn parses_note_on_cc_and_note_off() {
    let on = parse_midi(&[0x90, 60, 100]).unwrap();
    assert_eq!(
        on,
        MidiMessage {
            channel: 0,
            kind: MidiKind::NoteOn,
            number: 60,
            value: 100,
        }
    );
    let cc = parse_midi(&[0xB5, 7, 64]).unwrap();
    assert_eq!(
        cc,
        MidiMessage {
            channel: 5,
            kind: MidiKind::ControlChange,
            number: 7,
            value: 64,
        }
    );
    let off = parse_midi(&[0x81, 60, 0]).unwrap();
    assert_eq!(off.kind, MidiKind::NoteOff);
    assert_eq!(off.channel, 1);
}

#[test]
fn note_on_with_velocity_zero_is_normalized_to_note_off() {
    let msg = parse_midi(&[0x90, 36, 0]).unwrap();
    assert_eq!(msg.kind, MidiKind::NoteOff);
    assert_eq!(msg.value, 127);
}

#[test]
fn rejects_unknown_and_malformed_frames() {
    assert!(parse_midi(&[0xE0, 0, 0]).is_none());
    assert!(parse_midi(&[0xF0, 0, 0]).is_none());
    assert!(parse_midi(&[0x90, 60]).is_none());
    assert!(parse_midi(&[]).is_none());
}

#[test]
fn dispatch_matches_exact_channel_kind_and_number() {
    let scene = Uuid::new_v4();
    let mapping = MidiMapping {
        bindings: vec![
            MidiBinding::new(0, MidiKind::ControlChange, 7, MidiAction::SetMasterVolume),
            MidiBinding::new(0, MidiKind::NoteOn, 60, MidiAction::SwitchScene(scene)),
            MidiBinding::new(1, MidiKind::ControlChange, 7, MidiAction::ToggleMute),
        ],
    };
    let actions = mapping.dispatch(&parse_midi(&[0xB0, 7, 42]).unwrap());
    assert_eq!(actions, vec![&MidiAction::SetMasterVolume]);
    let actions = mapping.dispatch(&parse_midi(&[0x90, 60, 100]).unwrap());
    assert_eq!(actions, vec![&MidiAction::SwitchScene(scene)]);
    let actions = mapping.dispatch(&parse_midi(&[0xB1, 7, 42]).unwrap());
    assert_eq!(actions, vec![&MidiAction::ToggleMute]);
    assert!(mapping
        .dispatch(&parse_midi(&[0x90, 61, 100]).unwrap())
        .is_empty());
}

#[test]
fn action_names_and_kind_labels_are_stable() {
    assert_eq!(MidiAction::ToggleStream.name(), "ToggleStream");
    assert_eq!(MidiAction::SwitchScene(Uuid::nil()).name(), "SwitchScene");
    assert_eq!(MidiKind::ControlChange.label(), "CC");
    assert_eq!(MidiKind::NoteOn.label(), "NoteOn");
    assert_eq!(MidiKind::default(), MidiKind::ControlChange);
}

#[test]
fn dispatch_returns_every_matching_binding_in_order() {
    let mapping = MidiMapping {
        bindings: vec![
            MidiBinding::new(3, MidiKind::NoteOff, 10, MidiAction::ToggleRecord),
            MidiBinding::new(3, MidiKind::NoteOff, 11, MidiAction::ToggleMute),
            MidiBinding::new(3, MidiKind::NoteOff, 10, MidiAction::ToggleChromaKey),
        ],
    };
    let msg = parse_midi(&[0x93, 10, 0]).unwrap();
    assert_eq!(msg.kind, MidiKind::NoteOff);
    assert_eq!(
        mapping.dispatch(&msg),
        vec![&MidiAction::ToggleRecord, &MidiAction::ToggleChromaKey]
    );
}
