use bela::error::Error;
use bela::midi::{
    midi_ports, port_list, port_names, read_records, ControlValue, Controller, MidiChannel, MidiMessage, Note, PitchBend, Pressure,
    Program, Queue, Slot, Velocity,
};

#[test]
fn a_note_on_carries_channel_note_and_velocity() {
    let message = MidiMessage::from_bytes(&[0x93, 60, 100]).expect("a note on should parse");
    assert_eq!(
        message,
        MidiMessage::NoteOn {
            channel: MidiChannel::new(3).unwrap(),
            note: Note::new(60).unwrap(),
            velocity: Velocity::new(100).unwrap(),
        }
    );
}

#[test]
fn a_note_on_with_velocity_zero_stays_a_note_on() {
    let message = MidiMessage::from_bytes(&[0x90, 60, 0]).expect("a note on should parse");
    assert!(
        matches!(message, MidiMessage::NoteOn { velocity, .. } if velocity.get() == 0),
        "expected a note on with velocity 0, got {message:?}"
    );
}

#[test]
fn a_pitch_bend_reads_low_byte_first() {
    let message = MidiMessage::from_bytes(&[0xE0, 0x00, 0x40]).expect("a pitch bend should parse");
    assert_eq!(
        message,
        MidiMessage::PitchBend {
            channel: MidiChannel::new(0).unwrap(),
            bend: PitchBend::centre(),
        },
        "0x00 0x40 is 8192, the centre"
    );
}

#[test]
fn every_channel_message_parses_whole() {
    let channel = MidiChannel::max_value();
    let note = Note::new(60).unwrap();
    let expected = [
        (
            [0x8F, 60, 0].as_slice(),
            MidiMessage::NoteOff { channel, note, velocity: Velocity::new(0).unwrap() },
        ),
        (
            [0x9F, 60, 1].as_slice(),
            MidiMessage::NoteOn { channel, note, velocity: Velocity::new(1).unwrap() },
        ),
        (
            [0xAF, 60, 1].as_slice(),
            MidiMessage::KeyPressure { channel, note, pressure: Pressure::new(1).unwrap() },
        ),
        (
            [0xBF, 7, 100].as_slice(),
            MidiMessage::ControlChange {
                channel,
                controller: Controller::new(7).unwrap(),
                value: ControlValue::new(100).unwrap(),
            },
        ),
        (
            [0xCF, 5].as_slice(),
            MidiMessage::ProgramChange { channel, program: Program::new(5).unwrap() },
        ),
        (
            [0xDF, 50].as_slice(),
            MidiMessage::ChannelPressure { channel, pressure: Pressure::new(50).unwrap() },
        ),
        (
            [0xEF, 0, 0x40].as_slice(),
            MidiMessage::PitchBend { channel, bend: PitchBend::centre() },
        ),
    ];
    for (bytes, message) in expected {
        let parsed = MidiMessage::from_bytes(bytes).expect("should parse");
        assert_eq!(parsed, message, "{bytes:02x?} parsed as something else");
        assert_eq!(parsed.channel(), Some(channel), "{message:?} lost its channel");
    }
}

#[test]
fn system_real_time_messages_have_no_channel() {
    let expected = [
        (0xF8, MidiMessage::Clock),
        (0xFA, MidiMessage::Start),
        (0xFB, MidiMessage::Continue),
        (0xFC, MidiMessage::Stop),
        (0xFE, MidiMessage::ActiveSensing),
        (0xFF, MidiMessage::Reset),
    ];
    for (status, message) in expected {
        let parsed = MidiMessage::from_bytes(&[status]).expect("should parse");
        assert_eq!(parsed, message, "status {status:#04x}");
        assert_eq!(parsed.channel(), None, "{message:?} should have no channel");
    }
}

#[test]
fn the_undefined_system_messages_are_skipped() {
    for status in [0xF9u8, 0xFD] {
        assert_eq!(
            MidiMessage::from_bytes(&[status]),
            None,
            "{status:#04x} is undefined and has nothing to report"
        );
    }
}

#[test]
fn a_truncated_message_is_not_half_a_message() {
    assert_eq!(MidiMessage::from_bytes(&[]), None, "no status byte");
    assert_eq!(MidiMessage::from_bytes(&[0x90]), None, "no note number");
}

#[test]
fn seven_bit_values_reject_the_eighth_bit() {
    assert_eq!(Note::new(127).map(Note::get), Some(127));
    assert_eq!(Note::new(128), None, "128 needs eight bits");
    assert_eq!(Velocity::new(255), None);
    assert_eq!(Controller::max_value().get(), 127);
}

#[test]
fn a_value_converts_both_ways() {
    assert_eq!(Note::try_from(60), Ok(Note::new(60).unwrap()));
    assert_eq!(u8::from(Note::new(60).unwrap()), 60);
    assert_eq!(
        Velocity::try_from(128),
        Err(Error::MidiValue { value: 128, max: 127, kind: "velocity" })
    );
    assert_eq!(
        MidiChannel::try_from(16),
        Err(Error::MidiValue { value: 16, max: 15, kind: "channel" })
    );
    assert_eq!(PitchBend::try_from(8192), Ok(PitchBend::centre()));
    assert_eq!(
        PitchBend::try_from(16384),
        Err(Error::MidiValue { value: 16384, max: 16383, kind: "pitch bend" })
    );
}

#[test]
fn two_values_in_the_same_range_fail_differently() {
    let note = Note::try_from(200).unwrap_err();
    let velocity = Velocity::try_from(200).unwrap_err();
    assert_ne!(note, velocity, "the same bytes, and not the same error");
    let text = note.to_string();
    assert!(text.contains("note number"), "expected the type in the message, got: {text}");
}

#[test]
fn a_channel_is_one_of_sixteen() {
    assert_eq!(MidiChannel::new(15).map(MidiChannel::get), Some(15));
    assert_eq!(MidiChannel::new(16), None, "there are sixteen channels");
}

#[test]
fn a_pitch_bend_measures_from_the_centre() {
    assert_eq!(PitchBend::centre().offset(), 0);
    assert_eq!(PitchBend::new(0).map(PitchBend::offset), Some(-8192));
    assert_eq!(PitchBend::max_value().offset(), 8191);
    assert_eq!(PitchBend::new(16384), None, "14 bits is 16383");
    assert_eq!(PitchBend::default(), PitchBend::centre());
}

#[test]
fn a_message_survives_the_round_trip_to_bytes() {
    let messages = [
        MidiMessage::NoteOff {
            channel: MidiChannel::max_value(),
            note: Note::middle_c(),
            velocity: Velocity::min_value(),
        },
        MidiMessage::NoteOn {
            channel: MidiChannel::min_value(),
            note: Note::max_value(),
            velocity: Velocity::max_value(),
        },
        MidiMessage::KeyPressure {
            channel: MidiChannel::new(9).unwrap(),
            note: Note::middle_c(),
            pressure: Pressure::new(64).unwrap(),
        },
        MidiMessage::ControlChange {
            channel: MidiChannel::new(1).unwrap(),
            controller: Controller::new(7).unwrap(),
            value: ControlValue::new(100).unwrap(),
        },
        MidiMessage::ProgramChange {
            channel: MidiChannel::new(2).unwrap(),
            program: Program::new(5).unwrap(),
        },
        MidiMessage::ChannelPressure {
            channel: MidiChannel::new(3).unwrap(),
            pressure: Pressure::new(80).unwrap(),
        },
        MidiMessage::PitchBend { channel: MidiChannel::new(4).unwrap(), bend: PitchBend::centre() },
        MidiMessage::Clock,
        MidiMessage::Start,
        MidiMessage::Continue,
        MidiMessage::Stop,
        MidiMessage::ActiveSensing,
        MidiMessage::Reset,
    ];
    for message in messages {
        let (bytes, len) = message.to_bytes();
        assert_eq!(
            MidiMessage::from_bytes(&bytes[..len]),
            Some(message),
            "{message:?} came back as something else"
        );
    }
}

#[test]
fn a_pitch_bend_goes_out_low_byte_first() {
    let (bytes, len) = MidiMessage::PitchBend {
        channel: MidiChannel::min_value(),
        bend: PitchBend::centre(),
    }
    .to_bytes();
    assert_eq!(
        (&bytes[..len], len),
        ([0xE0, 0x00, 0x40].as_slice(), 3),
        "8192 is 0x00 0x40 on the wire"
    );
}

#[test]
fn a_slot_carries_the_message_and_its_length() {
    for (bytes, len) in [([0x90, 60, 100], 3), ([0xC0, 5, 0], 2), ([0xF8, 0, 0], 1)] {
        let slot = Slot::pack(bytes, len);
        let (back, back_len) = slot.unpack();
        assert_eq!(back_len, len, "length changed");
        assert_eq!(&back[..len], &bytes[..len], "bytes changed");
    }
}

#[test]
fn a_queue_returns_messages_in_order() {
    let mut queue = Queue::new(4);
    for note in 0..4u8 {
        queue.push(Slot::pack([0x90, note, 100], 3)).expect("the queue has room for four");
    }
    for note in 0..4u8 {
        let (bytes, len) = queue.pop().expect("four were pushed").unpack();
        assert_eq!((&bytes[..len], len), ([0x90, note, 100].as_slice(), 3));
    }
    assert!(queue.pop().is_none(), "and then it is empty");
}

#[test]
fn a_full_queue_refuses_rather_than_overwrites() {
    let mut queue = Queue::new(2);
    assert_eq!(queue.capacity(), 2, "capacity is what was asked for");
    queue.push(Slot::pack([0x90, 1, 1], 3)).expect("first");
    queue.push(Slot::pack([0x90, 2, 2], 3)).expect("second");
    assert_eq!(
        queue.push(Slot::pack([0x90, 3, 3], 3)),
        Err(Error::MidiQueueFull),
        "a third does not fit"
    );

    let (bytes, _) = queue.pop().expect("first is still there").unpack();
    assert_eq!(bytes[1], 1);
    queue.push(Slot::pack([0x90, 3, 3], 3)).expect("and now there is room again");
}

#[test]
fn a_queue_wraps_around_its_slots() {
    let mut queue = Queue::new(2);
    for round in 0..6u8 {
        queue.push(Slot::pack([0x90, round, 64], 3)).expect("room");
        let (bytes, _) = queue.pop().expect("just pushed").unpack();
        assert_eq!(bytes[1], round, "round {round} came back wrong");
    }
}

#[test]
fn there_are_no_ports_off_the_device() {
    assert!(midi_ports().is_empty());
}

#[test]
fn middle_c_is_sixty() {
    assert_eq!(Note::middle_c().get(), 60);
}

#[test]
fn no_port_can_be_opened_off_device() {
    assert_eq!(
        bela::midi::MidiInput::open("hw:0,0,0").unwrap_err(),
        Error::MidiCreate,
        "off-device there is no libbelaextra to open a port with"
    );
    assert!(midi_ports().is_empty(), "and nothing to list ports with either");
}


#[test]
fn the_port_list_is_split_at_nul_bytes() {
    let list = b"hw:0,0,0\0hw:1,0,0\0\0";
    assert_eq!(
        port_names(list, list.len()),
        vec![b"hw:0,0,0".to_vec(), b"hw:1,0,0".to_vec()],
        "empty names are left out"
    );
    assert_eq!(
        port_names(list, 1000),
        vec![b"hw:0,0,0".to_vec(), b"hw:1,0,0".to_vec()],
        "a list that grew is read no further than the buffer"
    );
    assert_eq!(port_names(list, 4), vec![b"hw:0".to_vec()], "nor past what was reported");
    assert!(port_names(b"", 0).is_empty());
}

#[test]
fn port_names_are_decoded_as_lossy_utf8() {
    let list = b"hw:0,0,0\0caf\xe9\0";
    assert_eq!(
        port_list(list, list.len()),
        vec!["hw:0,0,0".to_string(), "caf\u{FFFD}".to_string()],
        "a byte that is not UTF-8 becomes U+FFFD"
    );
    assert!(midi_ports().is_empty(), "off-device the shim has no list");
}

#[test]
fn a_read_skips_records_that_do_not_parse() {
    let note_on = (vec![0x90, 60, 100], 3);
    let truncated = (vec![0x90, 60, 0], 2);
    let empty = (vec![0, 0, 0], 0);
    assert_eq!(
        read_records(&vec![truncated.clone(), note_on.clone()]),
        Some(MidiMessage::NoteOn {
            channel: MidiChannel::min_value(),
            note: Note::middle_c(),
            velocity: Velocity::new(100).unwrap(),
        }),
        "a note on with its velocity missing is dropped, not read as a release"
    );
    assert_eq!(read_records(&vec![empty, note_on.clone()]), None, "an empty answer is an empty ring");
    assert_eq!(read_records(&vec![truncated]), None);
    assert_eq!(
        read_records(&vec![(vec![0xF8, 0, 0], 9)]),
        Some(MidiMessage::Clock),
        "no more than the buffer is read"
    );
}
