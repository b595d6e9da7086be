use remech::xmi::file::XmiError;
use remech::xmi::{MetaMessage, XmiEventKind, XmiFile, XmiMidiMessage};

/// A song of one track: a note of 32 ticks, a controller, a tempo (dropped
/// from the output), a program change and the end of the track.
fn sample_xmi() -> Vec<u8> {
    vec![
        70, 79, 82, 77, 0, 0, 0, 0, 88, 68, 73, 82, 73, 78, 70, 79, 0, 0, 0, 0, 1, 0, 67, 65, 84,
        32, 0, 0, 0, 0, 88, 77, 73, 68, 70, 79, 82, 77, 0, 0, 0, 0, 88, 77, 73, 68, 84, 73, 77, 66,
        0, 0, 0, 0, 1, 0, 1, 2, 69, 86, 78, 84, 0, 0, 0, 21, 16, 144, 60, 100, 32, 48, 177, 7, 100,
        255, 81, 3, 7, 161, 32, 5, 194, 5, 255, 47, 0,
    ]
}

#[test]
fn xmi_song_converts_to_standard_midi() {
    let data = sample_xmi();
    assert!(!XmiFile::faults(&data));
    let xmi = XmiFile::new(&data).unwrap();
    assert_eq!(xmi.sequences.len(), 1);
    assert_eq!(xmi.sequences[0].patches.len(), 1);
    assert_eq!(xmi.sequences[0].patches[0].patch, 1);
    assert_eq!(xmi.sequences[0].patches[0].bank, 2);
    assert_eq!(xmi.sequences[0].events.len(), 5);
    let smf = xmi.to_smf_file();
    let expected: Vec<u8> = vec![
        77, 84, 104, 100, 0, 0, 0, 6, 0, 0, 0, 1, 0, 60, 77, 84, 114, 107, 0, 0, 0, 19, 16, 144,
        60, 100, 32, 128, 60, 0, 16, 177, 7, 100, 5, 194, 5, 0, 255, 47, 0,
    ];
    assert_eq!(smf, expected);
}

#[test]
fn xmi_track_events_end_notes_with_note_offs() {
    let xmi = XmiFile::new(&sample_xmi()).unwrap();
    let track = xmi.build_track_events_data();
    // The note-on, then its note-off 32 ticks later, before the controller
    // that came 48 ticks after the note.
    assert_eq!(&track[0..4], &[16, 0x90, 60, 100]);
    assert_eq!(&track[4..8], &[32, 0x80, 60, 0]);
    assert_eq!(&track[8..12], &[16, 0xB1, 7, 100]);
}

#[test]
fn xmi_parse_event_reads_note_with_duration() {
    let track = [0x10u8, 0x90, 60, 100, 0x20];
    let (event, next) = XmiFile::parse_xmi_event(&track, 0).unwrap();
    assert_eq!(event.delta, 16);
    assert_eq!(next, 5);
    match event.kind {
        XmiEventKind::Midi { channel, message } => {
            assert_eq!(channel, 0);
            assert_eq!(message, XmiMidiMessage::NoteOn { key: 60, vel: 100, duration: 32 });
        }
        _ => panic!("not a channel message"),
    }
}

#[test]
fn xmi_parse_event_sums_delay_bytes() {
    // XMI delays are sums of bytes below 0x80, not variable-length numbers.
    let track = [0x7Fu8, 0x7F, 0x02, 0xC3, 9];
    let (event, next) = XmiFile::parse_xmi_event(&track, 0).unwrap();
    assert_eq!(event.delta, 0x7F + 0x7F + 2);
    assert_eq!(next, 5);
    match event.kind {
        XmiEventKind::Midi { channel, message } => {
            assert_eq!(channel, 3);
            assert_eq!(message, XmiMidiMessage::ProgramChange { program: 9 });
        }
        _ => panic!("not a channel message"),
    }
}

#[test]
fn xmi_parse_event_reads_meta_tempo() {
    let track = [0xFFu8, 0x51, 0x03, 0x07, 0xA1, 0x20];
    let (event, next) = XmiFile::parse_xmi_event(&track, 0).unwrap();
    assert_eq!(next, 6);
    match event.kind {
        XmiEventKind::Meta(MetaMessage::Tempo(t)) => assert_eq!(t, 0x07A120),
        _ => panic!("not a tempo"),
    }
}

#[test]
fn xmi_parse_event_stops_at_end_and_unknown_status() {
    assert!(XmiFile::parse_xmi_event(&[], 0).is_none());
    // 0x80 is a note-off, which XMI does not use.
    assert!(XmiFile::parse_xmi_event(&[0x80u8, 1, 2], 0).is_none());
}

#[test]
fn xmi_midi_length_round_trips() {
    for n in [0u32, 1, 0x7F, 0x80, 0x3FFF, 0x4000, 0x1F_FFFF] {
        let bytes = XmiFile::make_midi_length(n);
        let (back, next) = XmiFile::parse_midi_length(&bytes, 0);
        assert_eq!(back, n);
        assert_eq!(next, bytes.len());
    }
}

#[test]
fn xmi_make_midi_length_exact_bytes() {
    assert_eq!(XmiFile::make_midi_length(0), vec![0x00]);
    assert_eq!(XmiFile::make_midi_length(0x40), vec![0x40]);
    assert_eq!(XmiFile::make_midi_length(0x80), vec![0x81, 0x00]);
    assert_eq!(XmiFile::make_midi_length(0x2000), vec![0xC0, 0x00]);
    assert_eq!(XmiFile::make_midi_length(0x0FFF_FFFF), vec![0xFF, 0xFF, 0xFF, 0x7F]);
}

#[test]
fn xmi_parse_midi_length_reads_at_most_three_bytes() {
    let (n, next) = XmiFile::parse_midi_length(&[0x81u8, 0x80, 0x80, 0x00], 0);
    assert_eq!(n, 0x1_0000 << 5);
    assert_eq!(next, 3);
}

#[test]
fn xmi_refuses_bad_tag() {
    let mut data = sample_xmi();
    data[0] = b'X';
    assert!(matches!(XmiFile::new(&data), Err(XmiError::InvalidXmi)));
}

#[test]
fn xmi_refuses_truncated_file() {
    let data = sample_xmi();
    let short = &data[..10];
    assert!(!XmiFile::faults(short));
    assert!(matches!(XmiFile::new(short), Err(XmiError::UnexpectedEof)));
}

#[test]
fn xmi_empty_song_list_gives_empty_track() {
    let mut data = sample_xmi();
    data[20] = 0;
    let data = &data[..34];
    let xmi = XmiFile::new(data).unwrap();
    assert_eq!(xmi.sequences.len(), 0);
    let smf = xmi.to_smf_file();
    assert_eq!(smf.len(), 22);
    assert_eq!(&smf[18..22], &[0, 0, 0, 0]);
}

/// Splits a track's events into their delta times and the bytes after them
/// (for the events of `sample_xmi`: channel messages and meta events).
fn deltas_of(track: &[u8]) -> Vec<u32> {
    let mut deltas = Vec::new();
    let mut i = 0;
    while i < track.len() {
        let mut d: u32 = 0;
        loop {
            let b = track[i];
            i += 1;
            d = d * 128 + (b & 0x7F) as u32;
            if b < 0x80 {
                break;
            }
        }
        deltas.push(d);
        let status = track[i];
        i += match status & 0xF0 {
            0xC0 | 0xD0 => 2,
            0xF0 => 3 + track[i + 2] as usize,
            _ => 3,
        };
    }
    deltas
}

#[test]
fn xmi_note_off_lands_at_note_end_and_ticks_add_up() {
    let xmi = XmiFile::new(&sample_xmi()).unwrap();
    let track = xmi.build_track_events_data();
    let deltas = deltas_of(&track);
    // Note-on at 16, its 32-tick note-off at 48, then the controller at 64.
    assert_eq!(deltas, vec![16, 32, 16, 5, 0]);
    assert_eq!(deltas.iter().sum::<u32>(), 16 + 48 + 0 + 5 + 0);
    assert_eq!(track[4], 32);
    assert_eq!(&track[5..8], &[0x80, 60, 0]);
}

#[test]
fn xmi_midi_length_is_minimal() {
    for &n in &[0u32, 1, 127, 128, 255, 16383, 16384, 0x0FFF_FFFF, 0x1000_0000, u32::MAX] {
        let bytes = XmiFile::make_midi_length(n);
        assert!(!bytes.is_empty() && bytes.len() <= 5);
        for b in &bytes[..bytes.len() - 1] {
            assert!(*b >= 0x80);
        }
        assert!(bytes[bytes.len() - 1] < 0x80);
        if bytes.len() > 1 {
            assert_ne!(bytes[0] & 0x7F, 0);
        }
        let value = bytes.iter().fold(0u64, |acc, b| acc * 128 + (b & 0x7F) as u64);
        assert_eq!(value, n as u64);
    }
    assert_eq!(XmiFile::make_midi_length(u32::MAX), vec![0x8F, 0xFF, 0xFF, 0xFF, 0x7F]);
}

/// An XMI file of one song with the given event bytes.
fn song_with(events: &[u8]) -> Vec<u8> {
    let mut data = sample_xmi();
    let at = data.windows(4).position(|w| w == b"EVNT").unwrap();
    data.truncate(at + 4);
    data.extend_from_slice(&(events.len() as u32).to_be_bytes());
    data.extend_from_slice(events);
    data
}

#[test]
fn xmi_every_note_gets_its_note_off_at_its_end() {
    // Key 60 for 10 ticks at 0, key 62 for 30 ticks at 5, a controller at 45.
    let events = [144, 60, 100, 10, 5, 144, 62, 100, 30, 40, 177, 7, 100, 255, 47, 0];
    let xmi = XmiFile::new(&song_with(&events)).unwrap();
    let track = xmi.build_track_events_data();
    let expected: Vec<u8> = vec![
        0, 144, 60, 100, 5, 144, 62, 100, 5, 128, 60, 0, 25, 128, 62, 0, 10, 177, 7, 100, 0, 255,
        47, 0,
    ];
    assert_eq!(track, expected);
    assert_eq!(deltas_of(&track).iter().sum::<u32>(), 45);
}

#[test]
fn xmi_each_note_on_gets_exactly_one_note_off() {
    // Key 60 for 10 ticks at 0 and again for 5 ticks at 20; a controller at 40.
    let events = [144, 60, 100, 10, 20, 144, 60, 100, 5, 20, 177, 7, 100, 255, 47, 0];
    let xmi = XmiFile::new(&song_with(&events)).unwrap();
    let track = xmi.build_track_events_data();
    let expected: Vec<u8> = vec![
        0, 144, 60, 100, 10, 128, 60, 0, 10, 144, 60, 100, 5, 128, 60, 0, 15, 177, 7, 100, 0, 255, 47,
        0,
    ];
    assert_eq!(track, expected);
    let offs = track.windows(3).filter(|w| w == &[128, 60, 0]).count();
    assert_eq!(offs, 2);
}

#[test]
fn xmi_note_past_the_song_gets_no_note_off() {
    // Key 60 for 100 ticks at 0; the song ends at 10.
    let events = [144, 60, 100, 100, 10, 177, 7, 100, 255, 47, 0];
    let xmi = XmiFile::new(&song_with(&events)).unwrap();
    let track = xmi.build_track_events_data();
    let expected: Vec<u8> = vec![0, 144, 60, 100, 10, 177, 7, 100, 0, 255, 47, 0];
    assert_eq!(track, expected);
}
