use midi_parser::{
    decode_event, decode_file, decode_header, decode_track, decode_vlq, encode_vlq,
    read_bytes_until_msb_zero, read_vlq, ByteCursor, DecodeError, Event, MidiHeader, MidiParser,
};

fn header(format: u16, track_count: u16, division: u16) -> Vec<u8> {
    let mut v = vec![0x4D, 0x54, 0x68, 0x64, 0, 0, 0, 6];
    v.extend_from_slice(&format.to_be_bytes());
    v.extend_from_slice(&track_count.to_be_bytes());
    v.extend_from_slice(&division.to_be_bytes());
    v
}

fn track(body: &[u8]) -> Vec<u8> {
    let mut v = vec![0x4D, 0x54, 0x72, 0x6B];
    v.extend_from_slice(&(body.len() as u32).to_be_bytes());
    v.extend_from_slice(body);
    v
}

fn two_track_file() -> Vec<u8> {
    let mut bytes = header(1, 2, 96);
    bytes.extend(track(&[0x00, 0x90, 60, 100, 0x60, 0x80, 60, 0, 0x00, 0xFF, 0x2F, 0x00]));
    bytes.extend(track(&[0x00, 0xFF, 0x51, 0x03, 0x07, 0xA1, 0x20, 0x00, 0xFF, 0x2F, 0x00]));
    bytes
}

#[test]
fn cursor_reads_big_endian() {
    let mut c = ByteCursor::new(vec![0x12, 0x34, 0x56, 0x78, 0x9A, 0xBC]);
    assert!(c.has_remaining());
    assert_eq!(c.read_u8(), Ok(0x12));
    assert_eq!(c.read_u16_be(), Ok(0x3456));
    assert_eq!(c.position(), 3);
    assert_eq!(c.read_u32_be(), Err(DecodeError::OutOfData));
    assert_eq!(c.position(), 3);
    assert_eq!(c.read_bytes(3), Ok(vec![0x78, 0x9A, 0xBC]));
    assert!(!c.has_remaining());
    assert_eq!(c.read_u8(), Err(DecodeError::OutOfData));
}

#[test]
fn cursor_reads_u32_and_refuses_short_read_bytes() {
    let mut c = ByteCursor::new(vec![0x00, 0x00, 0x01, 0x02, 0xAA]);
    assert_eq!(c.read_u32_be(), Ok(0x0102));
    assert_eq!(c.read_bytes(2), Err(DecodeError::OutOfData));
    assert_eq!(c.position(), 4);
    assert_eq!(c.peek_u8(), Ok(0xAA));
    assert_eq!(c.position(), 4);
}

#[test]
fn bytes_until_msb_zero() {
    let mut c = ByteCursor::new(vec![0x81, 0x82, 0x03, 0x04]);
    assert_eq!(read_bytes_until_msb_zero(&mut c), Ok(vec![0x81, 0x82, 0x03]));
    assert_eq!(c.position(), 3);
    let mut d = ByteCursor::new(vec![0x81, 0x82]);
    assert_eq!(read_bytes_until_msb_zero(&mut d), Err(DecodeError::OutOfData));
}

#[test]
fn vlq_exact_values() {
    assert_eq!(decode_vlq(&[0x00]), Ok(0));
    assert_eq!(decode_vlq(&[0x7F]), Ok(0x7F));
    assert_eq!(decode_vlq(&[0x81, 0x00]), Ok(0x80));
    assert_eq!(decode_vlq(&[0xC0, 0x00]), Ok(0x2000));
    assert_eq!(decode_vlq(&[0xFF, 0x7F]), Ok(0x3FFF));
    assert_eq!(decode_vlq(&[0x81, 0x80, 0x00]), Ok(0x4000));
    assert_eq!(decode_vlq(&[0xFF, 0xFF, 0xFF, 0x7F]), Ok(0x0FFF_FFFF));
    assert_eq!(decode_vlq(&[0x81, 0x80, 0x80, 0x80, 0x00]), Err(DecodeError::MalformedVlq));
    assert_eq!(decode_vlq(&[0x81]), Err(DecodeError::OutOfData));
    assert_eq!(decode_vlq(&[]), Err(DecodeError::OutOfData));
}

#[test]
fn vlq_encodings() {
    assert_eq!(encode_vlq(0), vec![0x00]);
    assert_eq!(encode_vlq(0x40), vec![0x40]);
    assert_eq!(encode_vlq(0x80), vec![0x81, 0x00]);
    assert_eq!(encode_vlq(0x3FFF), vec![0xFF, 0x7F]);
    assert_eq!(encode_vlq(0x0010_0000), vec![0xC0, 0x80, 0x00]);
    assert_eq!(encode_vlq(0x0FFF_FFFF), vec![0xFF, 0xFF, 0xFF, 0x7F]);
}

#[test]
fn vlq_round_trip() {
    for v in [0u32, 1, 0x7F, 0x80, 0x2000, 0x3FFF, 0x4000, 0x1F_FFFF, 0x20_0000, 0x0FFF_FFFF] {
        assert_eq!(decode_vlq(&encode_vlq(v)), Ok(v));
    }
}

#[test]
fn read_vlq_advances_past_quantity() {
    let mut c = ByteCursor::new(vec![0x83, 0x60, 0x90]);
    assert_eq!(read_vlq(&mut c), Ok(0x1E0));
    assert_eq!(c.position(), 2);
}

#[test]
fn running_status_note_on() {
    let mut c = ByteCursor::new(vec![0x90, 60, 100, 0x3C, 40]);
    let (first, rs) = decode_event(&mut c, None).unwrap();
    assert_eq!(first, Event::NoteOn { channel: 0, note: 60, velocity: 100 });
    assert_eq!(rs, Some(0x90));
    let (second, rs) = decode_event(&mut c, rs).unwrap();
    assert_eq!(second, Event::NoteOn { channel: 0, note: 0x3C, velocity: 40 });
    assert_eq!(rs, Some(0x90));
    assert!(!c.has_remaining());
}

#[test]
fn missing_running_status() {
    let mut c = ByteCursor::new(vec![0x3C, 40]);
    assert_eq!(decode_event(&mut c, None), Err(DecodeError::MissingRunningStatus));
}

#[test]
fn pitch_bend_center() {
    let mut c = ByteCursor::new(vec![0x00, 0x40]);
    let (ev, rs) = decode_event(&mut c, Some(0xE0)).unwrap();
    assert_eq!(ev, Event::PitchBend { channel: 0, value: 8192 });
    assert_eq!(rs, Some(0xE0));
    let mut d = ByteCursor::new(vec![0xE3, 0x7F, 0x7F]);
    let (ev, _) = decode_event(&mut d, None).unwrap();
    assert_eq!(ev, Event::PitchBend { channel: 3, value: 16383 });
}

#[test]
fn meta_tempo_event() {
    let mut c = ByteCursor::new(vec![0xFF, 0x51, 0x03, 0x07, 0xA1, 0x20]);
    let (ev, rs) = decode_event(&mut c, Some(0x91)).unwrap();
    assert_eq!(ev, Event::Meta { meta_type: 0x51, data: vec![0x07, 0xA1, 0x20] });
    assert_eq!(rs, Some(0x91));
    assert_eq!(c.position(), 6);
}

#[test]
fn meta_keeps_running_status_in_track() {
    let body = [0x00, 0x90, 60, 100, 0x00, 0xFF, 0x01, 0x01, 0x41, 0x10, 62, 70];
    let mut c = ByteCursor::new(track(&body));
    let t = decode_track(&mut c).unwrap();
    assert_eq!(t.events.len(), 3);
    assert_eq!(t.events[1].event, Event::Meta { meta_type: 0x01, data: vec![0x41] });
    assert_eq!(t.events[2].delta_time, 0x10);
    assert_eq!(t.events[2].event, Event::NoteOn { channel: 0, note: 62, velocity: 70 });
}

#[test]
fn channel_voice_kinds() {
    let bytes = vec![
        0x85, 1, 2, 0x96, 3, 4, 0xA7, 5, 6, 0xB8, 7, 8, 0xC9, 9, 0xDA, 10, 0xEB, 0x01, 0x02,
    ];
    let mut c = ByteCursor::new(bytes);
    let mut rs = None;
    let mut events = Vec::new();
    while c.has_remaining() {
        let (ev, next) = decode_event(&mut c, rs).unwrap();
        events.push(ev);
        rs = next;
    }
    assert_eq!(
        events,
        vec![
            Event::NoteOff { channel: 5, note: 1, velocity: 2 },
            Event::NoteOn { channel: 6, note: 3, velocity: 4 },
            Event::PolyphonicKeyPressure { channel: 7, note: 5, pressure: 6 },
            Event::ControlChange { channel: 8, controller: 7, value: 8 },
            Event::ProgramChange { channel: 9, program: 9 },
            Event::ChannelPressure { channel: 10, pressure: 10 },
            Event::PitchBend { channel: 11, value: 0x101 },
        ]
    );
    assert_eq!(rs, Some(0xEB));
}

#[test]
fn system_exclusive_and_unknown() {
    let mut c = ByteCursor::new(vec![0xF0, 0x02, 0x7E, 0xF7, 0xF1, 0x05]);
    let (ev, rs) = decode_event(&mut c, None).unwrap();
    assert_eq!(ev, Event::SystemExclusive { data: vec![0x7E, 0xF7] });
    assert_eq!(rs, None);
    let (ev, rs) = decode_event(&mut c, rs).unwrap();
    assert_eq!(ev, Event::Unknown { status_byte: 0xF1, data: vec![] });
    assert_eq!(rs, None);
    assert_eq!(c.position(), 5);
}

#[test]
fn truncated_track_chunk() {
    let mut bytes = header(0, 1, 96);
    bytes.extend_from_slice(&[0x4D, 0x54, 0x72, 0x6B, 0, 0, 0, 10, 0x00, 0x90, 60, 100, 0x00]);
    assert_eq!(decode_file(&bytes), Err(DecodeError::TruncatedTrack));
}

#[test]
fn event_past_chunk_end_is_truncated() {
    let mut c = ByteCursor::new(track(&[0x00, 0x90, 60]));
    assert_eq!(decode_track(&mut c), Err(DecodeError::TruncatedTrack));
}

#[test]
fn malformed_header_magic() {
    let mut bytes = two_track_file();
    bytes[0] = b'X';
    assert_eq!(decode_file(&bytes), Err(DecodeError::MalformedChunk));
    assert_eq!(decode_file(b"XThd"), Err(DecodeError::MalformedChunk));
}

#[test]
fn malformed_track_magic() {
    let mut bytes = header(0, 1, 96);
    bytes.extend_from_slice(&[0x4D, 0x54, 0x72, 0x6C, 0, 0, 0, 0]);
    assert_eq!(decode_file(&bytes), Err(DecodeError::MalformedChunk));
}

#[test]
fn header_too_short_or_missing() {
    assert_eq!(decode_file(&[0x4D, 0x54, 0x68]), Err(DecodeError::OutOfData));
    assert_eq!(decode_file(&[0x4D, 0x54, 0x68, 0x64, 0, 0, 0, 6, 0, 1]), Err(DecodeError::OutOfData));
    assert_eq!(decode_file(&[0x4D, 0x54, 0x68, 0x64, 0, 0, 0, 4, 0, 1, 0, 1]), Err(DecodeError::MalformedChunk));
}

#[test]
fn header_extra_bytes_are_skipped() {
    let mut c = ByteCursor::new(vec![0x4D, 0x54, 0x68, 0x64, 0, 0, 0, 8, 0, 1, 0, 2, 0x01, 0xE0, 0xAA, 0xBB]);
    assert_eq!(decode_header(&mut c), Ok(MidiHeader { format: 1, track_count: 2, division: 0x01E0 }));
    assert_eq!(c.position(), 16);
}

#[test]
fn fewer_tracks_than_declared() {
    let mut bytes = header(1, 2, 96);
    bytes.extend(track(&[0x00, 0xFF, 0x2F, 0x00]));
    assert_eq!(decode_file(&bytes), Err(DecodeError::UnexpectedEof));
}

#[test]
fn track_count_matches_header() {
    let f = decode_file(&two_track_file()).unwrap();
    assert_eq!(f.header, MidiHeader { format: 1, track_count: 2, division: 96 });
    assert_eq!(f.tracks.len(), 2);
    assert_eq!(f.tracks[0].events.len(), 3);
    assert_eq!(f.tracks[0].events[1].delta_time, 0x60);
    assert_eq!(f.tracks[0].events[1].event, Event::NoteOff { channel: 0, note: 60, velocity: 0 });
    assert_eq!(f.tracks[1].events[0].event, Event::Meta { meta_type: 0x51, data: vec![0x07, 0xA1, 0x20] });
}

#[test]
fn empty_file_without_tracks() {
    let f = decode_file(&header(0, 0, 480)).unwrap();
    assert!(f.tracks.is_empty());
    let mut with_empty_track = header(0, 1, 480);
    with_empty_track.extend(track(&[]));
    let g = decode_file(&with_empty_track).unwrap();
    assert_eq!(g.tracks.len(), 1);
    assert!(g.tracks[0].events.is_empty());
}

#[test]
fn decoding_twice_gives_equal_files() {
    let bytes = two_track_file();
    assert_eq!(decode_file(&bytes), decode_file(&bytes));
    let parser = MidiParser::new(bytes.clone());
    assert_eq!(parser.parse(), parser.parse());
    assert_eq!(parser.parse(), decode_file(&bytes));
}
