//! Decoding of Standard MIDI Files into headers, tracks and timed events.
pub mod cursor;
pub mod decode;
pub mod event;
pub mod midi;
pub mod parser;
pub mod vlq;

pub use cursor::{ByteCursor, DecodeError};
pub use decode::{decode_events, decode_file, decode_header, decode_track};
pub use event::decode_event;
pub use midi::{Event, MidiFile, MidiHeader, MidiTrack, TrackEvent};
pub use parser::MidiParser;
pub use vlq::{decode_vlq, encode_vlq, read_bytes_until_msb_zero, read_vlq};
