//! A parser that owns the bytes of one MIDI file.
use vstd::prelude::*;

use crate::cursor::DecodeError;
use crate::decode::{decode_file, spec_file};
use crate::midi::MidiFile;

verus! {

/// Holds the bytes of a MIDI file until they are decoded.
pub struct MidiParser {
    data: Vec<u8>,
}

impl MidiParser {
    /// The bytes held.
    pub closed spec fn bytes(&self) -> Seq<u8> {
        self.data@
    }

    /// A parser for the file whose bytes are `data`.
    pub fn new(data: Vec<u8>) -> (r: MidiParser)
        ensures
            r.bytes() == data@,
    {
        MidiParser { data }
    }

    /// Decodes the bytes held; the bytes themselves are left as they were.
    pub fn parse(&self) -> (r: Result<MidiFile, DecodeError>)
        ensures
            spec_file(self.bytes()) == match r {
                Ok(f) => Ok(f@),
                Err(e) => Err(e),
            },
    {
        decode_file(self.data.as_slice())
    }
}

} // verus!
