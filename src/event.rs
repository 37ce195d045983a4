//! Decoding of single events, with running status threaded between calls.
use vstd::prelude::*;

use crate::cursor::{ByteCursor, DecodeError};
use crate::midi::{Event, EventModel};
use crate::vlq::{lemma_spec_vlq_advances, read_vlq, spec_vlq};

verus! {

/// Whether `s` is a channel-voice status byte (`0x80` to `0xEF`).
pub open spec fn is_channel_status(s: u8) -> bool {
    0x80 <= s < 0xF0
}

/// The number of data bytes that follow a channel-voice status of kind `kind`
/// (the high nibble).
pub open spec fn channel_data_len(kind: u8) -> int {
    if kind == 0xC || kind == 0xD {
        1
    } else {
        2
    }
}

/// The fourteen-bit value of a pitch bend whose data bytes are `lsb` then `msb`.
pub open spec fn pitch_bend_value(lsb: u8, msb: u8) -> u16 {
    ((msb % 128) as int * 128 + (lsb % 128) as int) as u16
}

/// The channel-voice event of kind `kind` on `channel`, with data bytes `d0` and `d1`.
pub open spec fn channel_event(kind: u8, channel: u8, d0: u8, d1: u8) -> EventModel {
    if kind == 0x8 {
        EventModel::NoteOff { channel, note: d0, velocity: d1 }
    } else if kind == 0x9 {
        EventModel::NoteOn { channel, note: d0, velocity: d1 }
    } else if kind == 0xA {
        EventModel::PolyphonicKeyPressure { channel, note: d0, pressure: d1 }
    } else if kind == 0xB {
        EventModel::ControlChange { channel, controller: d0, value: d1 }
    } else if kind == 0xC {
        EventModel::ProgramChange { channel, program: d0 }
    } else if kind == 0xD {
        EventModel::ChannelPressure { channel, pressure: d0 }
    } else {
        EventModel::PitchBend { channel, value: pitch_bend_value(d0, d1) }
    }
}

/// Decoding of the bytes at `q` that follow the status `status`: the event and the
/// position after it.
pub open spec fn spec_event_body(b: Seq<u8>, status: u8, q: int) -> Result<
    (EventModel, int),
    DecodeError,
> {
    if is_channel_status(status) {
        let kind = status / 16;
        let n = channel_data_len(kind);
        if q + n > b.len() {
            Err(DecodeError::OutOfData)
        } else {
            Ok((channel_event(kind, status % 16, b[q], b[q + 1]), q + n))
        }
    } else if status == 0xF0 || status == 0xF7 {
        match spec_vlq(b, q) {
            Err(e) => Err(e),
            Ok((n, r)) => if r + n > b.len() {
                Err(DecodeError::OutOfData)
            } else {
                Ok((EventModel::SystemExclusive { data: b.subrange(r, r + n) }, r + n))
            },
        }
    } else if status == 0xFF {
        if q >= b.len() {
            Err(DecodeError::OutOfData)
        } else {
            match spec_vlq(b, q + 1) {
                Err(e) => Err(e),
                Ok((n, r)) => if r + n > b.len() {
                    Err(DecodeError::OutOfData)
                } else {
                    Ok((EventModel::Meta { meta_type: b[q], data: b.subrange(r, r + n) }, r + n))
                },
            }
        }
    } else {
        Ok((EventModel::Unknown { status_byte: status, data: Seq::empty() }, q))
    }
}

/// Decoding of the event at `p` under running status `rs`: the event, the running
/// status after it, and the position after it.
pub open spec fn spec_event(b: Seq<u8>, p: int, rs: Option<u8>) -> Result<
    (EventModel, Option<u8>, int),
    DecodeError,
> {
    if p < 0 || p >= b.len() {
        Err(DecodeError::OutOfData)
    } else {
        let (status, q, next_rs) = if b[p] >= 0x80 {
            (b[p], p + 1, if is_channel_status(b[p]) { Some(b[p]) } else { rs })
        } else {
            (rs->Some_0, p, rs)
        };
        if b[p] < 0x80 && rs is None {
            Err(DecodeError::MissingRunningStatus)
        } else {
            match spec_event_body(b, status, q) {
                Err(e) => Err(e),
                Ok((ev, r)) => Ok((ev, next_rs, r)),
            }
        }
    }
}

/// A successful decoding ends at or after its start and within the buffer.
pub proof fn lemma_spec_event_advances(b: Seq<u8>, p: int, rs: Option<u8>)
    requires
        0 <= p,
    ensures
        spec_event(b, p, rs) matches Ok((_, _, r)) ==> p <= r <= b.len(),
{
    if p < b.len() {
        lemma_spec_vlq_advances(b, p + 1);
        lemma_spec_vlq_advances(b, p + 2);
        lemma_spec_vlq_advances(b, p);
    }
}

/// Reads a length-prefixed block of bytes: a variable-length quantity, then that many bytes.
fn read_counted_bytes(c: &mut ByteCursor) -> (r: Result<Vec<u8>, DecodeError>)
    requires
        old(c).wf(),
    ensures
        final(c).wf(),
        final(c).bytes() == old(c).bytes(),
        match spec_vlq(old(c).bytes(), old(c).pos()) {
            Err(e) => r == Err::<Vec<u8>, DecodeError>(e),
            Ok((n, q)) => if q + n > old(c).bytes().len() {
                r == Err::<Vec<u8>, DecodeError>(DecodeError::OutOfData)
            } else {
                r is Ok && r->Ok_0@ == old(c).bytes().subrange(q, q + n) && final(c).pos() == q
                    + n
            },
        },
{
    let n = read_vlq(c)?;
    c.read_bytes(n as usize)
}

/// Decodes what follows the status byte `status`.
fn decode_event_body(c: &mut ByteCursor, status: u8) -> (r: Result<Event, DecodeError>)
    requires
        old(c).wf(),
    ensures
        final(c).wf(),
        final(c).bytes() == old(c).bytes(),
        spec_event_body(old(c).bytes(), status, old(c).pos()) == match r {
            Ok(ev) => Ok((ev@, final(c).pos())),
            Err(e) => Err(e),
        },
{
    if 0x80 <= status && status < 0xF0 {
        let channel = status % 16;
        let kind = status / 16;
        let d0 = c.read_u8()?;
        if kind == 0xC {
            return Ok(Event::ProgramChange { channel, program: d0 });
        } else if kind == 0xD {
            return Ok(Event::ChannelPressure { channel, pressure: d0 });
        }
        let d1 = c.read_u8()?;
        let ev = if kind == 0x8 {
            Event::NoteOff { channel, note: d0, velocity: d1 }
        } else if kind == 0x9 {
            Event::NoteOn { channel, note: d0, velocity: d1 }
        } else if kind == 0xA {
            Event::PolyphonicKeyPressure { channel, note: d0, pressure: d1 }
        } else if kind == 0xB {
            Event::ControlChange { channel, controller: d0, value: d1 }
        } else {
            Event::PitchBend { channel, value: (d1 % 128) as u16 * 128 + (d0 % 128) as u16 }
        };
        Ok(ev)
    } else if status == 0xF0 || status == 0xF7 {
        let data = read_counted_bytes(c)?;
        Ok(Event::SystemExclusive { data })
    } else if status == 0xFF {
        let meta_type = c.read_u8()?;
        let data = read_counted_bytes(c)?;
        Ok(Event::Meta { meta_type, data })
    } else {
        Ok(Event::Unknown { status_byte: status, data: Vec::new() })
    }
}

/// Decodes one event at the cursor under running status `running_status`, and returns
/// it with the running status that holds after it.
///
/// A byte with its high bit set is a new status and is consumed; a channel-voice status
/// becomes the running status. A byte with its high bit clear is the first data byte of
/// an event with the running status.
pub fn decode_event(c: &mut ByteCursor, running_status: Option<u8>) -> (r: Result<
    (Event, Option<u8>),
    DecodeError,
>)
    requires
        old(c).wf(),
    ensures
        final(c).wf(),
        final(c).bytes() == old(c).bytes(),
        spec_event(old(c).bytes(), old(c).pos(), running_status) == match r {
            Ok((ev, rs)) => Ok((ev@, rs, final(c).pos())),
            Err(e) => Err(e),
        },
{
    let first = c.peek_u8()?;
    let status: u8;
    let next: Option<u8>;
    if first >= 0x80 {
        let _ = c.read_u8();
        status = first;
        next = if first < 0xF0 {
            Some(first)
        } else {
            running_status
        };
    } else {
        match running_status {
            None => {
                return Err(DecodeError::MissingRunningStatus);
            },
            Some(s) => {
                status = s;
                next = running_status;
            },
        }
    }
    let ev = decode_event_body(c, status)?;
    Ok((ev, next))
}

} // verus!
