//! Decoding of track chunks and of whole files.
use vstd::prelude::*;

use crate::cursor::{be16, be32, ByteCursor, DecodeError};
use crate::event::{decode_event, lemma_spec_event_advances, spec_event};
use crate::midi::{
    events_view, tracks_view, MidiFile, MidiFileModel, MidiHeader, MidiTrack, MidiTrackModel,
    TrackEvent, TrackEventModel,
};
use crate::vlq::{lemma_spec_vlq_advances, read_vlq, spec_vlq};

verus! {

/// The magic tag of the header chunk, "MThd".
pub open spec fn header_magic() -> Seq<u8> {
    seq![0x4Du8, 0x54u8, 0x68u8, 0x64u8]
}

/// The magic tag of a track chunk, "MTrk".
pub open spec fn track_magic() -> Seq<u8> {
    seq![0x4Du8, 0x54u8, 0x72u8, 0x6Bu8]
}

/// Decoding of one delta time and the event after it, at `p` under running status `rs`:
/// the timed event, the running status after it, and the position after it.
#[verifier::opaque]
pub open spec fn spec_track_event(b: Seq<u8>, p: int, rs: Option<u8>) -> Result<
    (TrackEventModel, Option<u8>, int),
    DecodeError,
> {
    match spec_vlq(b, p) {
        Err(e) => Err(e),
        Ok((delta_time, q)) => match spec_event(b, q, rs) {
            Err(e) => Err(e),
            Ok((event, next_rs, r)) => Ok((TrackEventModel { delta_time, event }, next_rs, r)),
        },
    }
}

/// A successful decoding of a timed event ends after its start and within the buffer.
pub proof fn lemma_spec_track_event_advances(b: Seq<u8>, p: int, rs: Option<u8>)
    requires
        0 <= p,
    ensures
        spec_track_event(b, p, rs) matches Ok((_, _, r)) ==> p < r <= b.len(),
{
    reveal(spec_track_event);
    lemma_spec_vlq_advances(b, p);
    if let Ok((_, q)) = spec_vlq(b, p) {
        lemma_spec_event_advances(b, q, rs);
    }
}

/// Decoding of the event stream of a track from `p` to the end of `b`, under running
/// status `rs`, after the events `acc`.
pub open spec fn spec_events(b: Seq<u8>, p: int, rs: Option<u8>, acc: Seq<TrackEventModel>) -> Result<
    Seq<TrackEventModel>,
    DecodeError,
>
    decreases b.len() - p,
    via spec_events_decreases
{
    if p >= b.len() {
        Ok(acc)
    } else {
        match spec_track_event(b, p, rs) {
            Err(e) => Err(e),
            Ok((te, next_rs, r)) => spec_events(b, r, next_rs, acc.push(te)),
        }
    }
}

#[via_fn]
proof fn spec_events_decreases(b: Seq<u8>, p: int, rs: Option<u8>, acc: Seq<TrackEventModel>) {
    if 0 <= p < b.len() {
        lemma_spec_track_event_advances(b, p, rs);
    } else if p < 0 {
        reveal(spec_track_event);
    }
}

/// Decoding of the track chunk at `p`: the track and the position after the chunk.
pub open spec fn spec_track(b: Seq<u8>, p: int) -> Result<(MidiTrackModel, int), DecodeError> {
    if p < 0 || p + 4 > b.len() {
        Err(DecodeError::OutOfData)
    } else if b.subrange(p, p + 4) != track_magic() {
        Err(DecodeError::MalformedChunk)
    } else if p + 8 > b.len() {
        Err(DecodeError::OutOfData)
    } else {
        let n = be32(b, p + 4);
        if p + 8 + n > b.len() {
            Err(DecodeError::TruncatedTrack)
        } else {
            match spec_events(b.subrange(p + 8, p + 8 + n), 0, None, seq![]) {
                Err(DecodeError::OutOfData) => Err(DecodeError::TruncatedTrack),
                Err(e) => Err(e),
                Ok(events) => Ok((MidiTrackModel { events }, p + 8 + n)),
            }
        }
    }
}

/// Decoding of the header chunk at `p`: the header and the position after the chunk.
pub open spec fn spec_header(b: Seq<u8>, p: int) -> Result<(MidiHeader, int), DecodeError> {
    if p < 0 || p + 4 > b.len() {
        Err(DecodeError::OutOfData)
    } else if b.subrange(p, p + 4) != header_magic() {
        Err(DecodeError::MalformedChunk)
    } else if p + 8 > b.len() {
        Err(DecodeError::OutOfData)
    } else {
        let n = be32(b, p + 4);
        if n < 6 {
            Err(DecodeError::MalformedChunk)
        } else if p + 8 + n > b.len() {
            Err(DecodeError::OutOfData)
        } else {
            Ok(
                (
                    MidiHeader {
                        format: be16(b, p + 8),
                        track_count: be16(b, p + 10),
                        division: be16(b, p + 12),
                    },
                    p + 8 + n,
                ),
            )
        }
    }
}

/// Decoding of `k` consecutive track chunks from `p`, after the tracks `acc`.
pub open spec fn spec_tracks(b: Seq<u8>, p: int, k: nat, acc: Seq<MidiTrackModel>) -> Result<
    Seq<MidiTrackModel>,
    DecodeError,
>
    decreases k,
{
    if k == 0 {
        Ok(acc)
    } else {
        match spec_track(b, p) {
            Err(DecodeError::OutOfData) => Err(DecodeError::UnexpectedEof),
            Err(e) => Err(e),
            Ok((t, q)) => spec_tracks(b, q, (k - 1) as nat, acc.push(t)),
        }
    }
}

/// Decoding of a whole file.
pub open spec fn spec_file(b: Seq<u8>) -> Result<MidiFileModel, DecodeError> {
    match spec_header(b, 0) {
        Err(e) => Err(e),
        Ok((header, p)) => match spec_tracks(b, p, header.track_count as nat, seq![]) {
            Err(e) => Err(e),
            Ok(tracks) => Ok(MidiFileModel { header, tracks }),
        },
    }
}

/// Whether the four bytes of `m` are `t0`, `t1`, `t2`, `t3`.
fn is_tag(m: &Vec<u8>, t0: u8, t1: u8, t2: u8, t3: u8) -> (r: bool)
    requires
        m.len() == 4,
    ensures
        r == (m@ == seq![t0, t1, t2, t3]),
{
    let r = m[0] == t0 && m[1] == t1 && m[2] == t2 && m[3] == t3;
    assert(r ==> m@ =~= seq![t0, t1, t2, t3]);
    r
}

/// Decodes one delta time and the event after it.
fn decode_track_event(c: &mut ByteCursor, running_status: Option<u8>) -> (r: Result<
    (TrackEvent, Option<u8>),
    DecodeError,
>)
    requires
        old(c).wf(),
        old(c).pos() < old(c).bytes().len(),
    ensures
        final(c).wf(),
        final(c).bytes() == old(c).bytes(),
        spec_track_event(old(c).bytes(), old(c).pos(), running_status) == match r {
            Ok((te, next)) => Ok((te@, next, final(c).pos())),
            Err(e) => Err(e),
        },
{
    reveal(spec_track_event);
    let delta_time = read_vlq(c)?;
    let (event, next) = decode_event(c, running_status)?;
    Ok((TrackEvent { delta_time, event }, next))
}

/// Decodes the event stream from the cursor to the end of its buffer.
pub fn decode_events(c: &mut ByteCursor) -> (r: Result<Vec<TrackEvent>, DecodeError>)
    requires
        old(c).wf(),
    ensures
        spec_events(old(c).bytes(), old(c).pos(), None, seq![]) == match r {
            Ok(v) => Ok(events_view(v@)),
            Err(e) => Err(e),
        },
{
    let ghost b = c.bytes();
    let ghost p0 = c.pos();
    let mut events: Vec<TrackEvent> = Vec::new();
    let mut running_status: Option<u8> = None;
    assert(events_view(events@) =~= Seq::<TrackEventModel>::empty());
    while c.has_remaining()
        invariant
            c.wf(),
            c.bytes() == b,
            old(c).bytes() == b,
            old(c).pos() == p0,
            spec_events(b, c.pos(), running_status, events_view(events@)) == spec_events(
                b,
                p0,
                None,
                seq![],
            ),
        decreases b.len() - c.pos(),
    {
        let ghost acc = events_view(events@);
        proof {
            lemma_spec_track_event_advances(b, c.pos(), running_status);
        }
        let ghost p = c.pos();
        let (te, next) = match decode_track_event(c, running_status) {
            Ok(x) => x,
            Err(e) => {
                assert(spec_events(b, p, running_status, acc) == Err::<
                    Seq<TrackEventModel>,
                    DecodeError,
                >(e));
                return Err(e);
            },
        };
        events.push(te);
        assert(events_view(events@) =~= acc.push(te@));
        running_status = next;
    }
    Ok(events)
}

/// Decodes one "MTrk" chunk: its magic tag, its length, and exactly that many bytes of
/// events.
pub fn decode_track(c: &mut ByteCursor) -> (r: Result<MidiTrack, DecodeError>)
    requires
        old(c).wf(),
    ensures
        final(c).wf(),
        final(c).bytes() == old(c).bytes(),
        spec_track(old(c).bytes(), old(c).pos()) == match r {
            Ok(t) => Ok((t@, final(c).pos())),
            Err(e) => Err(e),
        },
{
    let magic = c.read_bytes(4)?;
    if !is_tag(&magic, 0x4D, 0x54, 0x72, 0x6B) {
        return Err(DecodeError::MalformedChunk);
    }
    let n = c.read_u32_be()?;
    let chunk = match c.read_bytes(n as usize) {
        Ok(v) => v,
        Err(_) => {
            return Err(DecodeError::TruncatedTrack);
        },
    };
    let mut sub = ByteCursor::new(chunk);
    match decode_events(&mut sub) {
        Ok(events) => Ok(MidiTrack { events }),
        Err(DecodeError::OutOfData) => Err(DecodeError::TruncatedTrack),
        Err(e) => Err(e),
    }
}

/// Decodes the "MThd" chunk, skipping any bytes it holds beyond its three fields.
pub fn decode_header(c: &mut ByteCursor) -> (r: Result<MidiHeader, DecodeError>)
    requires
        old(c).wf(),
    ensures
        final(c).wf(),
        final(c).bytes() == old(c).bytes(),
        spec_header(old(c).bytes(), old(c).pos()) == match r {
            Ok(h) => Ok((h, final(c).pos())),
            Err(e) => Err(e),
        },
{
    let magic = c.read_bytes(4)?;
    if !is_tag(&magic, 0x4D, 0x54, 0x68, 0x64) {
        return Err(DecodeError::MalformedChunk);
    }
    let n = c.read_u32_be()?;
    if n < 6 {
        return Err(DecodeError::MalformedChunk);
    }
    let format = c.read_u16_be()?;
    let track_count = c.read_u16_be()?;
    let division = c.read_u16_be()?;
    let _ = c.read_bytes((n - 6) as usize)?;
    Ok(MidiHeader { format, track_count, division })
}

/// Decodes a whole file: the header, then exactly as many track chunks as it declares.
pub fn decode_file(bytes: &[u8]) -> (r: Result<MidiFile, DecodeError>)
    ensures
        spec_file(bytes@) == match r {
            Ok(f) => Ok(f@),
            Err(e) => Err(e),
        },
        r matches Ok(f) ==> f.tracks.len() == f.header.track_count,
{
    let mut c = ByteCursor::new(vstd::slice::slice_to_vec(bytes));
    let header = decode_header(&mut c)?;
    let count = header.track_count;
    let mut tracks: Vec<MidiTrack> = Vec::new();
    let mut i: u16 = 0;
    assert(tracks_view(tracks@) =~= Seq::<MidiTrackModel>::empty());
    while i < count
        invariant
            c.wf(),
            c.bytes() == bytes@,
            i <= count,
            tracks.len() == i,
            spec_header(bytes@, 0) == Ok::<(MidiHeader, int), DecodeError>(
                (header, spec_header(bytes@, 0)->Ok_0.1),
            ),
            count == header.track_count,
            spec_tracks(bytes@, c.pos(), (count - i) as nat, tracks_view(tracks@)) == spec_tracks(
                bytes@,
                spec_header(bytes@, 0)->Ok_0.1,
                count as nat,
                seq![],
            ),
        decreases count - i,
    {
        let track = match decode_track(&mut c) {
            Ok(t) => t,
            Err(DecodeError::OutOfData) => {
                return Err(DecodeError::UnexpectedEof);
            },
            Err(e) => {
                return Err(e);
            },
        };
        let ghost before = tracks_view(tracks@);
        tracks.push(track);
        assert(tracks_view(tracks@) =~= before.push(track@));
        i = i + 1;
    }
    Ok(MidiFile { header, tracks })
}

proof fn lemma_spec_tracks_len(b: Seq<u8>, p: int, k: nat, acc: Seq<MidiTrackModel>)
    ensures
        spec_tracks(b, p, k, acc) matches Ok(ts) ==> ts.len() == acc.len() + k,
    decreases k,
{
    if k > 0 {
        if let Ok((t, q)) = spec_track(b, p) {
            lemma_spec_tracks_len(b, q, (k - 1) as nat, acc.push(t));
        }
    }
}

/// Every successfully decoded file holds exactly as many tracks as its header declares.
pub proof fn lemma_track_count(b: Seq<u8>)
    ensures
        spec_file(b) matches Ok(f) ==> f.tracks.len() == f.header.track_count,
{
    if let Ok((h, p)) = spec_header(b, 0) {
        lemma_spec_tracks_len(b, p, h.track_count as nat, seq![]);
    }
}

/// Decoding is a function of the bytes alone: two decodings of the same buffer give
/// structurally equal files, or the same error.
pub proof fn lemma_decode_idempotent(
    b: Seq<u8>,
    r1: Result<MidiFile, DecodeError>,
    r2: Result<MidiFile, DecodeError>,
)
    requires
        spec_file(b) == match r1 {
            Ok(f) => Ok(f@),
            Err(e) => Err(e),
        },
        spec_file(b) == match r2 {
            Ok(f) => Ok(f@),
            Err(e) => Err(e),
        },
    ensures
        r1 is Ok <==> r2 is Ok,
        r1 matches Ok(f1) ==> r2 matches Ok(f2) && f1@ == f2@,
        r1 matches Err(e1) ==> r2 == Err::<MidiFile, DecodeError>(e1),
{
}

/// A buffer whose first four bytes are not "MThd" is rejected as a malformed chunk,
/// whatever follows them.
pub proof fn lemma_malformed_magic(b: Seq<u8>)
    requires
        b.len() >= 4,
        b.subrange(0, 4) != header_magic(),
    ensures
        spec_file(b) == Err::<MidiFileModel, DecodeError>(DecodeError::MalformedChunk),
{
}

} // verus!
