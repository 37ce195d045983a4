//! The decoded representation of a MIDI file, and its mathematical model.
use vstd::prelude::*;

verus! {

/// The contents of the "MThd" chunk.
#[derive(Clone, Copy, Debug, PartialEq, Eq, Structural)]
pub struct MidiHeader {
    pub format: u16,
    pub track_count: u16,
    pub division: u16,
}

/// One decoded event of a track.
#[derive(Clone, Debug, PartialEq, Eq)]
pub enum Event {
    NoteOff { channel: u8, note: u8, velocity: u8 },
    NoteOn { channel: u8, note: u8, velocity: u8 },
    PolyphonicKeyPressure { channel: u8, note: u8, pressure: u8 },
    ControlChange { channel: u8, controller: u8, value: u8 },
    ProgramChange { channel: u8, program: u8 },
    ChannelPressure { channel: u8, pressure: u8 },
    PitchBend { channel: u8, value: u16 },
    SystemExclusive { data: Vec<u8> },
    Meta { meta_type: u8, data: Vec<u8> },
    Unknown { status_byte: u8, data: Vec<u8> },
}

/// An event with the ticks elapsed since the previous event of its track.
#[derive(Clone, Debug, PartialEq, Eq)]
pub struct TrackEvent {
    pub delta_time: u32,
    pub event: Event,
}

/// The events of one "MTrk" chunk, in stream order.
#[derive(Clone, Debug, PartialEq, Eq)]
pub struct MidiTrack {
    pub events: Vec<TrackEvent>,
}

/// A whole decoded file.
#[derive(Clone, Debug, PartialEq, Eq)]
pub struct MidiFile {
    pub header: MidiHeader,
    pub tracks: Vec<MidiTrack>,
}

/// The model of an [`Event`], with byte payloads as sequences.
pub enum EventModel {
    NoteOff { channel: u8, note: u8, velocity: u8 },
    NoteOn { channel: u8, note: u8, velocity: u8 },
    PolyphonicKeyPressure { channel: u8, note: u8, pressure: u8 },
    ControlChange { channel: u8, controller: u8, value: u8 },
    ProgramChange { channel: u8, program: u8 },
    ChannelPressure { channel: u8, pressure: u8 },
    PitchBend { channel: u8, value: u16 },
    SystemExclusive { data: Seq<u8> },
    Meta { meta_type: u8, data: Seq<u8> },
    Unknown { status_byte: u8, data: Seq<u8> },
}

/// The model of a [`TrackEvent`].
pub struct TrackEventModel {
    pub delta_time: u32,
    pub event: EventModel,
}

/// The model of a [`MidiTrack`].
pub struct MidiTrackModel {
    pub events: Seq<TrackEventModel>,
}

/// The model of a [`MidiFile`].
pub struct MidiFileModel {
    pub header: MidiHeader,
    pub tracks: Seq<MidiTrackModel>,
}

impl View for Event {
    type V = EventModel;

    open spec fn view(&self) -> EventModel {
        match self {
            Event::NoteOff { channel, note, velocity } => EventModel::NoteOff {
                channel: *channel,
                note: *note,
                velocity: *velocity,
            },
            Event::NoteOn { channel, note, velocity } => EventModel::NoteOn {
                channel: *channel,
                note: *note,
                velocity: *velocity,
            },
            Event::PolyphonicKeyPressure { channel, note, pressure } =>
                EventModel::PolyphonicKeyPressure {
                channel: *channel,
                note: *note,
                pressure: *pressure,
            },
            Event::ControlChange { channel, controller, value } => EventModel::ControlChange {
                channel: *channel,
                controller: *controller,
                value: *value,
            },
            Event::ProgramChange { channel, program } => EventModel::ProgramChange {
                channel: *channel,
                program: *program,
            },
            Event::ChannelPressure { channel, pressure } => EventModel::ChannelPressure {
                channel: *channel,
                pressure: *pressure,
            },
            Event::PitchBend { channel, value } => EventModel::PitchBend {
                channel: *channel,
                value: *value,
            },
            Event::SystemExclusive { data } => EventModel::SystemExclusive { data: data@ },
            Event::Meta { meta_type, data } => EventModel::Meta {
                meta_type: *meta_type,
                data: data@,
            },
            Event::Unknown { status_byte, data } => EventModel::Unknown {
                status_byte: *status_byte,
                data: data@,
            },
        }
    }
}

impl View for TrackEvent {
    type V = TrackEventModel;

    open spec fn view(&self) -> TrackEventModel {
        TrackEventModel { delta_time: self.delta_time, event: self.event@ }
    }
}

/// The models of a sequence of track events.
pub open spec fn events_view(s: Seq<TrackEvent>) -> Seq<TrackEventModel> {
    s.map_values(|e: TrackEvent| e@)
}

impl View for MidiTrack {
    type V = MidiTrackModel;

    open spec fn view(&self) -> MidiTrackModel {
        MidiTrackModel { events: events_view(self.events@) }
    }
}

/// The models of a sequence of tracks.
pub open spec fn tracks_view(s: Seq<MidiTrack>) -> Seq<MidiTrackModel> {
    s.map_values(|t: MidiTrack| t@)
}

impl View for MidiFile {
    type V = MidiFileModel;

    open spec fn view(&self) -> MidiFileModel {
        MidiFileModel { header: self.header, tracks: tracks_view(self.tracks@) }
    }
}

} // verus!
