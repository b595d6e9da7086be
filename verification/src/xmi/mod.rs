//! Extended MIDI (XMI) music: parsing an `XMID` form and writing it out as a
//! single-track standard MIDI file.

pub mod event;
pub mod file;
pub mod notes;
pub mod smf;
pub mod varlen;

use vstd::prelude::*;

verus! {

/// A channel message of an XMI track. A note carries its own duration in XMI,
/// where a standard MIDI file has a separate note-off.
#[derive(Clone, Copy, Debug, PartialEq, Eq, Structural)]
pub enum XmiMidiMessage {
    NoteOn { key: u8, vel: u8, duration: u32 },
    Aftertouch { key: u8, vel: u8 },
    Controller { controller: u8, value: u8 },
    ProgramChange { program: u8 },
    ChannelAftertouch { vel: u8 },
    PitchBend { bend: PitchBend },
}

/// A fourteen-bit pitch bend, least significant seven bits first on the wire.
#[derive(Clone, Copy, Debug, PartialEq, Eq, Structural)]
pub struct PitchBend(pub u16);

/// A meta event; `B` is the type of its raw payload (`Vec<u8>` in memory,
/// `Seq<u8>` in specifications).
#[derive(Debug)]
pub enum MetaMessage<B> {
    TrackNumber(Option<u16>),
    Text(B),
    Copyright(B),
    TrackName(B),
    InstrumentName(B),
    Lyric(B),
    Marker(B),
    CuePoint(B),
    ProgramName(B),
    DeviceName(B),
    MidiChannel(u8),
    MidiPort(u8),
    EndOfTrack,
    Tempo(u32),
    TimeSignature(u8, u8, u8, u8),
    KeySignature(i8, bool),
    SequencerSpecific(B),
    Unknown(u8, B),
}

/// What an XMI event is.
#[derive(Debug)]
pub enum XmiEventKind<B> {
    Midi { channel: u8, message: XmiMidiMessage },
    SysEx(B),
    Meta(MetaMessage<B>),
}

/// One event of an XMI track and the ticks before it.
#[derive(Debug)]
pub struct XmiEvent<B> {
    pub delta: u32,
    pub kind: XmiEventKind<B>,
}

/// An instrument a sequence asks for (kept, never written out).
#[derive(Clone, Copy, Debug, PartialEq, Eq, Structural)]
pub struct XmiPatch {
    pub patch: u8,
    pub bank: u8,
}

/// The events of one song, as the specifications see them.
pub type EventSeq = Seq<XmiEvent<Seq<u8>>>;

/// One song of an XMI file.
#[derive(Debug)]
pub struct XmiSequence {
    pub patches: Vec<XmiPatch>,
    pub events: Vec<XmiEvent<Vec<u8>>>,
}

/// One song as the specifications see it.
pub struct SequenceModel {
    pub patches: Seq<XmiPatch>,
    pub events: EventSeq,
}

/// A parsed XMI file: its songs, in file order.
#[derive(Debug)]
pub struct XmiFile {
    pub sequences: Vec<XmiSequence>,
}

impl View for MetaMessage<Vec<u8>> {
    type V = MetaMessage<Seq<u8>>;

    open spec fn view(&self) -> MetaMessage<Seq<u8>> {
        match self {
            MetaMessage::TrackNumber(t) => MetaMessage::TrackNumber(*t),
            MetaMessage::Text(b) => MetaMessage::Text(b@),
            MetaMessage::Copyright(b) => MetaMessage::Copyright(b@),
            MetaMessage::TrackName(b) => MetaMessage::TrackName(b@),
            MetaMessage::InstrumentName(b) => MetaMessage::InstrumentName(b@),
            MetaMessage::Lyric(b) => MetaMessage::Lyric(b@),
            MetaMessage::Marker(b) => MetaMessage::Marker(b@),
            MetaMessage::CuePoint(b) => MetaMessage::CuePoint(b@),
            MetaMessage::ProgramName(b) => MetaMessage::ProgramName(b@),
            MetaMessage::DeviceName(b) => MetaMessage::DeviceName(b@),
            MetaMessage::MidiChannel(c) => MetaMessage::MidiChannel(*c),
            MetaMessage::MidiPort(p) => MetaMessage::MidiPort(*p),
            MetaMessage::EndOfTrack => MetaMessage::EndOfTrack,
            MetaMessage::Tempo(t) => MetaMessage::Tempo(*t),
            MetaMessage::TimeSignature(a, b, c, d) => MetaMessage::TimeSignature(*a, *b, *c, *d),
            MetaMessage::KeySignature(k, m) => MetaMessage::KeySignature(*k, *m),
            MetaMessage::SequencerSpecific(b) => MetaMessage::SequencerSpecific(b@),
            MetaMessage::Unknown(t, b) => MetaMessage::Unknown(*t, b@),
        }
    }
}

impl View for XmiEventKind<Vec<u8>> {
    type V = XmiEventKind<Seq<u8>>;

    open spec fn view(&self) -> XmiEventKind<Seq<u8>> {
        match self {
            XmiEventKind::Midi { channel, message } => XmiEventKind::Midi {
                channel: *channel,
                message: *message,
            },
            XmiEventKind::SysEx(b) => XmiEventKind::SysEx(b@),
            XmiEventKind::Meta(m) => XmiEventKind::Meta(m@),
        }
    }
}

impl View for XmiEvent<Vec<u8>> {
    type V = XmiEvent<Seq<u8>>;

    open spec fn view(&self) -> XmiEvent<Seq<u8>> {
        XmiEvent { delta: self.delta, kind: self.kind@ }
    }
}

impl View for XmiSequence {
    type V = SequenceModel;

    open spec fn view(&self) -> SequenceModel {
        SequenceModel {
            patches: self.patches@,
            events: self.events@.map_values(|e: XmiEvent<Vec<u8>>| e@),
        }
    }
}

impl View for XmiFile {
    type V = Seq<SequenceModel>;

    open spec fn view(&self) -> Seq<SequenceModel> {
        self.sequences@.map_values(|s: XmiSequence| s@)
    }
}

} // verus!
