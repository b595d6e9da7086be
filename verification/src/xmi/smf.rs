//! Writing the songs of an XMI file as one track of a standard MIDI file.

use vstd::prelude::*;

use super::notes::{
    distinct_keys, insert_note, lemma_sort_notes, lemma_sort_notes_all, lemma_sort_notes_distinct,
    notes_sorted, sort_notes, sort_notes_in_place, Note,
};
use super::event::{event_step, lemma_channel_messages_read, lemma_pitch_bend_read, Step};
use super::varlen::vlq;
use super::{
    EventSeq, MetaMessage, PitchBend, SequenceModel, XmiEvent, XmiEventKind, XmiFile, XmiMidiMessage,
    XmiSequence,
};

verus! {

/// The length of a payload as the file writes it: truncated to 32 bits.
pub open spec fn len32(b: Seq<u8>) -> nat {
    (b.len() as u32) as nat
}

/// A note-off of `n` after `d` ticks.
pub open spec fn note_off_bytes(d: int, n: Note) -> Seq<u8> {
    vlq(d as nat) + seq![0x80u8 | n.2, n.0, 0u8]
}

/// A meta event of type `t` with a payload that carries its own length.
pub open spec fn payload_meta_bytes(t: u8, b: Seq<u8>) -> Seq<u8> {
    seq![t] + vlq(len32(b)) + b
}

/// The body of a meta event after its `0xFF`. A tempo is never written.
pub open spec fn meta_bytes(m: MetaMessage<Seq<u8>>) -> Seq<u8> {
    match m {
        MetaMessage::TrackNumber(t) => seq![0x00u8] + vlq(2) + match t {
            Some(v) => seq![(v >> 8u16) as u8, v as u8],
            None => Seq::empty(),
        },
        MetaMessage::Text(b) => payload_meta_bytes(0x01, b),
        MetaMessage::Copyright(b) => payload_meta_bytes(0x02, b),
        MetaMessage::TrackName(b) => payload_meta_bytes(0x03, b),
        MetaMessage::InstrumentName(b) => payload_meta_bytes(0x04, b),
        MetaMessage::Lyric(b) => payload_meta_bytes(0x05, b),
        MetaMessage::Marker(b) => payload_meta_bytes(0x06, b),
        MetaMessage::CuePoint(b) => payload_meta_bytes(0x07, b),
        MetaMessage::ProgramName(b) => payload_meta_bytes(0x08, b),
        MetaMessage::DeviceName(b) => payload_meta_bytes(0x09, b),
        MetaMessage::MidiChannel(c) => seq![0x20u8] + vlq(1) + seq![c],
        MetaMessage::MidiPort(p) => seq![0x21u8] + vlq(1) + seq![p],
        MetaMessage::EndOfTrack => seq![0x2Fu8] + vlq(0),
        MetaMessage::Tempo(_) => Seq::empty(),
        MetaMessage::TimeSignature(a, b, c, d) => seq![0x58u8] + vlq(4) + seq![a, b, c, d],
        MetaMessage::KeySignature(k, minor) => seq![0x59u8] + vlq(2) + seq![
            k as u8,
            if minor {
                1u8
            } else {
                0u8
            },
        ],
        MetaMessage::SequencerSpecific(b) => payload_meta_bytes(0x7F, b),
        MetaMessage::Unknown(t, b) => payload_meta_bytes(t, b),
    }
}

/// An event as a standard MIDI file holds it, after its delta time.
pub open spec fn kind_bytes(k: XmiEventKind<Seq<u8>>) -> Seq<u8> {
    match k {
        XmiEventKind::Midi { channel, message } => match message {
            XmiMidiMessage::NoteOn { key, vel, .. } => seq![0x90u8 | channel, key, vel],
            XmiMidiMessage::Aftertouch { key, vel } => seq![0xA0u8 | channel, key, vel],
            XmiMidiMessage::Controller { controller, value } => seq![
                0xB0u8 | channel,
                controller,
                value,
            ],
            XmiMidiMessage::ProgramChange { program } => seq![0xC0u8 | channel, program],
            XmiMidiMessage::ChannelAftertouch { vel } => seq![0xD0u8 | channel, vel],
            XmiMidiMessage::PitchBend { bend } => seq![
                0xE0u8 | channel,
                bend.0 as u8,
                (bend.0 >> 7u16) as u8,
            ],
        },
        XmiEventKind::SysEx(s) => seq![0xF0u8] + vlq(len32(s)) + s,
        XmiEventKind::Meta(m) => seq![0xFFu8] + meta_bytes(m),
    }
}

/// A pitch bend goes out as its low byte, then its bits from the eighth up:
/// the bend `msb * 128 + lsb` (each below `0x80`) is written after the
/// status `0xE0 | c` as `lsb`, with the lowest bit of `msb` above it as the
/// byte's eighth bit, then `msb`. So the low seven bits come first and the
/// high seven second; where `msb` is even the bytes are exactly `lsb`,
/// `msb`, and reading them back gives the same event. Every bend below
/// `0x4000` is such a pair.
#[verifier::spinoff_prover]
#[verifier::rlimit(40)]
pub proof fn lemma_pitch_bend_written(c: u8, lsb: u8, msb: u8)
    requires
        c < 16,
        lsb < 128,
        msb < 128,
    ensures
        ({
            let kind = XmiEventKind::<Seq<u8>>::Midi {
                channel: c,
                message: XmiMidiMessage::PitchBend { bend: PitchBend((msb * 128 + lsb) as u16) },
            };
            &&& kind_bytes(kind) == seq![0xE0u8 | c, (lsb + 128 * (msb % 2)) as u8, msb]
            &&& kind_bytes(kind)[1] % 128 == lsb
            &&& msb % 2 == 0 ==> kind_bytes(kind) == seq![0xE0u8 | c, lsb, msb] && event_step(
                kind_bytes(kind),
                0,
            ) == Step::Value(XmiEvent { delta: 0, kind }, 3)
        }),
{
    let v: u16 = (msb * 128 + lsb) as u16;
    let l: u16 = lsb as u16;
    let m: u16 = msb as u16;
    let low: u16 = (lsb + 128 * (msb % 2)) as u16;
    assert(v == m * 128 + l);
    assert(v & 0xFF == low && (v >> 7u16) == m) by (bit_vector)
        requires
            v == m * 128 + l,
            low == l + 128 * (m % 2),
            l < 128,
            m < 128,
    ;
    assert(v as u8 == (lsb + 128 * (msb % 2)) as u8 && (v >> 7u16) as u8 == msb) by (bit_vector)
        requires
            v & 0xFF == low,
            (v >> 7u16) == m,
            low == lsb + 128 * (msb % 2),
            m == msb as u16,
    ;
    let kind = XmiEventKind::<Seq<u8>>::Midi {
        channel: c,
        message: XmiMidiMessage::PitchBend { bend: PitchBend(v) },
    };
    let bytes = seq![0xE0u8 | c, (lsb + 128 * (msb % 2)) as u8, msb];
    assert(kind_bytes(kind) == seq![0xE0u8 | c, v as u8, (v >> 7u16) as u8]);
    assert(kind_bytes(kind) =~= bytes);
    if msb % 2 == 0 {
        assert(bytes =~= seq![0xE0u8 | c, lsb, msb]);
        lemma_pitch_bend_read(c, lsb, msb, Seq::empty());
        assert(seq![0xE0u8 | c, lsb, msb] + Seq::<u8>::empty() =~= seq![0xE0u8 | c, lsb, msb]);
    }
}

/// The other channel messages are written as the reader takes them: the
/// status `0x90 | c`, `0xA0 | c`, `0xB0 | c`, `0xC0 | c` or `0xD0 | c` and
/// then the data bytes in the order they were read, so reading the written
/// bytes back gives the same message; a note-on reads back once its
/// duration follows it, as in the XMI file it came from.
#[verifier::spinoff_prover]
pub proof fn lemma_channel_messages_written(c: u8, a: u8, b: u8, duration: u32)
    requires
        c < 16,
        a < 128,
        b < 128,
        duration < 128 * 128 * 128,
    ensures
        ({
            let on = XmiEventKind::<Seq<u8>>::Midi {
                channel: c,
                message: XmiMidiMessage::NoteOn { key: a, vel: b, duration },
            };
            let touch = XmiEventKind::<Seq<u8>>::Midi {
                channel: c,
                message: XmiMidiMessage::Aftertouch { key: a, vel: b },
            };
            let control = XmiEventKind::<Seq<u8>>::Midi {
                channel: c,
                message: XmiMidiMessage::Controller { controller: a, value: b },
            };
            let program = XmiEventKind::<Seq<u8>>::Midi {
                channel: c,
                message: XmiMidiMessage::ProgramChange { program: a },
            };
            let pressure = XmiEventKind::<Seq<u8>>::Midi {
                channel: c,
                message: XmiMidiMessage::ChannelAftertouch { vel: a },
            };
            &&& kind_bytes(on) == seq![0x90u8 | c, a, b]
            &&& event_step(kind_bytes(on) + vlq(duration as nat), 0) == Step::Value(
                XmiEvent { delta: 0, kind: on },
                3 + vlq(duration as nat).len() as int,
            )
            &&& event_step(kind_bytes(touch), 0) == Step::Value(XmiEvent { delta: 0, kind: touch }, 3)
            &&& event_step(kind_bytes(control), 0) == Step::Value(XmiEvent { delta: 0, kind: control }, 3)
            &&& event_step(kind_bytes(program), 0) == Step::Value(XmiEvent { delta: 0, kind: program }, 2)
            &&& event_step(kind_bytes(pressure), 0) == Step::Value(XmiEvent { delta: 0, kind: pressure }, 2)
        }),
{
    lemma_note_on_written(c, a, b, duration);
    lemma_two_byte_written(c, a, b, duration);
    lemma_one_byte_written(c, a, b, duration);
}

#[verifier::spinoff_prover]
#[verifier::rlimit(40)]
proof fn lemma_note_on_written(c: u8, a: u8, b: u8, duration: u32)
    requires
        c < 16,
        a < 128,
        b < 128,
        duration < 128 * 128 * 128,
    ensures
        ({
            let on = XmiEventKind::<Seq<u8>>::Midi {
                channel: c,
                message: XmiMidiMessage::NoteOn { key: a, vel: b, duration },
            };
            &&& kind_bytes(on) == seq![0x90u8 | c, a, b]
            &&& event_step(kind_bytes(on) + vlq(duration as nat), 0) == Step::Value(
                XmiEvent { delta: 0, kind: on },
                3 + vlq(duration as nat).len() as int,
            )
        }),
{
    let e = Seq::<u8>::empty();
    lemma_channel_messages_read(c, a, b, duration, e);
    assert(seq![0x90u8 | c, a, b] + vlq(duration as nat) + e =~= seq![0x90u8 | c, a, b] + vlq(
        duration as nat,
    ));
}

#[verifier::spinoff_prover]
#[verifier::rlimit(40)]
proof fn lemma_two_byte_written(c: u8, a: u8, b: u8, duration: u32)
    requires
        c < 16,
        a < 128,
        b < 128,
        duration < 128 * 128 * 128,
    ensures
        ({
            let touch = XmiEventKind::<Seq<u8>>::Midi {
                channel: c,
                message: XmiMidiMessage::Aftertouch { key: a, vel: b },
            };
            let control = XmiEventKind::<Seq<u8>>::Midi {
                channel: c,
                message: XmiMidiMessage::Controller { controller: a, value: b },
            };
            &&& event_step(kind_bytes(touch), 0) == Step::Value(XmiEvent { delta: 0, kind: touch }, 3)
            &&& event_step(kind_bytes(control), 0) == Step::Value(XmiEvent { delta: 0, kind: control }, 3)
        }),
{
    let e = Seq::<u8>::empty();
    lemma_channel_messages_read(c, a, b, duration, e);
    assert(seq![0xA0u8 | c, a, b] + e =~= seq![0xA0u8 | c, a, b]);
    assert(seq![0xB0u8 | c, a, b] + e =~= seq![0xB0u8 | c, a, b]);
}

#[verifier::spinoff_prover]
#[verifier::rlimit(40)]
proof fn lemma_one_byte_written(c: u8, a: u8, b: u8, duration: u32)
    requires
        c < 16,
        a < 128,
        b < 128,
        duration < 128 * 128 * 128,
    ensures
        ({
            let program = XmiEventKind::<Seq<u8>>::Midi {
                channel: c,
                message: XmiMidiMessage::ProgramChange { program: a },
            };
            let pressure = XmiEventKind::<Seq<u8>>::Midi {
                channel: c,
                message: XmiMidiMessage::ChannelAftertouch { vel: a },
            };
            &&& event_step(kind_bytes(program), 0) == Step::Value(XmiEvent { delta: 0, kind: program }, 2)
            &&& event_step(kind_bytes(pressure), 0) == Step::Value(XmiEvent { delta: 0, kind: pressure }, 2)
        }),
{
    let e = Seq::<u8>::empty();
    lemma_channel_messages_read(c, a, b, duration, e);
    assert(seq![0xC0u8 | c, a] + e =~= seq![0xC0u8 | c, a]);
    assert(seq![0xD0u8 | c, a] + e =~= seq![0xD0u8 | c, a]);
}

/// The state of the pass over the sorted notes before an event: the note-offs
/// written, the notes with their ticks updated, the (key, channel) pairs that
/// ended, the ticks already spent on note-offs, and the ticks left to the event.
pub struct Expiry {
    pub bytes: Seq<u8>,
    pub notes: Seq<Note>,
    pub ended: Seq<(u8, u8)>,
    pub elapsed: int,
    pub delta: int,
}

/// One note of the pass: it ends (and its note-off is written) when it has no
/// more ticks left than the event is away; otherwise the event's ticks are
/// taken from it.
pub open spec fn expire_note(st: Expiry, n: Note) -> Expiry {
    let d = n.1 - st.elapsed;
    if d > st.delta {
        Expiry { notes: st.notes.push((n.0, (d - st.delta) as u32, n.2)), ..st }
    } else {
        Expiry {
            bytes: st.bytes + note_off_bytes(d, n),
            notes: st.notes.push((n.0, d as u32, n.2)),
            ended: st.ended.push((n.0, n.2)),
            elapsed: st.elapsed + d,
            delta: st.delta - d,
        }
    }
}

pub open spec fn expire_all(s: Seq<Note>, st: Expiry) -> Expiry
    decreases s.len(),
{
    if s.len() == 0 {
        st
    } else {
        expire_note(expire_all(s.drop_last(), st), s.last())
    }
}

/// The notes whose (key, channel) did not end: a note that ends silences
/// every note of its key on its channel.
pub open spec fn keep_notes(s: Seq<Note>, ended: Seq<(u8, u8)>) -> Seq<Note>
    decreases s.len(),
{
    if s.len() == 0 {
        s
    } else {
        let r = keep_notes(s.drop_last(), ended);
        if ended.contains((s.last().0, s.last().2)) {
            r
        } else {
            r.push(s.last())
        }
    }
}

/// The pass over the notes sounding before `e`, with `active` as they were.
pub open spec fn expiry_before(active: Seq<Note>, e: XmiEvent<Seq<u8>>) -> Expiry {
    expire_all(
        sort_notes(active),
        Expiry {
            bytes: Seq::empty(),
            notes: Seq::empty(),
            ended: Seq::empty(),
            elapsed: 0,
            delta: e.delta as int,
        },
    )
}

pub open spec fn is_tempo(k: XmiEventKind<Seq<u8>>) -> bool {
    k matches XmiEventKind::Meta(MetaMessage::Tempo(_))
}

/// What writing `e` adds to the track, and the notes sounding after it: the
/// note-offs that fall before it, then (unless it is a tempo, which is
/// dropped with the ticks left to it) its delta time and bytes; a note-on
/// starts sounding.
pub open spec fn event_output(active: Seq<Note>, e: XmiEvent<Seq<u8>>) -> (Seq<u8>, Seq<Note>) {
    let ex = expiry_before(active, e);
    let kept = keep_notes(ex.notes, ex.ended);
    if is_tempo(e.kind) {
        (ex.bytes, kept)
    } else {
        (
            ex.bytes + vlq(ex.delta as nat) + kind_bytes(e.kind),
            match e.kind {
                XmiEventKind::Midi {
                    channel,
                    message: XmiMidiMessage::NoteOn { key, duration, .. },
                } => kept.push((key, duration, channel)),
                _ => kept,
            },
        )
    }
}

/// The bytes of a song's events and the notes still sounding at its end.
pub open spec fn sequence_output(events: EventSeq) -> (Seq<u8>, Seq<Note>)
    decreases events.len(),
{
    if events.len() == 0 {
        (Seq::empty(), Seq::empty())
    } else {
        let prev = sequence_output(events.drop_last());
        let step = event_output(prev.1, events.last());
        (prev.0 + step.0, step.1)
    }
}

/// The events of every song, one after the other; each song starts with no
/// note sounding, and notes still sounding at its end get no note-off.
pub open spec fn track_bytes(seqs: Seq<SequenceModel>) -> Seq<u8>
    decreases seqs.len(),
{
    if seqs.len() == 0 {
        Seq::empty()
    } else {
        track_bytes(seqs.drop_last()) + sequence_output(seqs.last().events).0
    }
}

pub open spec fn be32(v: u32) -> Seq<u8> {
    seq![(v >> 24u32) as u8, (v >> 16u32) as u8, (v >> 8u32) as u8, v as u8]
}

/// The header chunk: format 0, one track, 60 ticks per quarter note.
pub open spec fn smf_header() -> Seq<u8> {
    seq![0x4Du8, 0x54, 0x68, 0x64, 0, 0, 0, 6, 0, 0, 0, 1, 0, 60]
}

/// The standard MIDI file of the songs: the header, then one `MTrk` chunk
/// with their events.
pub open spec fn smf_file(seqs: Seq<SequenceModel>) -> Seq<u8> {
    let track = track_bytes(seqs);
    smf_header() + seq![0x4Du8, 0x54, 0x72, 0x6B] + be32(track.len() as u32) + track
}


proof fn lemma_expire_all_keeps_time(s: Seq<Note>, st: Expiry)
    ensures
        expire_all(s, st).elapsed + expire_all(s, st).delta == st.elapsed + st.delta,
    decreases s.len(),
{
    if s.len() > 0 {
        lemma_expire_all_keeps_time(s.drop_last(), st);
    }
}

/// Writing note-offs does not move an event in time: the ticks written before
/// the note-offs that fall ahead of an event, plus the ticks written before
/// the event itself, are its delta time.
pub proof fn lemma_note_offs_keep_event_time(active: Seq<Note>, e: XmiEvent<Seq<u8>>)
    ensures
        expiry_before(active, e).elapsed + expiry_before(active, e).delta == e.delta,
{
    lemma_expire_all_keeps_time(
        sort_notes(active),
        Expiry {
            bytes: Seq::empty(),
            notes: Seq::empty(),
            ended: Seq::empty(),
            elapsed: 0,
            delta: e.delta as int,
        },
    );
}

/// A written event or note-off: its delta time and the bytes after it.
pub type Record = (int, Seq<u8>);

/// The bytes of records written one after the other, each delta time as a
/// variable-length quantity.
pub open spec fn records_bytes(rs: Seq<Record>) -> Seq<u8>
    decreases rs.len(),
{
    if rs.len() == 0 {
        Seq::empty()
    } else {
        records_bytes(rs.drop_last()) + vlq(rs.last().0 as nat) + rs.last().1
    }
}

/// The ticks that records take: their delta times added up.
pub open spec fn records_ticks(rs: Seq<Record>) -> int
    decreases rs.len(),
{
    if rs.len() == 0 {
        0
    } else {
        records_ticks(rs.drop_last()) + rs.last().0
    }
}

/// The note-offs that the pass over `s` writes, as records.
pub open spec fn expiry_records(s: Seq<Note>, st: Expiry) -> Seq<Record>
    decreases s.len(),
{
    if s.len() == 0 {
        Seq::empty()
    } else {
        let before = expire_all(s.drop_last(), st);
        let r = expiry_records(s.drop_last(), st);
        let n = s.last();
        let d = n.1 - before.elapsed;
        if d > before.delta {
            r
        } else {
            r.push((d, seq![0x80u8 | n.2, n.0, 0u8]))
        }
    }
}

/// The records that writing `e` adds: the note-offs that fall before it,
/// then, unless it is a tempo, the event itself.
pub open spec fn event_records(active: Seq<Note>, e: XmiEvent<Seq<u8>>) -> Seq<Record> {
    let offs = expiry_records(
        sort_notes(active),
        Expiry {
            bytes: Seq::empty(),
            notes: Seq::empty(),
            ended: Seq::empty(),
            elapsed: 0,
            delta: e.delta as int,
        },
    );
    if is_tempo(e.kind) {
        offs
    } else {
        offs.push((expiry_before(active, e).delta, kind_bytes(e.kind)))
    }
}

/// The records of a song, in the order they are written.
pub open spec fn sequence_records(events: EventSeq) -> Seq<Record>
    decreases events.len(),
{
    if events.len() == 0 {
        Seq::empty()
    } else {
        sequence_records(events.drop_last()) + event_records(
            sequence_output(events.drop_last()).1,
            events.last(),
        )
    }
}

/// The ticks of a song: its events' delta times added up.
pub open spec fn events_ticks(events: EventSeq) -> int
    decreases events.len(),
{
    if events.len() == 0 {
        0
    } else {
        events_ticks(events.drop_last()) + events.last().delta
    }
}

proof fn lemma_records_concat(a: Seq<Record>, b: Seq<Record>)
    ensures
        records_bytes(a + b) == records_bytes(a) + records_bytes(b),
        records_ticks(a + b) == records_ticks(a) + records_ticks(b),
    decreases b.len(),
{
    if b.len() == 0 {
        assert(a + b =~= a);
    } else {
        lemma_records_concat(a, b.drop_last());
        assert((a + b).drop_last() =~= a + b.drop_last());
        assert((a + b).last() == b.last());
    }
}

proof fn lemma_expiry_records(s: Seq<Note>, st: Expiry)
    ensures
        expire_all(s, st).bytes == st.bytes + records_bytes(expiry_records(s, st)),
        records_ticks(expiry_records(s, st)) == expire_all(s, st).elapsed - st.elapsed,
    decreases s.len(),
{
    if s.len() == 0 {
        assert(st.bytes + Seq::<u8>::empty() =~= st.bytes);
    } else {
        lemma_expiry_records(s.drop_last(), st);
        let before = expire_all(s.drop_last(), st);
        let r = expiry_records(s.drop_last(), st);
        let n = s.last();
        let d = n.1 - before.elapsed;
        if d <= before.delta {
            let rec = (d, seq![0x80u8 | n.2, n.0, 0u8]);
            assert(r.push(rec).drop_last() =~= r);
            assert(note_off_bytes(d, n) == vlq(d as nat) + rec.1);
            assert(st.bytes + records_bytes(r.push(rec)) =~= st.bytes + records_bytes(r) + note_off_bytes(
                d,
                n,
            ));
        }
    }
}

proof fn lemma_event_records(active: Seq<Note>, e: XmiEvent<Seq<u8>>)
    ensures
        event_output(active, e).0 == records_bytes(event_records(active, e)),
        !is_tempo(e.kind) ==> records_ticks(event_records(active, e)) == e.delta,
{
    let st = Expiry {
        bytes: Seq::empty(),
        notes: Seq::empty(),
        ended: Seq::empty(),
        elapsed: 0,
        delta: e.delta as int,
    };
    let offs = expiry_records(sort_notes(active), st);
    let ex = expiry_before(active, e);
    lemma_expiry_records(sort_notes(active), st);
    lemma_note_offs_keep_event_time(active, e);
    assert(Seq::<u8>::empty() + records_bytes(offs) =~= records_bytes(offs));
    if !is_tempo(e.kind) {
        let rec = (ex.delta, kind_bytes(e.kind));
        assert(offs.push(rec).drop_last() =~= offs);
        assert(records_bytes(offs.push(rec)) =~= ex.bytes + vlq(ex.delta as nat) + kind_bytes(e.kind));
    }
}

/// A song is written as records, one after the other, and no tick is lost
/// or added: where the song has no tempo event (a tempo is dropped with the
/// ticks left to it), the delta times written before its note-offs and its
/// events add up to the song's ticks.
pub proof fn lemma_song_keeps_its_ticks(events: EventSeq)
    ensures
        sequence_output(events).0 == records_bytes(sequence_records(events)),
        (forall|i: int| 0 <= i < events.len() ==> !is_tempo(#[trigger] events[i].kind)) ==> records_ticks(
            sequence_records(events),
        ) == events_ticks(events),
    decreases events.len(),
{
    if events.len() > 0 {
        let rest = events.drop_last();
        lemma_song_keeps_its_ticks(rest);
        let prev = sequence_output(rest);
        lemma_event_records(prev.1, events.last());
        lemma_records_concat(sequence_records(rest), event_records(prev.1, events.last()));
        if forall|i: int| 0 <= i < events.len() ==> !is_tempo(#[trigger] events[i].kind) {
            assert forall|i: int| 0 <= i < rest.len() implies !is_tempo(#[trigger] rest[i].kind) by {
                assert(rest[i] == events[i]);
            }
            assert(!is_tempo(events[events.len() - 1].kind));
        }
    } else {
        assert(records_bytes(Seq::<Record>::empty()) =~= Seq::<u8>::empty());
    }
}

/// The notes of `s` that are due no later than tick `t`, in order.
pub open spec fn ending_notes(s: Seq<Note>, t: int) -> Seq<Note>
    decreases s.len(),
{
    if s.len() == 0 {
        s
    } else {
        let r = ending_notes(s.drop_last(), t);
        if s.last().1 <= t {
            r.push(s.last())
        } else {
            r
        }
    }
}

/// The bytes of a note-off of `n`, after its delta time.
pub open spec fn note_off_body(n: Note) -> Seq<u8> {
    seq![0x80u8 | n.2, n.0, 0u8]
}

proof fn lemma_keep_notes_keeps(s: Seq<Note>, ended: Seq<(u8, u8)>, i: int)
    requires
        0 <= i < s.len(),
        !ended.contains((s[i].0, s[i].2)),
    ensures
        keep_notes(s, ended).contains(s[i]),
    decreases s.len(),
{
    if i < s.len() - 1 {
        lemma_keep_notes_keeps(s.drop_last(), ended, i);
        assert(s.drop_last()[i] == s[i]);
        let r = keep_notes(s.drop_last(), ended);
        let w = choose|w: int| 0 <= w < r.len() && r[w] == s[i];
        if !ended.contains((s.last().0, s.last().2)) {
            assert(r.push(s.last())[w] == s[i]);
        }
    } else {
        let r = keep_notes(s.drop_last(), ended);
        assert(r.push(s.last())[r.len() as int] == s[i]);
    }
}

#[verifier::spinoff_prover]
proof fn lemma_expire_all_places(s: Seq<Note>, st: Expiry)
    ensures
        ({
            let t = st.elapsed + st.delta;
            let ex = expire_all(s, st);
            let offs = expiry_records(s, st);
            let f = ending_notes(s, t);
            &&& offs.len() == f.len()
            &&& forall|k: int|
                0 <= k < offs.len() ==> #[trigger] offs[k].1 == note_off_body(f[k]) && st.elapsed
                    + records_ticks(offs.take(k + 1)) == f[k].1
            &&& ex.ended == st.ended + f.map_values(|n: Note| (n.0, n.2))
            &&& ex.notes.len() == st.notes.len() + s.len()
            &&& forall|i: int|
                0 <= i < s.len() ==> (#[trigger] ex.notes[st.notes.len() + i]).0 == s[i].0
                    && ex.notes[st.notes.len() + i].2 == s[i].2
            &&& forall|i: int|
                0 <= i < s.len() && #[trigger] s[i].1 > t ==> ex.notes[st.notes.len() + i] == (
                    s[i].0,
                    (s[i].1 - t) as u32,
                    s[i].2,
                )
        }),
    decreases s.len(),
{
    let t = st.elapsed + st.delta;
    if s.len() == 0 {
        assert(st.ended + Seq::<Note>::empty().map_values(|n: Note| (n.0, n.2)) =~= st.ended);
    } else {
        let rest = s.drop_last();
        let n = s.last();
        lemma_expire_all_places(rest, st);
        lemma_expire_all_keeps_time(rest, st);
        lemma_expiry_records(rest, st);
        lemma_expiry_records(s, st);
        let before = expire_all(rest, st);
        let r = expiry_records(rest, st);
        let fr = ending_notes(rest, t);
        assert forall|i: int| 0 <= i < rest.len() implies rest[i] == s[i] by {}
        if n.1 > t {
            assert(expiry_records(s, st) == r);
            assert(ending_notes(s, t) == fr);
        } else {
            let d = n.1 - before.elapsed;
            let offs = r.push((d, note_off_body(n)));
            assert(expiry_records(s, st) == offs);
            assert(ending_notes(s, t) == fr.push(n));
            assert forall|k: int| 0 <= k < offs.len() implies #[trigger] offs[k].1 == note_off_body(
                fr.push(n)[k],
            ) && st.elapsed + records_ticks(offs.take(k + 1)) == fr.push(n)[k].1 by {
                if k < r.len() {
                    assert(offs.take(k + 1) =~= r.take(k + 1));
                } else {
                    assert(offs.take(k + 1) =~= offs);
                }
            }
            assert(st.ended + fr.push(n).map_values(|m: Note| (m.0, m.2)) =~= (st.ended + fr.map_values(
                |m: Note| (m.0, m.2),
            )).push((n.0, n.2)));
        }
    }
}

/// Within the writing of one event, the notes sounding before it (taken in
/// the order of their ticks left) that are due no later than the event end
/// there: each gets one note-off, in that order, written at the very tick
/// its remaining time runs out, counted from the event before. A note that
/// outlasts the event keeps sounding, with the event's delta time taken from
/// its remaining time, unless a note of its key and channel ended.
pub proof fn lemma_note_offs_fall_when_notes_end(active: Seq<Note>, e: XmiEvent<Seq<u8>>)
    ensures
        ({
            let s = sort_notes(active);
            let st = Expiry {
                bytes: Seq::empty(),
                notes: Seq::empty(),
                ended: Seq::empty(),
                elapsed: 0,
                delta: e.delta as int,
            };
            let offs = expiry_records(s, st);
            let f = ending_notes(s, e.delta as int);
            let ended = f.map_values(|n: Note| (n.0, n.2));
            &&& offs.len() == f.len()
            &&& forall|k: int|
                0 <= k < offs.len() ==> #[trigger] offs[k].1 == note_off_body(f[k]) && records_ticks(
                    offs.take(k + 1),
                ) == f[k].1 && f[k].1 <= e.delta
            &&& forall|k: int| 0 <= k < offs.len() ==> #[trigger] event_records(active, e)[k] == offs[k]
            &&& forall|i: int|
                0 <= i < s.len() && #[trigger] s[i].1 > e.delta && !ended.contains((s[i].0, s[i].2))
                    ==> event_output(active, e).1.contains((s[i].0, (s[i].1 - e.delta) as u32, s[i].2))
        }),
{
    let s = sort_notes(active);
    let st = Expiry {
        bytes: Seq::empty(),
        notes: Seq::empty(),
        ended: Seq::empty(),
        elapsed: 0,
        delta: e.delta as int,
    };
    let offs = expiry_records(s, st);
    let f = ending_notes(s, e.delta as int);
    let ex = expire_all(s, st);
    lemma_expire_all_places(s, st);
    assert(ex.ended =~= f.map_values(|n: Note| (n.0, n.2)));
    assert forall|k: int| 0 <= k < offs.len() implies f[k].1 <= e.delta by {
        lemma_ending_notes_due(s, e.delta as int, k);
    }
    let kept = keep_notes(ex.notes, ex.ended);
    assert forall|i: int|
        0 <= i < s.len() && #[trigger] s[i].1 > e.delta && !ex.ended.contains((s[i].0, s[i].2))
            implies event_output(active, e).1.contains((s[i].0, (s[i].1 - e.delta) as u32, s[i].2)) by {
        assert(ex.notes[i] == (s[i].0, (s[i].1 - e.delta) as u32, s[i].2));
        lemma_keep_notes_keeps(ex.notes, ex.ended, i);
        let w = choose|w: int| 0 <= w < kept.len() && kept[w] == ex.notes[i];
        match e.kind {
            XmiEventKind::Midi { channel, message: XmiMidiMessage::NoteOn { key, duration, .. } } => {
                assert(kept.push((key, duration, channel))[w] == ex.notes[i]);
            },
            _ => {},
        }
    }
}

proof fn lemma_ending_notes_due(s: Seq<Note>, t: int, k: int)
    requires
        0 <= k < ending_notes(s, t).len(),
    ensures
        ending_notes(s, t)[k].1 <= t,
    decreases s.len(),
{
    if s.len() > 0 {
        let r = ending_notes(s.drop_last(), t);
        if k < r.len() {
            lemma_ending_notes_due(s.drop_last(), t, k);
        }
    }
}

/// Whether event `i` of a song is a note-on of `key` on `channel` whose
/// duration runs out at tick `tick` of the song.
pub open spec fn note_on_ends_at(events: EventSeq, i: int, key: u8, channel: u8, tick: int) -> bool {
    match events[i].kind {
        XmiEventKind::Midi { channel: c, message: XmiMidiMessage::NoteOn { key: k, duration, .. } } => k
            == key && c == channel && events_ticks(events.take(i + 1)) + duration == tick,
        _ => false,
    }
}

/// Whether a note sounding after the first `j` events of a song was started
/// by one of them: a note-on of its key and channel whose duration runs out
/// where the note's ticks left do. A note with no ticks left was started by
/// the last of them.
pub open spec fn started_by_note_on(events: EventSeq, j: int, n: Note) -> bool {
    exists|i: int|
        0 <= i < j && (n.1 == 0 ==> i == j - 1) && #[trigger] note_on_ends_at(
            events,
            i,
            n.0,
            n.2,
            events_ticks(events.take(j)) + n.1,
        )
}

proof fn lemma_ending_notes_member(s: Seq<Note>, t: int, i: int)
    requires
        0 <= i < s.len(),
        s[i].1 <= t,
    ensures
        ending_notes(s, t).contains(s[i]),
    decreases s.len(),
{
    let r = ending_notes(s.drop_last(), t);
    if i < s.len() - 1 {
        lemma_ending_notes_member(s.drop_last(), t, i);
        assert(s.drop_last()[i] == s[i]);
        let w = choose|w: int| 0 <= w < r.len() && r[w] == s[i];
        if s.last().1 <= t {
            assert(r.push(s.last())[w] == s[i]);
        }
    } else {
        assert(r.push(s.last())[r.len() as int] == s[i]);
    }
}

proof fn lemma_keep_notes_all(s: Seq<Note>, ended: Seq<(u8, u8)>, p: spec_fn(Note) -> bool)
    requires
        forall|i: int| 0 <= i < s.len() && !ended.contains((s[i].0, s[i].2)) ==> p(#[trigger] s[i]),
    ensures
        forall|k: int| 0 <= k < keep_notes(s, ended).len() ==> p(#[trigger] keep_notes(s, ended)[k]),
    decreases s.len(),
{
    if s.len() > 0 {
        let t = s.drop_last();
        assert forall|i: int| 0 <= i < t.len() && !ended.contains((t[i].0, t[i].2)) implies p(#[trigger] t[i]) by {
            assert(t[i] == s[i]);
        }
        lemma_keep_notes_all(t, ended, p);
        let r = keep_notes(t, ended);
        if !ended.contains((s.last().0, s.last().2)) {
            assert(p(s[s.len() - 1]));
            assert forall|k: int| 0 <= k < r.push(s.last()).len() implies p(#[trigger] r.push(s.last())[k]) by {
                if k < r.len() {
                    assert(r.push(s.last())[k] == r[k]);
                }
            }
        }
    }
}

proof fn lemma_events_ticks_step(events: EventSeq, j: int)
    requires
        0 <= j < events.len(),
    ensures
        events_ticks(events.take(j + 1)) == events_ticks(events.take(j)) + events[j].delta,
        sequence_output(events.take(j + 1)) == ({
            let prev = sequence_output(events.take(j));
            let step = event_output(prev.1, events[j]);
            (prev.0 + step.0, step.1)
        }),
        sequence_records(events.take(j + 1)) == sequence_records(events.take(j)) + event_records(
            sequence_output(events.take(j)).1,
            events[j],
        ),
{
    assert(events.take(j + 1).drop_last() =~= events.take(j));
    assert(events.take(j + 1).last() == events[j]);
}

/// The notes sounding after the first `j` events of a song without tempo
/// events were each started by one of them.
proof fn lemma_active_notes_started(events: EventSeq, j: int)
    requires
        0 <= j <= events.len(),
        forall|i: int| 0 <= i < events.len() ==> !is_tempo(#[trigger] events[i].kind),
    ensures
        forall|x: int|
            0 <= x < sequence_output(events.take(j)).1.len() ==> started_by_note_on(
                events,
                j,
                #[trigger] sequence_output(events.take(j)).1[x],
            ),
    decreases j,
{
    if j > 0 {
        let j0 = j - 1;
        lemma_active_notes_started(events, j0);
        lemma_events_ticks_step(events, j0);
        let a = sequence_output(events.take(j0)).1;
        let e = events[j0];
        let sorted = sort_notes(a);
        let st = Expiry {
            bytes: Seq::empty(),
            notes: Seq::empty(),
            ended: Seq::empty(),
            elapsed: 0,
            delta: e.delta as int,
        };
        let ex = expire_all(sorted, st);
        let kept = keep_notes(ex.notes, ex.ended);
        let before = |n: Note| started_by_note_on(events, j0, n);
        let after = |n: Note| started_by_note_on(events, j, n);
        assert forall|x: int| 0 <= x < a.len() implies before(#[trigger] a[x]) by {}
        lemma_sort_notes_all(a, before);
        lemma_sort_notes(a);
        lemma_expire_all_places(sorted, st);
        assert(ex.ended =~= ending_notes(sorted, e.delta as int).map_values(|n: Note| (n.0, n.2)));
        assert forall|i: int|
            0 <= i < ex.notes.len() && !ex.ended.contains((ex.notes[i].0, ex.notes[i].2)) implies after(
            #[trigger] ex.notes[i],
        ) by {
            let n = sorted[i];
            if n.1 <= e.delta {
                lemma_ending_notes_member(sorted, e.delta as int, i);
                let f = ending_notes(sorted, e.delta as int);
                let w = choose|w: int| 0 <= w < f.len() && f[w] == n;
                assert(ex.ended[w] == (n.0, n.2));
                assert(ex.notes[0 + i].0 == n.0 && ex.notes[0 + i].2 == n.2);
                assert(ex.ended.contains((ex.notes[i].0, ex.notes[i].2)));
            } else {
                assert(before(sorted[i]));
                let w = choose|w: int|
                    0 <= w < j0 && #[trigger] note_on_ends_at(events, w, n.0, n.2, events_ticks(events.take(j0)) + n.1);
                assert(ex.notes[i] == (n.0, (n.1 - e.delta) as u32, n.2));
                assert(note_on_ends_at(events, w, n.0, n.2, events_ticks(events.take(j)) + ex.notes[i].1));
            }
        }
        lemma_keep_notes_all(ex.notes, ex.ended, after);
        let next = sequence_output(events.take(j)).1;
        assert(!is_tempo(e.kind));
        match e.kind {
            XmiEventKind::Midi { channel, message: XmiMidiMessage::NoteOn { key, duration, .. } } => {
                assert(next == kept.push((key, duration, channel)));
                let started: Note = (key, duration, channel);
                assert(note_on_ends_at(events, j0, started.0, started.2, events_ticks(events.take(j)) + started.1));
                assert(after((key, duration, channel)));
                assert forall|x: int| 0 <= x < next.len() implies after(#[trigger] next[x]) by {
                    if x < kept.len() {
                        assert(next[x] == kept[x]);
                    }
                }
            },
            _ => {
                assert(next == kept);
            },
        }
    }
}

/// In a song without tempo events every note-off lands where a note ends:
/// the note-offs that open the records of event `j` belong to notes that
/// earlier note-ons of their key and channel started, and each is written
/// at the tick where its note-on's duration runs out. That tick is the
/// song's ticks before event `j`, which the records before it add up to,
/// plus the ticks of event `j`'s records up to the note-off; none of them
/// lies past event `j`.
pub proof fn lemma_note_offs_land_at_note_ends(events: EventSeq, j: int, k: int)
    requires
        forall|i: int| 0 <= i < events.len() ==> !is_tempo(#[trigger] events[i].kind),
        0 <= j < events.len(),
        0 <= k < note_offs_at(events, j).len(),
    ensures
        ({
            let active = sequence_output(events.take(j)).1;
            let n = ending_notes(sort_notes(active), events[j].delta as int)[k];
            let recs = event_records(active, events[j]);
            let tick = records_ticks(sequence_records(events.take(j))) + records_ticks(recs.take(k + 1));
            &&& recs[k].1 == note_off_body(n)
            &&& records_ticks(sequence_records(events.take(j))) == events_ticks(events.take(j))
            &&& tick <= events_ticks(events.take(j + 1))
            &&& exists|i: int| 0 <= i < j && #[trigger] note_on_ends_at(events, i, n.0, n.2, tick)
        }),
{
    let active = sequence_output(events.take(j)).1;
    let e = events[j];
    let sorted = sort_notes(active);
    let f = ending_notes(sorted, e.delta as int);
    let n = f[k];
    let recs = event_records(active, e);
    let st = Expiry {
        bytes: Seq::empty(),
        notes: Seq::empty(),
        ended: Seq::empty(),
        elapsed: 0,
        delta: e.delta as int,
    };
    let offs = expiry_records(sorted, st);
    lemma_note_offs_fall_when_notes_end(active, e);
    lemma_expire_all_places(sorted, st);
    assert(recs.take(k + 1) =~= offs.take(k + 1));
    let prefix = events.take(j);
    assert forall|i: int| 0 <= i < prefix.len() implies !is_tempo(#[trigger] prefix[i].kind) by {
        assert(prefix[i] == events[i]);
    }
    lemma_song_keeps_its_ticks(prefix);
    lemma_events_ticks_step(events, j);
    lemma_active_notes_started(events, j);
    let started = |m: Note| started_by_note_on(events, j, m);
    assert forall|x: int| 0 <= x < active.len() implies started(#[trigger] active[x]) by {}
    lemma_sort_notes_all(active, started);
    assert forall|x: int| 0 <= x < f.len() implies started(#[trigger] f[x]) by {
        lemma_ending_notes_from(sorted, e.delta as int, x);
    }
    assert(started(n));
    assert(recs[k] == offs[k]);
    assert(recs[k].1 == note_off_body(n));
    assert(records_ticks(recs.take(k + 1)) == n.1);
    let tick = records_ticks(sequence_records(prefix)) + records_ticks(recs.take(k + 1));
    assert(tick == events_ticks(prefix) + n.1);
    let i = choose|i: int|
        0 <= i < j && #[trigger] note_on_ends_at(events, i, n.0, n.2, events_ticks(events.take(j)) + n.1);
    assert(note_on_ends_at(events, i, n.0, n.2, tick));
}

/// The note that event `e` starts, where it is a note-on: its key, its
/// duration and its channel.
pub open spec fn note_on_of(e: XmiEvent<Seq<u8>>) -> Option<Note> {
    match e.kind {
        XmiEventKind::Midi { channel, message: XmiMidiMessage::NoteOn { key, duration, .. } } => Some(
            (key, duration, channel),
        ),
        _ => None,
    }
}

/// Whether the note-ons of each key and channel of a song are apart: a
/// later one starts no earlier than the tick where an earlier one ends.
pub open spec fn note_ons_apart(events: EventSeq) -> bool {
    forall|i: int, i2: int|
        #![trigger note_on_of(events[i]), note_on_of(events[i2])]
        0 <= i < i2 < events.len() && note_on_of(events[i]) is Some && note_on_of(events[i2]) is Some
            && (note_on_of(events[i])->0).0 == (note_on_of(events[i2])->0).0 && (note_on_of(events[i])->0).2
            == (note_on_of(events[i2])->0).2 ==> events_ticks(events.take(i2 + 1)) >= events_ticks(
            events.take(i + 1),
        ) + (note_on_of(events[i])->0).1
}

proof fn lemma_events_ticks_grow(events: EventSeq, i: int, j: int)
    requires
        0 <= i <= j <= events.len(),
    ensures
        events_ticks(events.take(i)) <= events_ticks(events.take(j)),
    decreases j - i,
{
    if i < j {
        lemma_events_ticks_grow(events, i, j - 1);
        lemma_events_ticks_step(events, j - 1);
    }
}

proof fn lemma_insert_note_contains(s: Seq<Note>, n: Note)
    ensures
        insert_note(s, n).contains(n),
        forall|x: int| 0 <= x < s.len() ==> insert_note(s, n).contains(#[trigger] s[x]),
    decreases s.len(),
{
    if s.len() == 0 {
        assert(insert_note(s, n) =~= seq![n]);
        assert(insert_note(s, n)[0] == n);
    } else if s.last().1 <= n.1 {
        let r = s.push(n);
        assert(insert_note(s, n) =~= r);
        assert(r[s.len() as int] == n);
        assert forall|x: int| 0 <= x < s.len() implies insert_note(s, n).contains(#[trigger] s[x]) by {
            assert(r[x] == s[x]);
        }
    } else {
        let t = s.drop_last();
        lemma_insert_note_contains(t, n);
        let r = insert_note(t, n);
        let whole = r.push(s.last());
        assert(insert_note(s, n) =~= whole);
        let w = choose|w: int| 0 <= w < r.len() && r[w] == n;
        assert(whole[w] == n);
        assert forall|x: int| 0 <= x < s.len() implies insert_note(s, n).contains(#[trigger] s[x]) by {
            if x < t.len() {
                assert(t[x] == s[x]);
                assert(r.contains(t[x]));
                let v = choose|v: int| 0 <= v < r.len() && r[v] == t[x];
                assert(whole[v] == s[x]);
            } else {
                assert(whole[r.len() as int] == s[x]);
            }
        }
    }
}

proof fn lemma_sort_notes_contains(s: Seq<Note>)
    ensures
        forall|x: int| 0 <= x < s.len() ==> sort_notes(s).contains(#[trigger] s[x]),
    decreases s.len(),
{
    if s.len() > 0 {
        let t = s.drop_last();
        lemma_sort_notes_contains(t);
        lemma_insert_note_contains(sort_notes(t), s.last());
        assert forall|x: int| 0 <= x < s.len() implies sort_notes(s).contains(#[trigger] s[x]) by {
            if x < t.len() {
                assert(t[x] == s[x]);
                assert(sort_notes(t).contains(t[x]));
                let v = choose|v: int| 0 <= v < sort_notes(t).len() && sort_notes(t)[v] == t[x];
                assert(sort_notes(s) == insert_note(sort_notes(t), s.last()));
                assert(insert_note(sort_notes(t), s.last()).contains(sort_notes(t)[v]));
            }
        }
    }
}

/// A note-on keeps its note sounding, with the ticks left to its end, until
/// its end has passed (and always just after it), where the note-ons of each
/// key and channel are apart.
proof fn lemma_note_pending(events: EventSeq, i: int, j: int)
    requires
        forall|x: int| 0 <= x < events.len() ==> !is_tempo(#[trigger] events[x].kind),
        note_ons_apart(events),
        0 <= i < j <= events.len(),
        note_on_of(events[i]) is Some,
        j == i + 1 || events_ticks(events.take(i + 1)) + (note_on_of(events[i])->0).1 > events_ticks(
            events.take(j),
        ),
    ensures
        ({
            let n = note_on_of(events[i])->0;
            sequence_output(events.take(j)).1.contains(
                (n.0, (events_ticks(events.take(i + 1)) + n.1 - events_ticks(events.take(j))) as u32, n.2),
            )
        }),
    decreases j - i,
{
    let n = note_on_of(events[i])->0;
    let end = events_ticks(events.take(i + 1)) + n.1;
    let j0 = j - 1;
    lemma_events_ticks_step(events, j0);
    let a = sequence_output(events.take(j0)).1;
    let e = events[j0];
    let sorted = sort_notes(a);
    let st = Expiry {
        bytes: Seq::empty(),
        notes: Seq::empty(),
        ended: Seq::empty(),
        elapsed: 0,
        delta: e.delta as int,
    };
    let ex = expire_all(sorted, st);
    let kept = keep_notes(ex.notes, ex.ended);
    let next = sequence_output(events.take(j)).1;
    assert(!is_tempo(e.kind));
    if j == i + 1 {
        assert(next == kept.push(n));
        assert(next[kept.len() as int] == n);
        assert((end - events_ticks(events.take(j))) as u32 == n.1);
    } else {
        let tj0 = events_ticks(events.take(j0));
        let tj = events_ticks(events.take(j));
        lemma_note_pending(events, i, j0);
        lemma_events_ticks_grow(events, i + 1, j0);
        assert(0 < end - tj0 <= n.1);
        let m = (n.0, (end - tj0) as u32, n.2);
        assert(m.1 == end - tj0);
        assert(a.contains(m));
        let xa = choose|xa: int| 0 <= xa < a.len() && a[xa] == m;
        lemma_sort_notes_contains(a);
        assert(sorted.contains(a[xa]));
        let x = choose|x: int| 0 <= x < sorted.len() && sorted[x] == m;
        lemma_sort_notes(a);
        lemma_expire_all_places(sorted, st);
        assert(m.1 > e.delta);
        assert(ex.notes[0 + x] == (n.0, (end - tj) as u32, n.2));
        assert(ex.ended =~= ending_notes(sorted, e.delta as int).map_values(|q: Note| (q.0, q.2)));
        if ex.ended.contains((n.0, n.2)) {
            let f = ending_notes(sorted, e.delta as int);
            let w = choose|w: int| 0 <= w < ex.ended.len() && ex.ended[w] == (n.0, n.2);
            let q = f[w];
            assert(q.0 == n.0 && q.2 == n.2);
            lemma_ending_notes_due(sorted, e.delta as int, w);
            lemma_active_notes_started(events, j0);
            let started = |p: Note| started_by_note_on(events, j0, p);
            assert forall|y: int| 0 <= y < a.len() implies started(#[trigger] a[y]) by {}
            lemma_sort_notes_all(a, started);
            lemma_ending_notes_from(sorted, e.delta as int, w);
            let y = choose|y: int| 0 <= y < sorted.len() && sorted[y] == q;
            assert(started(sorted[y]));
            let i2 = choose|i2: int|
                0 <= i2 < j0 && (q.1 == 0 ==> i2 == j0 - 1) && #[trigger] note_on_ends_at(
                    events,
                    i2,
                    q.0,
                    q.2,
                    tj0 + q.1,
                );
            lemma_events_ticks_grow(events, i + 1, j0);
            lemma_events_ticks_grow(events, i2 + 1, j0);
            if i2 < i {
                assert(note_on_of(events[i2]) is Some);
                assert(note_on_of(events[i]) is Some);
            } else if i < i2 {
                assert(note_on_of(events[i2]) is Some);
                assert(note_on_of(events[i]) is Some);
            }
            assert(false);
        }
        lemma_keep_notes_keeps(ex.notes, ex.ended, x);
        let v = choose|v: int| 0 <= v < kept.len() && kept[v] == ex.notes[x];
        match e.kind {
            XmiEventKind::Midi { channel, message: XmiMidiMessage::NoteOn { key, duration, .. } } => {
                assert(next == kept.push((key, duration, channel)));
                assert(next[v] == kept[v]);
            },
            _ => {
                assert(next == kept);
            },
        }
    }
}

proof fn lemma_note_off_found(events: EventSeq, i: int, j: int)
    requires
        forall|x: int| 0 <= x < events.len() ==> !is_tempo(#[trigger] events[x].kind),
        note_ons_apart(events),
        0 <= i < j < events.len(),
        note_on_of(events[i]) is Some,
        j == i + 1 || events_ticks(events.take(i + 1)) + (note_on_of(events[i])->0).1 > events_ticks(
            events.take(j),
        ),
        events_ticks(events.take(i + 1)) + (note_on_of(events[i])->0).1 <= events_ticks(events),
    ensures
        exists|j2: int, k: int|
            #![trigger note_offs_at(events, j2)[k]]
            i < j2 < events.len() && 0 <= k < note_offs_at(events, j2).len() && ({
                let off = note_offs_at(events, j2)[k];
                let end = events_ticks(events.take(i + 1)) + (note_on_of(events[i])->0).1;
                &&& off.0 == (note_on_of(events[i])->0).0
                &&& off.2 == (note_on_of(events[i])->0).2
                &&& events_ticks(events.take(j2)) + off.1 == end
                &&& end <= events_ticks(events.take(j2 + 1))
                &&& (j2 == i + 1 || events_ticks(events.take(j2)) < end)
            }),
    decreases events.len() - j,
{
    let n = note_on_of(events[i])->0;
    let end = events_ticks(events.take(i + 1)) + n.1;
    let tj = events_ticks(events.take(j));
    lemma_events_ticks_step(events, j);
    lemma_events_ticks_grow(events, i + 1, j);
    if end <= events_ticks(events.take(j + 1)) {
        lemma_note_pending(events, i, j);
        let a = sequence_output(events.take(j)).1;
        let m = (n.0, (end - tj) as u32, n.2);
        let xa = choose|xa: int| 0 <= xa < a.len() && a[xa] == m;
        lemma_sort_notes_contains(a);
        assert(sort_notes(a).contains(a[xa]));
        let x = choose|x: int| 0 <= x < sort_notes(a).len() && sort_notes(a)[x] == m;
        lemma_ending_notes_member(sort_notes(a), events[j].delta as int, x);
        let f = ending_notes(sort_notes(a), events[j].delta as int);
        let k = choose|k: int| 0 <= k < f.len() && f[k] == m;
        assert(note_offs_at(events, j)[k] == m);
    } else {
        assert(events.take(events.len() as int) =~= events);
        assert(j + 1 < events.len());
        lemma_note_off_found(events, i, j + 1);
    }
}

/// In a song without tempo events whose note-ons of each key and channel are
/// apart, every note-on that ends within the song and is not its last event
/// gets a note-off of its key and channel, written at its end tick (its
/// start tick plus its duration): among the note-offs that open the records
/// of the first later event at or after that tick.
pub proof fn lemma_every_note_gets_its_note_off(events: EventSeq, i: int)
    requires
        forall|x: int| 0 <= x < events.len() ==> !is_tempo(#[trigger] events[x].kind),
        note_ons_apart(events),
        0 <= i,
        i + 1 < events.len(),
        note_on_of(events[i]) is Some,
        events_ticks(events.take(i + 1)) + (note_on_of(events[i])->0).1 <= events_ticks(events),
    ensures
        exists|j: int, k: int|
            #![trigger note_offs_at(events, j)[k]]
            i < j < events.len() && 0 <= k < note_offs_at(events, j).len() && ({
                let off = note_offs_at(events, j)[k];
                let end = events_ticks(events.take(i + 1)) + (note_on_of(events[i])->0).1;
                &&& off.0 == (note_on_of(events[i])->0).0
                &&& off.2 == (note_on_of(events[i])->0).2
                &&& events_ticks(events.take(j)) + off.1 == end
                &&& end <= events_ticks(events.take(j + 1))
                &&& (j == i + 1 || events_ticks(events.take(j)) < end)
            }),
{
    lemma_note_off_found(events, i, i + 1);
}

/// Whether the note-ons of each key and channel of a song are strictly
/// apart: a later one starts after the tick where an earlier one ends.
pub open spec fn note_ons_strictly_apart(events: EventSeq) -> bool {
    forall|i: int, i2: int|
        #![trigger note_on_of(events[i]), note_on_of(events[i2])]
        0 <= i < i2 < events.len() && note_on_of(events[i]) is Some && note_on_of(events[i2]) is Some
            && (note_on_of(events[i])->0).0 == (note_on_of(events[i2])->0).0 && (note_on_of(events[i])->0).2
            == (note_on_of(events[i2])->0).2 ==> events_ticks(events.take(i2 + 1)) > events_ticks(
            events.take(i + 1),
        ) + (note_on_of(events[i])->0).1
}

proof fn lemma_keep_notes_distinct(s: Seq<Note>, ended: Seq<(u8, u8)>)
    requires
        distinct_keys(s),
    ensures
        distinct_keys(keep_notes(s, ended)),
    decreases s.len(),
{
    if s.len() > 0 {
        let t = s.drop_last();
        let l = s.last();
        assert forall|x: int, y: int| 0 <= x < y < t.len() implies (#[trigger] t[x]).0 != (#[trigger] t[y]).0
            || t[x].2 != t[y].2 by {
            assert(t[x] == s[x] && t[y] == s[y]);
        }
        lemma_keep_notes_distinct(t, ended);
        let r = keep_notes(t, ended);
        if !ended.contains((l.0, l.2)) {
            let p = |m: Note| m.0 != l.0 || m.2 != l.2;
            assert forall|x: int| 0 <= x < t.len() && !ended.contains((t[x].0, t[x].2)) implies p(
                #[trigger] t[x],
            ) by {
                assert(t[x] == s[x]);
                assert(s[s.len() - 1] == l);
            }
            lemma_keep_notes_all(t, ended, p);
            let w = r.push(l);
            assert forall|x: int, y: int| 0 <= x < y < w.len() implies (#[trigger] w[x]).0 != (
            #[trigger] w[y]).0 || w[x].2 != w[y].2 by {
                assert(w[x] == r[x]);
                if y < r.len() {
                    assert(w[y] == r[y]);
                } else {
                    assert(p(r[x]));
                }
            }
        }
    }
}

proof fn lemma_ending_notes_distinct(s: Seq<Note>, t: int)
    requires
        distinct_keys(s),
    ensures
        distinct_keys(ending_notes(s, t)),
    decreases s.len(),
{
    if s.len() > 0 {
        let rest = s.drop_last();
        let l = s.last();
        assert forall|x: int, y: int| 0 <= x < y < rest.len() implies (#[trigger] rest[x]).0 != (
        #[trigger] rest[y]).0 || rest[x].2 != rest[y].2 by {
            assert(rest[x] == s[x] && rest[y] == s[y]);
        }
        lemma_ending_notes_distinct(rest, t);
        let r = ending_notes(rest, t);
        if l.1 <= t {
            let w = r.push(l);
            assert forall|x: int, y: int| 0 <= x < y < w.len() implies (#[trigger] w[x]).0 != (
            #[trigger] w[y]).0 || w[x].2 != w[y].2 by {
                assert(w[x] == r[x]);
                if y < r.len() {
                    assert(w[y] == r[y]);
                } else {
                    lemma_ending_notes_from(rest, t, x);
                    let z = choose|z: int| 0 <= z < rest.len() && rest[z] == r[x];
                    assert(rest[z] == s[z]);
                    assert(s[s.len() - 1] == l);
                }
            }
        }
    }
}

/// Where the note-ons of each key and channel are strictly apart, the notes
/// sounding at any point of the song are of distinct keys and channels.
proof fn lemma_active_notes_distinct(events: EventSeq, j: int)
    requires
        0 <= j <= events.len(),
        forall|x: int| 0 <= x < events.len() ==> !is_tempo(#[trigger] events[x].kind),
        note_ons_strictly_apart(events),
    ensures
        distinct_keys(sequence_output(events.take(j)).1),
    decreases j,
{
    if j == 0 {
        assert(events.take(0) =~= Seq::<XmiEvent<Seq<u8>>>::empty());
    } else {
        let j0 = j - 1;
        lemma_active_notes_distinct(events, j0);
        lemma_active_notes_started(events, j0);
        lemma_events_ticks_step(events, j0);
        let a = sequence_output(events.take(j0)).1;
        let e = events[j0];
        let sorted = sort_notes(a);
        let st = Expiry {
            bytes: Seq::empty(),
            notes: Seq::empty(),
            ended: Seq::empty(),
            elapsed: 0,
            delta: e.delta as int,
        };
        let ex = expire_all(sorted, st);
        let kept = keep_notes(ex.notes, ex.ended);
        let next = sequence_output(events.take(j)).1;
        lemma_sort_notes_distinct(a);
        lemma_sort_notes(a);
        lemma_expire_all_places(sorted, st);
        assert forall|x: int, y: int| 0 <= x < y < ex.notes.len() implies (#[trigger] ex.notes[x]).0 != (
        #[trigger] ex.notes[y]).0 || ex.notes[x].2 != ex.notes[y].2 by {
            assert(ex.notes[0 + x].0 == sorted[x].0 && ex.notes[0 + x].2 == sorted[x].2);
            assert(ex.notes[0 + y].0 == sorted[y].0 && ex.notes[0 + y].2 == sorted[y].2);
        }
        lemma_keep_notes_distinct(ex.notes, ex.ended);
        assert(!is_tempo(e.kind));
        match e.kind {
            XmiEventKind::Midi { channel, message: XmiMidiMessage::NoteOn { key, duration, .. } } => {
                let n: Note = (key, duration, channel);
                assert(next == kept.push(n));
                let before = |m: Note| started_by_note_on(events, j0, m);
                assert forall|x: int| 0 <= x < a.len() implies before(#[trigger] a[x]) by {}
                lemma_sort_notes_all(a, before);
                assert(ex.ended =~= ending_notes(sorted, e.delta as int).map_values(|q: Note| (q.0, q.2)));
                let p = |m: Note| m.0 != key || m.2 != channel;
                assert forall|x: int|
                    0 <= x < ex.notes.len() && !ex.ended.contains((ex.notes[x].0, ex.notes[x].2)) implies p(
                    #[trigger] ex.notes[x],
                ) by {
                    let q = sorted[x];
                    assert(ex.notes[0 + x].0 == q.0 && ex.notes[0 + x].2 == q.2);
                    if q.0 == key && q.2 == channel {
                        if q.1 <= e.delta {
                            lemma_ending_notes_member(sorted, e.delta as int, x);
                            let f = ending_notes(sorted, e.delta as int);
                            let w = choose|w: int| 0 <= w < f.len() && f[w] == q;
                            assert(ex.ended[w] == (q.0, q.2));
                        } else {
                            assert(before(sorted[x]));
                            let i = choose|i: int|
                                0 <= i < j0 && (q.1 == 0 ==> i == j0 - 1) && #[trigger] note_on_ends_at(
                                    events,
                                    i,
                                    q.0,
                                    q.2,
                                    events_ticks(events.take(j0)) + q.1,
                                );
                            assert(note_on_of(events[i]) is Some);
                            assert(note_on_of(events[j0]) is Some);
                        }
                    }
                }
                lemma_keep_notes_all(ex.notes, ex.ended, p);
                assert forall|x: int, y: int| 0 <= x < y < next.len() implies (#[trigger] next[x]).0 != (
                #[trigger] next[y]).0 || next[x].2 != next[y].2 by {
                    assert(next[x] == kept[x]);
                    if y < kept.len() {
                        assert(next[y] == kept[y]);
                    } else {
                        assert(p(kept[x]));
                    }
                }
            },
            _ => {
                assert(next == kept);
            },
        }
    }
}

/// The note-offs that open the records of event `j` of a song.
pub open spec fn note_offs_at(events: EventSeq, j: int) -> Seq<Note> {
    ending_notes(sort_notes(sequence_output(events.take(j)).1), events[j].delta as int)
}

/// In a song without tempo events whose note-ons of each key and channel are
/// strictly apart (a later one starts after an earlier one has ended), no
/// two note-offs of one key and channel are written at the same tick. With
/// `lemma_every_note_gets_its_note_off` and
/// `lemma_note_offs_land_at_note_ends`, a note-on that ends within the song
/// (and is not its last event) has exactly one note-off at its end.
pub proof fn lemma_note_offs_never_repeat(events: EventSeq, j: int, k: int, j2: int, k2: int)
    requires
        forall|x: int| 0 <= x < events.len() ==> !is_tempo(#[trigger] events[x].kind),
        note_ons_strictly_apart(events),
        0 <= j <= j2 < events.len(),
        0 <= k < note_offs_at(events, j).len(),
        0 <= k2 < note_offs_at(events, j2).len(),
        j != j2 || k != k2,
    ensures
        ({
            let a = note_offs_at(events, j)[k];
            let b = note_offs_at(events, j2)[k2];
            a.0 != b.0 || a.2 != b.2 || events_ticks(events.take(j)) + a.1 != events_ticks(events.take(j2)) + b.1
        }),
{
    let f = note_offs_at(events, j);
    let f2 = note_offs_at(events, j2);
    let a = f[k];
    let b = f2[k2];
    if j == j2 {
        lemma_active_notes_distinct(events, j);
        lemma_sort_notes_distinct(sequence_output(events.take(j)).1);
        lemma_ending_notes_distinct(sort_notes(sequence_output(events.take(j)).1), events[j].delta as int);
        if k < k2 {
            assert(a.0 != b.0 || a.2 != b.2);
        } else {
            assert(b.0 != a.0 || b.2 != a.2);
        }
    } else if a.0 == b.0 && a.2 == b.2 && events_ticks(events.take(j)) + a.1 == events_ticks(events.take(j2)) + b.1 {
        lemma_ending_notes_due(sort_notes(sequence_output(events.take(j)).1), events[j].delta as int, k);
        lemma_events_ticks_step(events, j);
        lemma_events_ticks_grow(events, j + 1, j2);
        assert(b.1 == 0);
        lemma_active_notes_started(events, j);
        lemma_active_notes_started(events, j2);
        let a_act = sequence_output(events.take(j)).1;
        let b_act = sequence_output(events.take(j2)).1;
        let sa = |m: Note| started_by_note_on(events, j, m);
        let sb = |m: Note| started_by_note_on(events, j2, m);
        assert forall|x: int| 0 <= x < a_act.len() implies sa(#[trigger] a_act[x]) by {}
        assert forall|x: int| 0 <= x < b_act.len() implies sb(#[trigger] b_act[x]) by {}
        lemma_sort_notes_all(a_act, sa);
        lemma_sort_notes_all(b_act, sb);
        lemma_ending_notes_from(sort_notes(a_act), events[j].delta as int, k);
        lemma_ending_notes_from(sort_notes(b_act), events[j2].delta as int, k2);
        let xa = choose|x: int| 0 <= x < sort_notes(a_act).len() && sort_notes(a_act)[x] == a;
        let xb = choose|x: int| 0 <= x < sort_notes(b_act).len() && sort_notes(b_act)[x] == b;
        assert(sa(sort_notes(a_act)[xa]));
        assert(sb(sort_notes(b_act)[xb]));
        let i1 = choose|i: int|
            0 <= i < j && (a.1 == 0 ==> i == j - 1) && #[trigger] note_on_ends_at(
                events,
                i,
                a.0,
                a.2,
                events_ticks(events.take(j)) + a.1,
            );
        let i2 = choose|i: int|
            0 <= i < j2 && (b.1 == 0 ==> i == j2 - 1) && #[trigger] note_on_ends_at(
                events,
                i,
                b.0,
                b.2,
                events_ticks(events.take(j2)) + b.1,
            );
        assert(i2 == j2 - 1);
        lemma_events_ticks_step(events, i2);
        assert(note_on_of(events[i1]) is Some);
        assert(note_on_of(events[i2]) is Some);
        assert(false);
    }
}

proof fn lemma_records_prefix(events: EventSeq, m: int)
    requires
        0 <= m <= events.len(),
    ensures
        sequence_records(events.take(m)).len() <= sequence_records(events).len(),
        sequence_records(events).take(sequence_records(events.take(m)).len() as int) == sequence_records(
            events.take(m),
        ),
    decreases events.len() - m,
{
    if m == events.len() {
        assert(events.take(m) =~= events);
        assert(sequence_records(events).take(sequence_records(events).len() as int) =~= sequence_records(
            events,
        ));
    } else {
        lemma_records_prefix(events, m + 1);
        lemma_events_ticks_step(events, m);
        let a = sequence_records(events.take(m));
        let b = sequence_records(events.take(m + 1));
        let all = sequence_records(events);
        assert(b.take(a.len() as int) =~= a);
        assert(all.take(a.len() as int) =~= all.take(b.len() as int).take(a.len() as int));
    }
}

/// The note-off law of a song, composed over its records. In a song without
/// tempo events whose note-ons of each key and channel are strictly apart,
/// the song's bytes are its records one after the other, their delta times
/// add up to the song's ticks, and a note-on that ends within the song (and
/// is not its last event) has a note-off of its key and channel among the
/// records, at the record position where the ticks written reach the
/// note-on's end. That note-off comes among the note-offs before the first
/// later event at or after the end, and it is the only note-off of that key
/// and channel at that tick.
pub proof fn lemma_song_note_offs(events: EventSeq, i: int)
    requires
        forall|x: int| 0 <= x < events.len() ==> !is_tempo(#[trigger] events[x].kind),
        note_ons_strictly_apart(events),
        0 <= i,
        i + 1 < events.len(),
        note_on_of(events[i]) is Some,
        events_ticks(events.take(i + 1)) + (note_on_of(events[i])->0).1 <= events_ticks(events),
    ensures
        sequence_output(events).0 == records_bytes(sequence_records(events)),
        records_ticks(sequence_records(events)) == events_ticks(events),
        ({
            let recs = sequence_records(events);
            let n = note_on_of(events[i])->0;
            let end = events_ticks(events.take(i + 1)) + n.1;
            exists|j: int, k: int|
                #![trigger note_offs_at(events, j)[k]]
                i < j < events.len() && 0 <= k < note_offs_at(events, j).len() && {
                    let p = sequence_records(events.take(j)).len() + k;
                    &&& p < recs.len()
                    &&& recs[p].1 == note_off_body(n)
                    &&& records_ticks(recs.take(p + 1)) == end
                    &&& end <= events_ticks(events.take(j + 1))
                    &&& (j == i + 1 || events_ticks(events.take(j)) < end)
                    &&& forall|j2: int, k2: int|
                        0 <= j2 < events.len() && 0 <= k2 < note_offs_at(events, j2).len() && (j2 != j
                            || k2 != k) && (#[trigger] note_offs_at(events, j2)[k2]).0 == n.0
                            && note_offs_at(events, j2)[k2].2 == n.2 ==> events_ticks(events.take(j2))
                            + note_offs_at(events, j2)[k2].1 != end
                }
        }),
{
    let recs = sequence_records(events);
    let n = note_on_of(events[i])->0;
    let end = events_ticks(events.take(i + 1)) + n.1;
    lemma_song_keeps_its_ticks(events);
    assert(note_ons_apart(events)) by {
        assert forall|a: int, b: int|
            #![trigger note_on_of(events[a]), note_on_of(events[b])]
            0 <= a < b < events.len() && note_on_of(events[a]) is Some && note_on_of(events[b]) is Some
                && (note_on_of(events[a])->0).0 == (note_on_of(events[b])->0).0 && (note_on_of(events[a])->0).2
                == (note_on_of(events[b])->0).2 implies events_ticks(events.take(b + 1)) >= events_ticks(
            events.take(a + 1),
        ) + (note_on_of(events[a])->0).1 by {}
    }
    lemma_every_note_gets_its_note_off(events, i);
    let (j, k) = choose|j: int, k: int|
        #![trigger note_offs_at(events, j)[k]]
        i < j < events.len() && 0 <= k < note_offs_at(events, j).len() && ({
            let off = note_offs_at(events, j)[k];
            &&& off.0 == n.0
            &&& off.2 == n.2
            &&& events_ticks(events.take(j)) + off.1 == end
            &&& end <= events_ticks(events.take(j + 1))
            &&& (j == i + 1 || events_ticks(events.take(j)) < end)
        });
    let off = note_offs_at(events, j)[k];
    let active = sequence_output(events.take(j)).1;
    let before = sequence_records(events.take(j));
    let ev = event_records(active, events[j]);
    lemma_note_offs_fall_when_notes_end(active, events[j]);
    lemma_events_ticks_step(events, j);
    lemma_records_prefix(events, j + 1);
    let upto = sequence_records(events.take(j + 1));
    assert(upto == before + ev);
    let p = before.len() + k;
    assert(upto[p] == ev[k]);
    assert(recs[p] == upto[p]) by {
        assert(recs.take(upto.len() as int)[p] == recs[p]);
    }
    assert(recs.take(p + 1) =~= before + ev.take(k + 1)) by {
        assert(recs.take(p + 1) =~= recs.take(upto.len() as int).take(p + 1));
        assert((before + ev).take(p + 1) =~= before + ev.take(k + 1));
    }
    lemma_records_concat(before, ev.take(k + 1));
    let prefix = events.take(j);
    assert forall|x: int| 0 <= x < prefix.len() implies !is_tempo(#[trigger] prefix[x].kind) by {
        assert(prefix[x] == events[x]);
    }
    lemma_song_keeps_its_ticks(prefix);
    assert(note_off_body(off) == note_off_body(n));
    assert forall|j2: int, k2: int|
        0 <= j2 < events.len() && 0 <= k2 < note_offs_at(events, j2).len() && (j2 != j || k2 != k) && (
        #[trigger] note_offs_at(events, j2)[k2]).0 == n.0 && note_offs_at(events, j2)[k2].2 == n.2
            implies events_ticks(events.take(j2)) + note_offs_at(events, j2)[k2].1 != end by {
        if j <= j2 {
            lemma_note_offs_never_repeat(events, j, k, j2, k2);
        } else {
            lemma_note_offs_never_repeat(events, j2, k2, j, k);
        }
    }
    assert(p < recs.len());
    assert(ev[k] == (ev[k].0, note_off_body(off)));
    assert(recs[p].1 == note_off_body(n));
    let offs = expiry_records(
        sort_notes(active),
        Expiry {
            bytes: Seq::empty(),
            notes: Seq::empty(),
            ended: Seq::empty(),
            elapsed: 0,
            delta: events[j].delta as int,
        },
    );
    assert(ev.take(k + 1) =~= offs.take(k + 1));
    assert(records_ticks(ev.take(k + 1)) == off.1);
    assert(records_ticks(before) == events_ticks(events.take(j)));
    assert(records_ticks(recs.take(p + 1)) == end);
}

/// A note-on whose end lies past the song's ticks gets no note-off: every
/// note-off of the song is written no later than the song's last event.
pub proof fn lemma_late_note_gets_no_note_off(events: EventSeq, i: int)
    requires
        0 <= i < events.len(),
        note_on_of(events[i]) is Some,
        events_ticks(events.take(i + 1)) + (note_on_of(events[i])->0).1 > events_ticks(events),
    ensures
        forall|j: int, k: int|
            0 <= j < events.len() && 0 <= k < note_offs_at(events, j).len() ==> events_ticks(events.take(j))
                + (#[trigger] note_offs_at(events, j)[k]).1 != events_ticks(events.take(i + 1)) + (
            note_on_of(events[i])->0).1,
{
    assert forall|j: int, k: int|
        0 <= j < events.len() && 0 <= k < note_offs_at(events, j).len() implies events_ticks(events.take(j))
            + (#[trigger] note_offs_at(events, j)[k]).1 != events_ticks(events.take(i + 1)) + (
        note_on_of(events[i])->0).1 by {
        lemma_ending_notes_due(sort_notes(sequence_output(events.take(j)).1), events[j].delta as int, k);
        lemma_events_ticks_step(events, j);
        lemma_events_ticks_grow(events, j + 1, events.len() as int);
        assert(events.take(events.len() as int) =~= events);
    }
}

proof fn lemma_ending_notes_from(s: Seq<Note>, t: int, k: int)
    requires
        0 <= k < ending_notes(s, t).len(),
    ensures
        exists|i: int| 0 <= i < s.len() && s[i] == ending_notes(s, t)[k],
    decreases s.len(),
{
    let r = ending_notes(s.drop_last(), t);
    if k < r.len() {
        lemma_ending_notes_from(s.drop_last(), t, k);
        let i = choose|i: int| 0 <= i < s.drop_last().len() && s.drop_last()[i] == r[k];
        assert(s[i] == s.drop_last()[i]);
    } else {
        assert(s[s.len() - 1] == ending_notes(s, t)[k]);
    }
}

fn push_bytes(data: &mut Vec<u8>, bytes: &Vec<u8>)
    ensures
        final(data)@ == old(data)@ + bytes@,
{
    let ghost start = data@;
    let mut i: usize = 0;
    while i < bytes.len()
        invariant
            i <= bytes@.len(),
            data@ == start + bytes@.take(i as int),
        decreases bytes@.len() - i,
    {
        data.push(bytes[i]);
        i += 1;
        assert(data@ =~= start + bytes@.take(i as int));
    }
    assert(bytes@.take(i as int) =~= bytes@);
}

fn push_length(data: &mut Vec<u8>, n: u32)
    ensures
        final(data)@ == old(data)@ + vlq(n as nat),
{
    let bytes = XmiFile::make_midi_length(n);
    push_bytes(data, &bytes);
}

fn push_payload_meta(data: &mut Vec<u8>, t: u8, b: &Vec<u8>)
    ensures
        final(data)@ == old(data)@ + payload_meta_bytes(t, b@),
{
    let ghost start = data@;
    data.push(t);
    push_length(data, b.len() as u32);
    push_bytes(data, b);
    assert(data@ =~= start + payload_meta_bytes(t, b@));
}

fn push_meta(data: &mut Vec<u8>, m: &MetaMessage<Vec<u8>>)
    ensures
        final(data)@ == old(data)@ + meta_bytes(m@),
{
    let ghost start = data@;
    match m {
        MetaMessage::TrackNumber(t) => {
            data.push(0x00);
            push_length(data, 2);
            if let Some(v) = t {
                data.push((*v >> 8u16) as u8);
                data.push(*v as u8);
            }
        },
        MetaMessage::Text(b) => push_payload_meta(data, 0x01, b),
        MetaMessage::Copyright(b) => push_payload_meta(data, 0x02, b),
        MetaMessage::TrackName(b) => push_payload_meta(data, 0x03, b),
        MetaMessage::InstrumentName(b) => push_payload_meta(data, 0x04, b),
        MetaMessage::Lyric(b) => push_payload_meta(data, 0x05, b),
        MetaMessage::Marker(b) => push_payload_meta(data, 0x06, b),
        MetaMessage::CuePoint(b) => push_payload_meta(data, 0x07, b),
        MetaMessage::ProgramName(b) => push_payload_meta(data, 0x08, b),
        MetaMessage::DeviceName(b) => push_payload_meta(data, 0x09, b),
        MetaMessage::MidiChannel(c) => {
            data.push(0x20);
            push_length(data, 1);
            data.push(*c);
        },
        MetaMessage::MidiPort(p) => {
            data.push(0x21);
            push_length(data, 1);
            data.push(*p);
        },
        MetaMessage::EndOfTrack => {
            data.push(0x2F);
            push_length(data, 0);
        },
        MetaMessage::Tempo(_) => {},
        MetaMessage::TimeSignature(a, b, c, d) => {
            data.push(0x58);
            push_length(data, 4);
            data.push(*a);
            data.push(*b);
            data.push(*c);
            data.push(*d);
        },
        MetaMessage::KeySignature(k, minor) => {
            data.push(0x59);
            push_length(data, 2);
            data.push(*k as u8);
            data.push(
                if *minor {
                    1
                } else {
                    0
                },
            );
        },
        MetaMessage::SequencerSpecific(b) => push_payload_meta(data, 0x7F, b),
        MetaMessage::Unknown(t, b) => push_payload_meta(data, *t, b),
    }
    assert(data@ =~= start + meta_bytes(m@));
}

fn push_kind(data: &mut Vec<u8>, kind: &XmiEventKind<Vec<u8>>)
    ensures
        final(data)@ == old(data)@ + kind_bytes(kind@),
{
    let ghost start = data@;
    match kind {
        XmiEventKind::Midi { channel, message } => {
            let channel = *channel;
            match message {
                XmiMidiMessage::NoteOn { key, vel, .. } => {
                    data.push(0x90 | channel);
                    data.push(*key);
                    data.push(*vel);
                },
                XmiMidiMessage::Aftertouch { key, vel } => {
                    data.push(0xA0 | channel);
                    data.push(*key);
                    data.push(*vel);
                },
                XmiMidiMessage::Controller { controller, value } => {
                    data.push(0xB0 | channel);
                    data.push(*controller);
                    data.push(*value);
                },
                XmiMidiMessage::ProgramChange { program } => {
                    data.push(0xC0 | channel);
                    data.push(*program);
                },
                XmiMidiMessage::ChannelAftertouch { vel } => {
                    data.push(0xD0 | channel);
                    data.push(*vel);
                },
                XmiMidiMessage::PitchBend { bend } => {
                    data.push(0xE0 | channel);
                    data.push(bend.0 as u8);
                    data.push((bend.0 >> 7u16) as u8);
                },
            }
        },
        XmiEventKind::SysEx(sysex) => {
            data.push(0xF0);
            push_length(data, sysex.len() as u32);
            push_bytes(data, sysex);
        },
        XmiEventKind::Meta(meta) => {
            data.push(0xFF);
            push_meta(data, meta);
        },
    }
    assert(data@ =~= start + kind_bytes(kind@));
}

/// The pass over the sorted notes before an event `delta` ticks away: writes
/// the note-offs that fall before it and gives the notes with their ticks
/// updated, the (key, channel) pairs that ended and the ticks left.
fn expire_notes(data: &mut Vec<u8>, sorted: &Vec<Note>, delta: u32) -> (r: (
    Vec<Note>,
    Vec<(u8, u8)>,
    u32,
))
    requires
        notes_sorted(sorted@),
    ensures
        ({
            let ex = expire_all(
                sorted@,
                Expiry {
                    bytes: Seq::empty(),
                    notes: Seq::empty(),
                    ended: Seq::empty(),
                    elapsed: 0,
                    delta: delta as int,
                },
            );
            &&& final(data)@ == old(data)@ + ex.bytes
            &&& r.0@ == ex.notes
            &&& r.1@ == ex.ended
            &&& r.2 as int == ex.delta
        }),
{
    let ghost start = data@;
    let ghost init = Expiry {
        bytes: Seq::empty(),
        notes: Seq::empty(),
        ended: Seq::empty(),
        elapsed: 0,
        delta: delta as int,
    };
    let mut notes: Vec<Note> = Vec::new();
    let mut ended: Vec<(u8, u8)> = Vec::new();
    let mut elapsed: u32 = 0;
    let mut delta = delta;
    let n = sorted.len();
    let mut i: usize = 0;
    while i < n
        invariant
            i <= n == sorted@.len(),
            notes_sorted(sorted@),
            forall|j: int| i <= j < n ==> sorted@[j].1 >= elapsed,
            ({
                let st = expire_all(sorted@.take(i as int), init);
                &&& data@ == start + st.bytes
                &&& notes@ == st.notes
                &&& ended@ == st.ended
                &&& elapsed as int == st.elapsed
                &&& delta as int == st.delta
            }),
        decreases n - i,
    {
        let note = sorted[i];
        let ghost prev = expire_all(sorted@.take(i as int), init);
        proof {
            assert(sorted@.take(i as int + 1).drop_last() =~= sorted@.take(i as int));
            assert(sorted@.take(i as int + 1).last() == note);
        }
        let d = note.1 - elapsed;
        if d > delta {
            notes.push((note.0, d - delta, note.2));
        } else {
            let ghost before = data@;
            push_length(data, d);
            data.push(0x80u8 | note.2);
            data.push(note.0);
            data.push(0);
            assert(data@ =~= before + note_off_bytes(d as int, note));
            notes.push((note.0, d, note.2));
            ended.push((note.0, note.2));
            elapsed = elapsed + d;
            delta = delta - d;
            proof {
                assert forall|j: int| i + 1 <= j < n implies sorted@[j].1 >= elapsed by {
                    assert(sorted@[i as int].1 <= sorted@[j].1);
                }
            }
        }
        proof {
            let st = expire_all(sorted@.take(i as int + 1), init);
            assert(st == expire_note(prev, note));
            assert(data@ =~= start + st.bytes);
        }
        i += 1;
    }
    assert(sorted@.take(n as int) =~= sorted@);
    (notes, ended, delta)
}

fn keep_unended(notes: &Vec<Note>, ended: &Vec<(u8, u8)>) -> (kept: Vec<Note>)
    ensures
        kept@ == keep_notes(notes@, ended@),
{
    let mut kept: Vec<Note> = Vec::new();
    let mut i: usize = 0;
    while i < notes.len()
        invariant
            i <= notes@.len(),
            kept@ == keep_notes(notes@.take(i as int), ended@),
        decreases notes@.len() - i,
    {
        let note = notes[i];
        let mut found = false;
        let mut j: usize = 0;
        while j < ended.len()
            invariant
                j <= ended@.len(),
                found == exists|k: int| 0 <= k < j && ended@[k] == (note.0, note.2),
            decreases ended@.len() - j,
        {
            if ended[j].0 == note.0 && ended[j].1 == note.2 {
                found = true;
            }
            j += 1;
        }
        proof {
            assert(notes@.take(i as int + 1).drop_last() =~= notes@.take(i as int));
            assert(notes@.take(i as int + 1).last() == note);
            if found {
                let k = choose|k: int| 0 <= k < j && ended@[k] == (note.0, note.2);
                assert(ended@.contains((note.0, note.2)));
            } else {
                assert(!ended@.contains((note.0, note.2)));
            }
        }
        if !found {
            kept.push(note);
        }
        i += 1;
    }
    assert(notes@.take(notes@.len() as int) =~= notes@);
    kept
}

fn emit_event(data: &mut Vec<u8>, active: &mut Vec<Note>, event: &XmiEvent<Vec<u8>>)
    ensures
        final(data)@ == old(data)@ + event_output(old(active)@, event@).0,
        final(active)@ == event_output(old(active)@, event@).1,
{
    let ghost start = data@;
    let ghost before = active@;
    sort_notes_in_place(active);
    proof {
        lemma_sort_notes(before);
    }
    let (notes, ended, delta) = expire_notes(data, active, event.delta);
    let kept = keep_unended(&notes, &ended);
    *active = kept;
    let ghost after_offs = data@;
    if let XmiEventKind::Meta(MetaMessage::Tempo(_)) = &event.kind {
        return;
    }
    push_length(data, delta);
    push_kind(data, &event.kind);
    if let XmiEventKind::Midi { channel, message: XmiMidiMessage::NoteOn { key, duration, .. } } =
        &event.kind {
        active.push((*key, *duration, *channel));
    }
    assert(data@ =~= start + event_output(before, event@).0);
}

fn emit_sequence(data: &mut Vec<u8>, sequence: &XmiSequence)
    ensures
        final(data)@ == old(data)@ + sequence_output(sequence@.events).0,
{
    let ghost start = data@;
    let ghost evs = sequence@.events;
    let mut active: Vec<Note> = Vec::new();
    let n = sequence.events.len();
    let mut i: usize = 0;
    assert(evs.take(0) =~= Seq::<XmiEvent<Seq<u8>>>::empty());
    while i < n
        invariant
            i <= n == evs.len() == sequence.events@.len(),
            evs == sequence@.events,
            data@ == start + sequence_output(evs.take(i as int)).0,
            active@ == sequence_output(evs.take(i as int)).1,
        decreases n - i,
    {
        let ghost prev = data@;
        emit_event(data, &mut active, &sequence.events[i]);
        proof {
            assert(evs.take(i as int + 1).drop_last() =~= evs.take(i as int));
            assert(evs.take(i as int + 1).last() == sequence.events@[i as int]@);
            assert(data@ =~= start + sequence_output(evs.take(i as int + 1)).0);
        }
        i += 1;
    }
    assert(evs.take(n as int) =~= evs);
}

impl XmiFile {
    /// The events of every song, one after the other, as the single track of
    /// a standard MIDI file.
    pub fn build_track_events_data(&self) -> (data: Vec<u8>)
        ensures
            data@ == track_bytes(self@),
    {
        let mut data: Vec<u8> = Vec::new();
        let n = self.sequences.len();
        let mut i: usize = 0;
        assert(self@.take(0) =~= Seq::<SequenceModel>::empty());
        while i < n
            invariant
                i <= n == self.sequences@.len() == self@.len(),
                data@ == track_bytes(self@.take(i as int)),
            decreases n - i,
        {
            emit_sequence(&mut data, &self.sequences[i]);
            proof {
                assert(self@.take(i as int + 1).drop_last() =~= self@.take(i as int));
                assert(self@.take(i as int + 1).last() == self.sequences@[i as int]@);
            }
            i += 1;
        }
        assert(self@.take(n as int) =~= self@);
        data
    }

    /// The standard MIDI file of the songs: a format 0 header with one track
    /// at 60 ticks per quarter note, then that track.
    pub fn to_smf_file(&self) -> (file: Vec<u8>)
        ensures
            file@ == smf_file(self@),
    {
        let mut file: Vec<u8> = Vec::new();
        file.push(0x4D);
        file.push(0x54);
        file.push(0x68);
        file.push(0x64);
        file.push(0);
        file.push(0);
        file.push(0);
        file.push(6);
        file.push(0);
        file.push(0);
        file.push(0);
        file.push(1);
        file.push(0);
        file.push(60);
        file.push(0x4D);
        file.push(0x54);
        file.push(0x72);
        file.push(0x6B);
        let track = self.build_track_events_data();
        let length = track.len() as u32;
        file.push((length >> 24u32) as u8);
        file.push((length >> 16u32) as u8);
        file.push((length >> 8u32) as u8);
        file.push(length as u8);
        let ghost head = file@;
        push_bytes(&mut file, &track);
        assert(head =~= smf_header() + seq![0x4Du8, 0x54, 0x72, 0x6B] + be32(length));
        file
    }
}

} // verus!
