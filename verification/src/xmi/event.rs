//! Reading the events of an XMI track.

use vstd::prelude::*;

use super::varlen::{read_midi_length, read_midi_length_checked, vlq};
use super::{EventSeq, MetaMessage, PitchBend, XmiEvent, XmiEventKind, XmiMidiMessage};

verus! {

/// One step of a reader over bytes: a value and the position after it; the
/// end of what can be read (the reader stops quietly there); or a fault, where
/// the bytes cannot be read at all (a length field that runs past the end, a
/// key signature too short to hold one, a delta time beyond `u32`).
pub enum Step<T> {
    Value(T, int),
    Stop,
    Fault,
}

/// The sum of the run of bytes below `0x80` that starts at `pos`, and the
/// position just after the run.
pub open spec fn delta_run(d: Seq<u8>, pos: int) -> (int, int)
    decreases d.len() - pos,
{
    if pos < 0 || pos >= d.len() || d[pos] >= 128 {
        (0, pos)
    } else {
        let r = delta_run(d, pos + 1);
        (d[pos] + r.0, r.1)
    }
}

/// The meta message of type `t` with payload `m`; `None` for a key signature
/// with fewer than two payload bytes, which cannot be read.
pub open spec fn meta_message(t: u8, m: Seq<u8>) -> Option<MetaMessage<Seq<u8>>> {
    if t == 0x00 {
        Some(
            MetaMessage::TrackNumber(
                if m.len() >= 2 {
                    Some((m[0] * 256 + m[1]) as u16)
                } else {
                    None
                },
            ),
        )
    } else if t == 0x01 {
        Some(MetaMessage::Text(m))
    } else if t == 0x02 {
        Some(MetaMessage::Copyright(m))
    } else if t == 0x03 {
        Some(MetaMessage::TrackName(m))
    } else if t == 0x04 {
        Some(MetaMessage::InstrumentName(m))
    } else if t == 0x05 {
        Some(MetaMessage::Lyric(m))
    } else if t == 0x06 {
        Some(MetaMessage::Marker(m))
    } else if t == 0x07 {
        Some(MetaMessage::CuePoint(m))
    } else if t == 0x08 {
        Some(MetaMessage::ProgramName(m))
    } else if t == 0x09 {
        Some(MetaMessage::DeviceName(m))
    } else if t == 0x20 && m.len() > 0 {
        Some(MetaMessage::MidiChannel(m[0]))
    } else if t == 0x21 && m.len() > 0 {
        Some(MetaMessage::MidiPort(m[0]))
    } else if t == 0x2F {
        Some(MetaMessage::EndOfTrack)
    } else if t == 0x51 && m.len() >= 3 {
        Some(MetaMessage::Tempo((m[0] * 65536 + m[1] * 256 + m[2]) as u32))
    } else if t == 0x58 && m.len() >= 4 {
        Some(MetaMessage::TimeSignature(m[0], m[1], m[2], m[3]))
    } else if t == 0x59 {
        if m.len() >= 2 {
            Some(MetaMessage::KeySignature(m[0] as i8, m[1] != 0))
        } else {
            None
        }
    } else if t == 0x7F {
        Some(MetaMessage::SequencerSpecific(m))
    } else {
        Some(MetaMessage::Unknown(t, m))
    }
}

/// The payload of `n` bytes at `q`, as a step of the reader.
pub open spec fn payload_step(d: Seq<u8>, q: int, n: int) -> Step<Seq<u8>> {
    if q + n > d.len() {
        Step::Stop
    } else {
        Step::Value(d.subrange(q, q + n), q + n)
    }
}

/// The body of the event whose status byte is `e`, read from `p` on.
pub open spec fn kind_step(d: Seq<u8>, e: u8, p: int) -> Step<XmiEventKind<Seq<u8>>> {
    if e == 0xFF {
        if p >= d.len() {
            Step::Stop
        } else {
            match read_midi_length(d, p + 1) {
                None => Step::Fault,
                Some((n, q)) => match payload_step(d, q, n as int) {
                    Step::Value(m, r) => match meta_message(d[p], m) {
                        Some(meta) => Step::Value(XmiEventKind::Meta(meta), r),
                        None => Step::Fault,
                    },
                    _ => Step::Stop,
                },
            }
        }
    } else {
        let number = (e & 0x7F) >> 4u8;
        let channel = e & 0x0F;
        if number == 1 {
            if p + 1 >= d.len() {
                Step::Stop
            } else {
                match read_midi_length(d, p + 2) {
                    None => Step::Fault,
                    Some((duration, q)) => Step::Value(
                        XmiEventKind::Midi {
                            channel,
                            message: XmiMidiMessage::NoteOn { key: d[p], vel: d[p + 1], duration },
                        },
                        q,
                    ),
                }
            }
        } else if 2 <= number <= 3 || number == 6 {
            if p + 1 >= d.len() {
                Step::Stop
            } else {
                let a = d[p];
                let b = d[p + 1];
                let message = if number == 2 {
                    XmiMidiMessage::Aftertouch { key: a, vel: b }
                } else if number == 3 {
                    XmiMidiMessage::Controller { controller: a, value: b }
                } else {
                    XmiMidiMessage::PitchBend { bend: PitchBend(((b as u16) << 7u16) | (a as u16)) }
                };
                Step::Value(XmiEventKind::Midi { channel, message }, p + 2)
            }
        } else if 4 <= number <= 5 {
            if p >= d.len() {
                Step::Stop
            } else {
                let message = if number == 4 {
                    XmiMidiMessage::ProgramChange { program: d[p] }
                } else {
                    XmiMidiMessage::ChannelAftertouch { vel: d[p] }
                };
                Step::Value(XmiEventKind::Midi { channel, message }, p + 1)
            }
        } else if number == 7 {
            match read_midi_length(d, p) {
                None => Step::Fault,
                Some((n, q)) => match payload_step(d, q, n as int) {
                    Step::Value(s, r) => Step::Value(XmiEventKind::SysEx(s), r),
                    _ => Step::Stop,
                },
            }
        } else {
            Step::Stop
        }
    }
}

/// The event at `pos`: its delta time (the run of bytes below `0x80` before
/// the status byte, summed) and its body.
pub open spec fn event_step(d: Seq<u8>, pos: int) -> Step<XmiEvent<Seq<u8>>> {
    if pos < 0 || pos >= d.len() {
        Step::Stop
    } else {
        let (delta, p) = delta_run(d, pos);
        if delta > u32::MAX {
            Step::Fault
        } else if p >= d.len() {
            Step::Stop
        } else {
            match kind_step(d, d[p], p + 1) {
                Step::Value(kind, q) => Step::Value(XmiEvent { delta: delta as u32, kind }, q),
                Step::Stop => Step::Stop,
                Step::Fault => Step::Fault,
            }
        }
    }
}

/// The events of the track `d` from `pos` on, up to the first position where
/// no further event can be read; `None` where a fault comes first.
pub open spec fn track_events(d: Seq<u8>, pos: int) -> Option<EventSeq>
    decreases d.len() - pos,
{
    match event_step(d, pos) {
        Step::Value(event, q) => if pos < q <= d.len() {
            match track_events(d, q) {
                Some(rest) => Some(seq![event] + rest),
                None => None,
            }
        } else {
            Some(seq![event])
        },
        Step::Stop => Some(Seq::empty()),
        Step::Fault => None,
    }
}

proof fn lemma_delta_run(d: Seq<u8>, pos: int)
    requires
        0 <= pos,
    ensures
        delta_run(d, pos).0 >= 0,
        pos <= delta_run(d, pos).1,
        delta_run(d, pos).1 <= d.len() || delta_run(d, pos).1 == pos,
        delta_run(d, pos).1 < d.len() ==> d[delta_run(d, pos).1] >= 128,
    decreases d.len() - pos,
{
    if !(pos >= d.len() || d[pos] >= 128) {
        lemma_delta_run(d, pos + 1);
    }
}

/// Every event that is read takes at least its status byte, and no more
/// bytes than there are.
pub proof fn lemma_event_step_progress(d: Seq<u8>, pos: int)
    ensures
        event_step(d, pos) matches Step::Value(_, q) ==> pos < q <= d.len(),
{
    if 0 <= pos < d.len() {
        lemma_delta_run(d, pos);
    }
}

/// A pitch bend is read as fourteen bits, the first data byte the low seven:
/// the status `0xE0 | c` then `lsb` and `msb` (each below `0x80`) are a
/// bend of `msb * 128 + lsb` on channel `c`, with no delta time, and the
/// next event starts three bytes on, whatever follows.
#[verifier::spinoff_prover]
#[verifier::rlimit(40)]
pub proof fn lemma_pitch_bend_read(c: u8, lsb: u8, msb: u8, rest: Seq<u8>)
    requires
        c < 16,
        lsb < 128,
        msb < 128,
    ensures
        event_step(seq![0xE0u8 | c, lsb, msb] + rest, 0) == Step::Value(
            XmiEvent::<Seq<u8>> {
                delta: 0,
                kind: XmiEventKind::Midi {
                    channel: c,
                    message: XmiMidiMessage::PitchBend { bend: PitchBend((msb * 128 + lsb) as u16) },
                },
            },
            3,
        ),
{
    let d = seq![0xE0u8 | c, lsb, msb] + rest;
    let e: u8 = 0xE0u8 | c;
    assert(e >= 128 && e != 0xFF && ((e & 0x7F) >> 4u8) == 6 && (e & 0x0F) == c) by (bit_vector)
        requires
            e == 0xE0u8 | c,
            c < 16,
    ;
    assert(d[0] == e && d[1] == lsb && d[2] == msb);
    assert(delta_run(d, 0) == (0int, 0int));
    let a: u16 = lsb as u16;
    let b: u16 = msb as u16;
    assert(((b << 7u16) | a) == b * 128 + a) by (bit_vector)
        requires
            a < 128,
            b < 128,
    ;
}

/// Reading a length after a prefix is reading it from the bytes that follow
/// the prefix, with the position moved on by the prefix.
proof fn lemma_read_midi_length_after(pre: Seq<u8>, q: Seq<u8>)
    ensures
        read_midi_length(pre + q, pre.len() as int) == match read_midi_length(q, 0) {
            Some((v, r)) => Some((v, r + pre.len())),
            None => None,
        },
{
    let d = pre + q;
    let n = pre.len() as int;
    assert forall|k: int| 0 <= k < q.len() implies d[n + k] == q[k] by {}
}

/// The channel messages are read with their data bytes in order, on the
/// channel of the status byte's low four bits: `0x90 | c` is a note-on of
/// key `a`, velocity `b` and the duration that follows as a variable-length
/// quantity; `0xA0 | c` aftertouch of key `a` at `b`; `0xB0 | c` controller
/// `a` set to `b`; `0xC0 | c` program `a`; `0xD0 | c` channel aftertouch
/// `a`. Each is read with no delta time, and the next event starts just
/// after its bytes.
#[verifier::spinoff_prover]
#[verifier::rlimit(40)]
pub proof fn lemma_channel_messages_read(c: u8, a: u8, b: u8, duration: u32, rest: Seq<u8>)
    requires
        c < 16,
        a < 128,
        b < 128,
        duration < 128 * 128 * 128,
    ensures
        event_step(seq![0x90u8 | c, a, b] + vlq(duration as nat) + rest, 0) == Step::Value(
            XmiEvent::<Seq<u8>> {
                delta: 0,
                kind: XmiEventKind::Midi {
                    channel: c,
                    message: XmiMidiMessage::NoteOn { key: a, vel: b, duration },
                },
            },
            3 + vlq(duration as nat).len() as int,
        ),
        event_step(seq![0xA0u8 | c, a, b] + rest, 0) == Step::Value(
            XmiEvent::<Seq<u8>> {
                delta: 0,
                kind: XmiEventKind::Midi { channel: c, message: XmiMidiMessage::Aftertouch { key: a, vel: b } },
            },
            3,
        ),
        event_step(seq![0xB0u8 | c, a, b] + rest, 0) == Step::Value(
            XmiEvent::<Seq<u8>> {
                delta: 0,
                kind: XmiEventKind::Midi {
                    channel: c,
                    message: XmiMidiMessage::Controller { controller: a, value: b },
                },
            },
            3,
        ),
        event_step(seq![0xC0u8 | c, a] + rest, 0) == Step::Value(
            XmiEvent::<Seq<u8>> {
                delta: 0,
                kind: XmiEventKind::Midi { channel: c, message: XmiMidiMessage::ProgramChange { program: a } },
            },
            2,
        ),
        event_step(seq![0xD0u8 | c, a] + rest, 0) == Step::Value(
            XmiEvent::<Seq<u8>> {
                delta: 0,
                kind: XmiEventKind::Midi { channel: c, message: XmiMidiMessage::ChannelAftertouch { vel: a } },
            },
            2,
        ),
{
    let s9: u8 = 0x90u8 | c;
    let sa: u8 = 0xA0u8 | c;
    let sb: u8 = 0xB0u8 | c;
    let sc: u8 = 0xC0u8 | c;
    let sd: u8 = 0xD0u8 | c;
    assert(s9 >= 128 && s9 != 0xFF && ((s9 & 0x7F) >> 4u8) == 1 && (s9 & 0x0F) == c) by (bit_vector)
        requires
            s9 == 0x90u8 | c,
            c < 16,
    ;
    assert(sa >= 128 && sa != 0xFF && ((sa & 0x7F) >> 4u8) == 2 && (sa & 0x0F) == c) by (bit_vector)
        requires
            sa == 0xA0u8 | c,
            c < 16,
    ;
    assert(sb >= 128 && sb != 0xFF && ((sb & 0x7F) >> 4u8) == 3 && (sb & 0x0F) == c) by (bit_vector)
        requires
            sb == 0xB0u8 | c,
            c < 16,
    ;
    assert(sc >= 128 && sc != 0xFF && ((sc & 0x7F) >> 4u8) == 4 && (sc & 0x0F) == c) by (bit_vector)
        requires
            sc == 0xC0u8 | c,
            c < 16,
    ;
    assert(sd >= 128 && sd != 0xFF && ((sd & 0x7F) >> 4u8) == 5 && (sd & 0x0F) == c) by (bit_vector)
        requires
            sd == 0xD0u8 | c,
            c < 16,
    ;
    let pre = seq![s9, a, b];
    let q = vlq(duration as nat) + rest;
    let d9 = pre + vlq(duration as nat) + rest;
    assert(d9 =~= pre + q);
    assert(d9[0] == s9 && d9[1] == a && d9[2] == b);
    assert(delta_run(d9, 0) == (0int, 0int));
    super::varlen::lemma_midi_length_roundtrip(duration, rest);
    lemma_read_midi_length_after(pre, q);
    assert(vlq(duration as nat).len() >= 1);
    let da = seq![sa, a, b] + rest;
    assert(da[0] == sa && da[1] == a && da[2] == b);
    assert(delta_run(da, 0) == (0int, 0int));
    let db = seq![sb, a, b] + rest;
    assert(db[0] == sb && db[1] == a && db[2] == b);
    assert(delta_run(db, 0) == (0int, 0int));
    let dc = seq![sc, a] + rest;
    assert(dc[0] == sc && dc[1] == a);
    assert(delta_run(dc, 0) == (0int, 0int));
    let dd = seq![sd, a] + rest;
    assert(dd[0] == sd && dd[1] == a);
    assert(delta_run(dd, 0) == (0int, 0int));
}

/// The outcome of reading one event.
pub enum EventParse {
    /// An event and the position after it.
    Event(XmiEvent<Vec<u8>>, usize),
    /// Nothing more can be read.
    End,
    /// The bytes cannot be read as an event.
    Fault,
}

pub open spec fn event_parse_matches(r: EventParse, s: Step<XmiEvent<Seq<u8>>>) -> bool {
    match r {
        EventParse::Event(e, q) => s == Step::Value(e@, q as int),
        EventParse::End => s is Stop,
        EventParse::Fault => s is Fault,
    }
}

fn copy_range(data: &[u8], start: usize, end: usize) -> (out: Vec<u8>)
    requires
        start <= end <= data@.len(),
    ensures
        out@ == data@.subrange(start as int, end as int),
{
    let mut out = Vec::with_capacity(end - start);
    let mut i = start;
    while i < end
        invariant
            start <= i <= end <= data@.len(),
            out@ == data@.subrange(start as int, i as int),
        decreases end - i,
    {
        out.push(data[i]);
        i += 1;
        assert(out@ =~= data@.subrange(start as int, i as int));
    }
    out
}

fn meta_message_exec(t: u8, m: Vec<u8>) -> (r: Option<MetaMessage<Vec<u8>>>)
    ensures
        match r {
            Some(x) => meta_message(t, m@) == Some(x@),
            None => meta_message(t, m@) is None,
        },
{
    let len = m.len();
    match t {
        0x00 => Some(
            MetaMessage::TrackNumber(
                if len >= 2 {
                    Some((m[0] as u16) * 256 + m[1] as u16)
                } else {
                    None
                },
            ),
        ),
        0x01 => Some(MetaMessage::Text(m)),
        0x02 => Some(MetaMessage::Copyright(m)),
        0x03 => Some(MetaMessage::TrackName(m)),
        0x04 => Some(MetaMessage::InstrumentName(m)),
        0x05 => Some(MetaMessage::Lyric(m)),
        0x06 => Some(MetaMessage::Marker(m)),
        0x07 => Some(MetaMessage::CuePoint(m)),
        0x08 => Some(MetaMessage::ProgramName(m)),
        0x09 => Some(MetaMessage::DeviceName(m)),
        0x20 if len > 0 => Some(MetaMessage::MidiChannel(m[0])),
        0x21 if len > 0 => Some(MetaMessage::MidiPort(m[0])),
        0x2F => Some(MetaMessage::EndOfTrack),
        0x51 if len >= 3 => Some(
            MetaMessage::Tempo((m[0] as u32) * 65536 + (m[1] as u32) * 256 + m[2] as u32),
        ),
        0x58 if len >= 4 => Some(MetaMessage::TimeSignature(m[0], m[1], m[2], m[3])),
        0x59 => if len >= 2 {
            Some(MetaMessage::KeySignature(m[0] as i8, m[1] != 0))
        } else {
            None
        },
        0x7F => Some(MetaMessage::SequencerSpecific(m)),
        _ => Some(MetaMessage::Unknown(t, m)),
    }
}

/// Reads the event at `pos`, telling apart the quiet end of the track from
/// bytes that cannot be read.
pub fn read_event(data: &[u8], pos: usize) -> (r: EventParse)
    ensures
        event_parse_matches(r, event_step(data@, pos as int)),
{
    let ghost d = data@;
    let len = data.len();
    if pos >= len {
        return EventParse::End;
    }
    proof {
        lemma_delta_run(d, pos as int);
    }
    let mut p = pos;
    let mut delta: u64 = 0;
    while p < len && data[p] < 128
        invariant
            pos <= p <= len == d.len(),
            data@ == d,
            delta <= u32::MAX,
            delta_run(d, pos as int) == (delta + delta_run(d, p as int).0, delta_run(d, p as int).1),
        decreases len - p,
    {
        delta = delta + data[p] as u64;
        proof {
            lemma_delta_run(d, p + 1);
        }
        if delta > u32::MAX as u64 {
            return EventParse::Fault;
        }
        p += 1;
    }
    if p >= len {
        return EventParse::End;
    }
    let delta = delta as u32;
    let e = data[p];
    let p = p + 1;
    let kind = if e == 0xFF {
        if p >= len {
            return EventParse::End;
        }
        let t = data[p];
        let (n, q) = match read_midi_length_checked(data, p + 1) {
            Some(r) => r,
            None => {
                return EventParse::Fault;
            },
        };
        if n as usize > len - q {
            return EventParse::End;
        }
        let m = copy_range(data, q, q + n as usize);
        match meta_message_exec(t, m) {
            Some(meta) => (XmiEventKind::Meta(meta), q + n as usize),
            None => {
                return EventParse::Fault;
            },
        }
    } else {
        let number = (e & 0x7F) >> 4u8;
        let channel = e & 0x0F;
        if number == 1 {
            if p >= len - 1 {
                return EventParse::End;
            }
            let key = data[p];
            let vel = data[p + 1];
            let (duration, q) = match read_midi_length_checked(data, p + 2) {
                Some(r) => r,
                None => {
                    return EventParse::Fault;
                },
            };
            (
                XmiEventKind::Midi {
                    channel,
                    message: XmiMidiMessage::NoteOn { key, vel, duration },
                },
                q,
            )
        } else if (2 <= number && number <= 3) || number == 6 {
            if p >= len - 1 {
                return EventParse::End;
            }
            let a = data[p];
            let b = data[p + 1];
            let message = if number == 2 {
                XmiMidiMessage::Aftertouch { key: a, vel: b }
            } else if number == 3 {
                XmiMidiMessage::Controller { controller: a, value: b }
            } else {
                XmiMidiMessage::PitchBend { bend: PitchBend(((b as u16) << 7u16) | (a as u16)) }
            };
            (XmiEventKind::Midi { channel, message }, p + 2)
        } else if 4 <= number && number <= 5 {
            if p >= len {
                return EventParse::End;
            }
            let message = if number == 4 {
                XmiMidiMessage::ProgramChange { program: data[p] }
            } else {
                XmiMidiMessage::ChannelAftertouch { vel: data[p] }
            };
            (XmiEventKind::Midi { channel, message }, p + 1)
        } else if number == 7 {
            let (n, q) = match read_midi_length_checked(data, p) {
                Some(r) => r,
                None => {
                    return EventParse::Fault;
                },
            };
            if n as usize > len - q {
                return EventParse::End;
            }
            (XmiEventKind::SysEx(copy_range(data, q, q + n as usize)), q + n as usize)
        } else {
            return EventParse::End;
        }
    };
    EventParse::Event(XmiEvent { delta, kind: kind.0 }, kind.1)
}

/// Reads the events of a track from `pos` to the first position where no
/// further event can be read; `None` where bytes that cannot be read come first.
pub fn read_track_events(data: &[u8], pos: usize) -> (r: Option<Vec<XmiEvent<Vec<u8>>>>)
    ensures
        match r {
            Some(events) => track_events(data@, pos as int) == Some(
                events@.map_values(|e: XmiEvent<Vec<u8>>| e@),
            ),
            None => track_events(data@, pos as int) is None,
        },
{
    let ghost d = data@;
    let mut events: Vec<XmiEvent<Vec<u8>>> = Vec::new();
    let mut p = pos;
    loop
        invariant
            data@ == d,
            pos <= p,
            track_events(d, pos as int) == match track_events(d, p as int) {
                Some(rest) => Some(events@.map_values(|e: XmiEvent<Vec<u8>>| e@) + rest),
                None => None::<EventSeq>,
            },
        decreases d.len() - p,
    {
        let r = read_event(data, p);
        proof {
            lemma_event_step_progress(d, p as int);
        }
        match r {
            EventParse::Event(event, q) => {
                let ghost old_events = events@.map_values(|e: XmiEvent<Vec<u8>>| e@);
                let ghost ev = event@;
                events.push(event);
                proof {
                    assert(events@.map_values(|e: XmiEvent<Vec<u8>>| e@) =~= old_events.push(ev));
                    match track_events(d, q as int) {
                        Some(rest) => {
                            assert(old_events + (seq![ev] + rest) =~= old_events.push(ev) + rest);
                        },
                        None => {},
                    }
                }
                p = q;
            },
            EventParse::End => {
                assert(events@.map_values(|e: XmiEvent<Vec<u8>>| e@) + Seq::<XmiEvent<Seq<u8>>>::empty()
                    =~= events@.map_values(|e: XmiEvent<Vec<u8>>| e@));
                return Some(events);
            },
            EventParse::Fault => {
                return None;
            },
        }
    }
}

} // verus!
