//! Reading a whole XMI file: the `FORM XDIR` header and one `FORM XMID` per
//! song.

use vstd::prelude::*;

use super::event::{
    event_parse_matches, event_step, read_event, read_track_events, track_events, EventParse,
    Step,
};
use super::varlen::{read_midi_length, read_midi_length_checked, vlq, vlq_prefix};
use super::{SequenceModel, XmiEvent, XmiFile, XmiPatch, XmiSequence};

verus! {

/// Why an XMI file was refused.
#[derive(Clone, Copy, Debug, PartialEq, Eq, Structural)]
pub enum XmiError {
    /// The file ends before a field that must be read.
    UnexpectedEof,
    /// A chunk tag is not the one the format puts there.
    InvalidXmi,
}

/// Whether the four bytes at `p` are `t`.
pub open spec fn tag_at(d: Seq<u8>, p: int, t: Seq<u8>) -> bool {
    d[p] == t[0] && d[p + 1] == t[1] && d[p + 2] == t[2] && d[p + 3] == t[3]
}

pub open spec fn form_tag() -> Seq<u8> {
    seq![0x46u8, 0x4F, 0x52, 0x4D]
}

pub open spec fn xdir_tag() -> Seq<u8> {
    seq![0x58u8, 0x44, 0x49, 0x52]
}

pub open spec fn info_tag() -> Seq<u8> {
    seq![0x49u8, 0x4E, 0x46, 0x4F]
}

pub open spec fn cat_tag() -> Seq<u8> {
    seq![0x43u8, 0x41, 0x54, 0x20]
}

pub open spec fn xmid_tag() -> Seq<u8> {
    seq![0x58u8, 0x4D, 0x49, 0x44]
}

pub open spec fn timb_tag() -> Seq<u8> {
    seq![0x54u8, 0x49, 0x4D, 0x42]
}

/// A four-byte tag that must be `t` at `p`.
pub open spec fn expect_tag(d: Seq<u8>, p: int, t: Seq<u8>) -> Option<XmiError> {
    if p + 4 > d.len() {
        Some(XmiError::UnexpectedEof)
    } else if !tag_at(d, p, t) {
        Some(XmiError::InvalidXmi)
    } else {
        None
    }
}

/// The song count of the `FORM XDIR` header, or why the header is refused.
/// The header ends at byte 34, where the first song starts.
pub open spec fn xmi_header(d: Seq<u8>) -> Result<i16, XmiError> {
    if let Some(e) = expect_tag(d, 0, form_tag()) {
        Err(e)
    } else if let Some(e) = expect_tag(d, 8, xdir_tag()) {
        Err(e)
    } else if let Some(e) = expect_tag(d, 12, info_tag()) {
        Err(e)
    } else if 22 > d.len() {
        Err(XmiError::UnexpectedEof)
    } else if let Some(e) = expect_tag(d, 22, cat_tag()) {
        Err(e)
    } else if let Some(e) = expect_tag(d, 30, xmid_tag()) {
        Err(e)
    } else {
        Ok((d[20] + d[21] * 256) as u16 as i16)
    }
}

/// The `count` patches of a `TIMB` chunk, two bytes each, from `p`.
pub open spec fn patches_at(d: Seq<u8>, p: int, count: int) -> Seq<XmiPatch> {
    Seq::new(count as nat, |i: int| XmiPatch { patch: d[p + 2 * i], bank: d[p + 2 * i + 1] })
}

/// One step of reading the songs.
pub enum SongStep {
    Song(SequenceModel, int),
    Failed(XmiError),
    Fault,
}

/// Reads the song whose `FORM` starts at `p`: the `XMID` form, an optional
/// `TIMB` chunk of patches, and the size and bytes of its event chunk (whose
/// own tag is skipped unread).
pub open spec fn song_step(d: Seq<u8>, p: int) -> SongStep {
    if let Some(e) = expect_tag(d, p, form_tag()) {
        SongStep::Failed(e)
    } else if let Some(e) = expect_tag(d, p + 8, xmid_tag()) {
        SongStep::Failed(e)
    } else if p + 16 > d.len() {
        SongStep::Failed(XmiError::UnexpectedEof)
    } else {
        let timb = tag_at(d, p + 12, timb_tag());
        let count: int = if timb && p + 22 <= d.len() {
            d[p + 20] + d[p + 21] * 256
        } else {
            0
        };
        let size_at: int = if timb {
            p + 22 + 2 * count + 4
        } else {
            p + 16
        };
        if timb && (p + 22 > d.len() || p + 22 + 2 * count > d.len()) {
            SongStep::Failed(XmiError::UnexpectedEof)
        } else if size_at + 4 > d.len() {
            SongStep::Failed(XmiError::UnexpectedEof)
        } else {
            let size = d[size_at] * 16777216 + d[size_at + 1] * 65536 + d[size_at + 2] * 256
                + d[size_at + 3];
            let start = size_at + 4;
            if start + size > d.len() {
                SongStep::Failed(XmiError::UnexpectedEof)
            } else {
                match track_events(d.subrange(start, start + size), 0) {
                    None => SongStep::Fault,
                    Some(events) => SongStep::Song(
                        SequenceModel { patches: patches_at(d, p + 22, count), events },
                        start + size,
                    ),
                }
            }
        }
    }
}

/// The outcome of reading a whole file.
pub enum FileParse {
    Parsed(Seq<SequenceModel>),
    Failed(XmiError),
    Fault,
}

/// The `n` songs from `p` on, in order; the first failure or fault ends it.
pub open spec fn songs_from(d: Seq<u8>, p: int, n: nat) -> FileParse
    decreases n,
{
    if n == 0 {
        FileParse::Parsed(Seq::empty())
    } else {
        match song_step(d, p) {
            SongStep::Failed(e) => FileParse::Failed(e),
            SongStep::Fault => FileParse::Fault,
            SongStep::Song(s, q) => match songs_from(d, q, (n - 1) as nat) {
                FileParse::Parsed(rest) => FileParse::Parsed(seq![s] + rest),
                other => other,
            },
        }
    }
}

/// What the XMI file `d` reads as. A negative song count is a fault.
pub open spec fn xmi_parse(d: Seq<u8>) -> FileParse {
    match xmi_header(d) {
        Err(e) => FileParse::Failed(e),
        Ok(count) => if count < 0 {
            FileParse::Fault
        } else {
            songs_from(d, 34, count as nat)
        },
    }
}

/// Whether the file `d` holds bytes that cannot be read at all (see `Step`),
/// or a negative song count, before any failure.
pub open spec fn xmi_faults(d: Seq<u8>) -> bool {
    xmi_parse(d) is Fault
}

fn has_tag(data: &[u8], p: usize, t0: u8, t1: u8, t2: u8, t3: u8) -> (b: bool)
    requires
        p + 4 <= data@.len(),
    ensures
        b == tag_at(data@, p as int, seq![t0, t1, t2, t3]),
{
    data[p] == t0 && data[p + 1] == t1 && data[p + 2] == t2 && data[p + 3] == t3
}

fn check_tag(data: &[u8], p: usize, t0: u8, t1: u8, t2: u8, t3: u8) -> (r: Option<XmiError>)
    ensures
        r == expect_tag(data@, p as int, seq![t0, t1, t2, t3]),
{
    if p > data.len() || data.len() - p < 4 {
        Some(XmiError::UnexpectedEof)
    } else if !has_tag(data, p, t0, t1, t2, t3) {
        Some(XmiError::InvalidXmi)
    } else {
        None
    }
}

fn read_header(data: &[u8]) -> (r: Result<i16, XmiError>)
    ensures
        r == xmi_header(data@),
{
    if let Some(e) = check_tag(data, 0, 0x46, 0x4F, 0x52, 0x4D) {
        return Err(e);
    }
    if let Some(e) = check_tag(data, 8, 0x58, 0x44, 0x49, 0x52) {
        return Err(e);
    }
    if let Some(e) = check_tag(data, 12, 0x49, 0x4E, 0x46, 0x4F) {
        return Err(e);
    }
    if data.len() < 22 {
        return Err(XmiError::UnexpectedEof);
    }
    let count = (data[20] as u16 + (data[21] as u16) * 256) as i16;
    if let Some(e) = check_tag(data, 22, 0x43, 0x41, 0x54, 0x20) {
        return Err(e);
    }
    if let Some(e) = check_tag(data, 30, 0x58, 0x4D, 0x49, 0x44) {
        return Err(e);
    }
    Ok(count)
}


/// The outcome of reading one song.
pub enum SongRead {
    Song(XmiSequence, usize),
    Failed(XmiError),
    Fault,
}

pub open spec fn song_read_matches(r: SongRead, s: SongStep) -> bool {
    match r {
        SongRead::Song(seq, q) => s == SongStep::Song(seq@, q as int),
        SongRead::Failed(e) => s == SongStep::Failed(e),
        SongRead::Fault => s is Fault,
    }
}

fn copy_bytes(data: &[u8], start: usize, end: usize) -> (out: Vec<u8>)
    requires
        start <= end <= data@.len(),
    ensures
        out@ == data@.subrange(start as int, end as int),
{
    let mut out = Vec::with_capacity(end - start);
    let mut i = start;
    while i < end
        invariant
            start <= i <= end <= data@.len(),
            out@ == data@.subrange(start as int, i as int),
        decreases end - i,
    {
        out.push(data[i]);
        i += 1;
        assert(out@ =~= data@.subrange(start as int, i as int));
    }
    out
}

fn read_patches(data: &[u8], q: usize, count: usize) -> (patches: Vec<XmiPatch>)
    requires
        q + 2 * count <= data@.len(),
    ensures
        patches@ == patches_at(data@, q as int, count as int),
{
    let mut patches: Vec<XmiPatch> = Vec::with_capacity(count);
    let mut i: usize = 0;
    let len = data.len();
    while i < count
        invariant
            i <= count,
            len == data@.len(),
            q + 2 * count <= data@.len(),
            patches@ =~= patches_at(data@, q as int, i as int),
        decreases count - i,
    {
        patches.push(XmiPatch { patch: data[q + 2 * i], bank: data[q + 2 * i + 1] });
        i += 1;
    }
    patches
}

/// Reads the song whose `FORM` starts at `p`.
fn read_song(data: &[u8], p: usize) -> (r: SongRead)
    requires
        p <= data@.len(),
    ensures
        song_read_matches(r, song_step(data@, p as int)),
        r matches SongRead::Song(_, q) ==> p < q <= data@.len(),
{
    let ghost d = data@;
    let len = data.len();
    let rem = len - p;
    if let Some(e) = check_tag(data, p, 0x46, 0x4F, 0x52, 0x4D) {
        return SongRead::Failed(e);
    }
    if rem < 12 {
        return SongRead::Failed(XmiError::UnexpectedEof);
    }
    if !has_tag(data, p + 8, 0x58, 0x4D, 0x49, 0x44) {
        return SongRead::Failed(XmiError::InvalidXmi);
    }
    if rem < 16 {
        return SongRead::Failed(XmiError::UnexpectedEof);
    }
    let timb = has_tag(data, p + 12, 0x54, 0x49, 0x4D, 0x42);
    let mut patches: Vec<XmiPatch> = Vec::new();
    let size_at: usize;
    let ghost count: int = 0;
    if timb {
        if rem < 22 {
            return SongRead::Failed(XmiError::UnexpectedEof);
        }
        let n = data[p + 20] as usize + (data[p + 21] as usize) * 256;
        proof {
            count = n as int;
        }
        if rem - 22 < 2 * n {
            return SongRead::Failed(XmiError::UnexpectedEof);
        }
        patches = read_patches(data, p + 22, n);
        if rem - 22 - 2 * n < 8 {
            return SongRead::Failed(XmiError::UnexpectedEof);
        }
        size_at = p + 22 + 2 * n + 4;
    } else {
        if rem < 20 {
            return SongRead::Failed(XmiError::UnexpectedEof);
        }
        size_at = p + 16;
    }
    assert(patches@ =~= patches_at(d, p + 22, count));
    let size = (data[size_at] as u32) * 16777216 + (data[size_at + 1] as u32) * 65536
        + (data[size_at + 2] as u32) * 256 + data[size_at + 3] as u32;
    let start = size_at + 4;
    if size as usize > len - start {
        return SongRead::Failed(XmiError::UnexpectedEof);
    }
    let end = start + size as usize;
    let track = copy_bytes(data, start, end);
    match read_track_events(track.as_slice(), 0) {
        None => SongRead::Fault,
        Some(events) => SongRead::Song(XmiSequence { patches, events }, end),
    }
}

/// The outcome of reading a whole file.
pub enum FileRead {
    Parsed(XmiFile),
    Failed(XmiError),
    Fault,
}

pub open spec fn file_read_matches(r: FileRead, s: FileParse) -> bool {
    match r {
        FileRead::Parsed(f) => s == FileParse::Parsed(f@),
        FileRead::Failed(e) => s == FileParse::Failed(e),
        FileRead::Fault => s is Fault,
    }
}

/// Reads a whole XMI file, telling apart refused files from files with bytes
/// that cannot be read at all.
pub fn read_file(data: &[u8]) -> (r: FileRead)
    ensures
        file_read_matches(r, xmi_parse(data@)),
{
    let ghost d = data@;
    let count = match read_header(data) {
        Err(e) => {
            return FileRead::Failed(e);
        },
        Ok(count) => count,
    };
    if count < 0 {
        return FileRead::Fault;
    }
    let count = count as usize;
    let mut sequences: Vec<XmiSequence> = Vec::with_capacity(count);
    let mut p: usize = 34;
    let mut i: usize = 0;
    while i < count
        invariant
            data@ == d,
            i <= count,
            p <= d.len(),
            xmi_header(d) == Ok::<i16, XmiError>(count as i16),
            0 <= count as i16,
            count as int == (count as i16) as int,
            xmi_parse(d) == match songs_from(d, p as int, (count - i) as nat) {
                FileParse::Parsed(rest) => FileParse::Parsed(
                    sequences@.map_values(|s: XmiSequence| s@) + rest,
                ),
                other => other,
            },
        decreases count - i,
    {
        match read_song(data, p) {
            SongRead::Song(song, q) => {
                let ghost old_seqs = sequences@.map_values(|s: XmiSequence| s@);
                let ghost sv = song@;
                sequences.push(song);
                proof {
                    assert(sequences@.map_values(|s: XmiSequence| s@) =~= old_seqs.push(sv));
                    match songs_from(d, q as int, (count - i - 1) as nat) {
                        FileParse::Parsed(rest) => {
                            assert(old_seqs + (seq![sv] + rest) =~= old_seqs.push(sv) + rest);
                        },
                        _ => {},
                    }
                }
                p = q;
                i += 1;
            },
            SongRead::Failed(e) => {
                return FileRead::Failed(e);
            },
            SongRead::Fault => {
                return FileRead::Fault;
            },
        }
    }
    assert(sequences@.map_values(|s: XmiSequence| s@) + Seq::<SequenceModel>::empty()
        =~= sequences@.map_values(|s: XmiSequence| s@));
    FileRead::Parsed(XmiFile { sequences })
}


fn midi_length_prefix(n: u32) -> (bytes: Vec<u8>)
    ensures
        bytes@ == vlq_prefix(n as nat),
    decreases n,
{
    if n == 0 {
        Vec::new()
    } else {
        let mut bytes = midi_length_prefix(n / 128);
        bytes.push((n % 128 + 128) as u8);
        bytes
    }
}

impl XmiFile {
    /// Reads an XMI file. The bytes must not hold a fault (see `faults`);
    /// otherwise the file is either read whole or refused with the first
    /// error met.
    pub fn new(data: &[u8]) -> (r: Result<XmiFile, XmiError>)
        requires
            !xmi_faults(data@),
        ensures
            match r {
                Ok(f) => xmi_parse(data@) == FileParse::Parsed(f@),
                Err(e) => xmi_parse(data@) == FileParse::Failed(e),
            },
    {
        match read_file(data) {
            FileRead::Parsed(f) => Ok(f),
            FileRead::Failed(e) => Err(e),
            FileRead::Fault => unreached(),
        }
    }

    /// Whether `data` holds bytes that cannot be read as XMI at all (see
    /// `Step`) before anything that refuses the file.
    pub fn faults(data: &[u8]) -> (b: bool)
        ensures
            b == xmi_faults(data@),
    {
        match read_file(data) {
            FileRead::Fault => true,
            _ => false,
        }
    }

    /// Reads the event at `pos` of the track `data`: the event and the
    /// position after it, or `None` at the end of what can be read. The bytes
    /// there must not be a fault.
    pub fn parse_xmi_event(data: &[u8], pos: usize) -> (r: Option<(XmiEvent<Vec<u8>>, usize)>)
        requires
            !(event_step(data@, pos as int) is Fault),
        ensures
            match r {
                Some((e, q)) => event_step(data@, pos as int) == Step::Value(e@, q as int),
                None => event_step(data@, pos as int) is Stop,
            },
    {
        match read_event(data, pos) {
            EventParse::Event(e, q) => Some((e, q)),
            EventParse::End => None,
            EventParse::Fault => unreached(),
        }
    }

    /// Reads the variable-length quantity at `pos`: its value and the position
    /// after it. The bytes must hold it.
    pub fn parse_midi_length(data: &[u8], pos: usize) -> (r: (u32, usize))
        requires
            read_midi_length(data@, pos as int) is Some,
        ensures
            read_midi_length(data@, pos as int) == Some((r.0, r.1 as int)),
    {
        match read_midi_length_checked(data, pos) {
            Some(r) => r,
            None => unreached(),
        }
    }

    /// Encodes `length` as a variable-length quantity.
    pub fn make_midi_length(length: u32) -> (bytes: Vec<u8>)
        ensures
            bytes@ == vlq(length as nat),
    {
        let mut bytes = midi_length_prefix(length / 128);
        bytes.push((length % 128) as u8);
        bytes
    }
}

} // verus!
