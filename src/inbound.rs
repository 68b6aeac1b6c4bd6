//! What the console reports: decoding an inbound message frame by its opcode,
//! and applying the decoded update to the state cache.
use vstd::prelude::*;
use vstd::slice::slice_subrange;

use crate::cache::{get_or_create_spec, StateCache};
use crate::model::{audio_type_of, audio_width_of, AudioType, AudioWidth, DeskInfo, Fader, FaderView};

verus! {

/// What `String::from_utf8_lossy` makes of these bytes.
pub uninterp spec fn lossy_text(b: Seq<u8>) -> Seq<char>;

/// Relies on `String::from_utf8_lossy`: the text depends on the bytes alone,
/// and no bytes give no text.
#[verifier::external_body]
fn text_from_bytes(b: &[u8]) -> (r: String)
    ensures
        r@ == lossy_text(b@),
        b@.len() == 0 ==> r@.len() == 0,
{
    String::from_utf8_lossy(b).into_owned()
}

/// One inbound message, decoded.
#[derive(Debug)]
pub enum Update {
    FaderLevel { index: u16, level: u16 },
    FaderCut { index: u16, isCut: bool },
    MainLevel { index: u16, level: u16 },
    FaderPfl { index: u16, isPfl: bool },
    DeskName { name: String },
    DeskInfo(DeskInfo),
    FaderLabel { index: u16, label: String },
    MainPfl { index: u16, isPfl: bool },
    MainLabel { index: u16, label: String },
    AuxAvailability { auxes: Vec<bool> },
    FaderFormat { index: u16, pathType: AudioType, format: AudioWidth },
    AuxLevel { index: u16, level: u16 },
    MainAvailability { mains: Vec<bool> },
    InputState { fader1to4: u8 },
    /// An opcode this client does not interpret.
    Unknown { opcode: u8 },
    /// Shorter than its declared length, or than its opcode's fields.
    Malformed,
}

/// The big-endian 16-bit value at `i`.
pub open spec fn be16_at(m: Seq<u8>, i: int) -> u16 {
    (m[i] as int * 256 + m[i + 1] as int) as u16
}

/// Bit `i` of `b`, counted from the least significant.
pub open spec fn bit_set(b: u8, i: u8) -> bool {
    (b >> i) & 1u8 != 0
}

/// The first `n` bits of `b` as flags, least significant first.
pub open spec fn flags_of(b: u8, n: nat) -> Seq<bool> {
    Seq::new(n, |i: int| bit_set(b, i as u8))
}

/// Position of the checksum byte, from the declared length; the payload ends
/// there.
pub open spec fn payload_end(m: Seq<u8>) -> int {
    m[1] + 3
}

/// A message frame as long as it declares, with an opcode.
pub open spec fn well_sized(m: Seq<u8>) -> bool {
    m.len() >= 5 && m[1] >= 2 && m.len() >= m[1] + 4
}

/// The text of the payload from `start` to its end.
pub open spec fn text_at(m: Seq<u8>, start: int) -> Seq<char> {
    lossy_text(m.subrange(start, payload_end(m)))
}

/// `u` is what the message frame `m` reports. The opcode is the second
/// command byte; the fields follow it at fixed offsets, and a text runs to
/// the end of the payload.
pub open spec fn decodes_to(m: Seq<u8>, u: Update) -> bool {
    if !well_sized(m) {
        u == Update::Malformed
    } else {
        let e = payload_end(m);
        let op = m[4];
        let index = be16_at(m, 5);
        if op == 0x00 {
            if e >= 9 { u == Update::FaderLevel { index, level: be16_at(m, 7) } } else { u == Update::Malformed }
        } else if op == 0x01 {
            if e >= 8 { u == Update::FaderCut { index, isCut: m[7] != 0 } } else { u == Update::Malformed }
        } else if op == 0x02 {
            if e >= 9 { u == Update::MainLevel { index, level: be16_at(m, 7) } } else { u == Update::Malformed }
        } else if op == 0x05 {
            if e >= 8 { u == Update::FaderPfl { index, isPfl: m[7] != 0 } } else { u == Update::Malformed }
        } else if op == 0x07 {
            u matches Update::DeskName { name } && name@ == text_at(m, 5)
        } else if op == 0x08 {
            if e >= 17 {
                &&& u matches Update::DeskInfo(d)
                &&& d.cscpVersion == be16_at(m, 5)
                &&& d.numFaders == be16_at(m, 7)
                &&& d.numMains == be16_at(m, 9)
                &&& d.name@ == text_at(m, 17)
            } else {
                u == Update::Malformed
            }
        } else if op == 0x0B {
            if e >= 7 {
                u matches Update::FaderLabel { index: i, label } && i == index && label@ == text_at(m, 7)
            } else {
                u == Update::Malformed
            }
        } else if op == 0x0C {
            if e >= 8 { u == Update::MainPfl { index, isPfl: m[7] == 0 } } else { u == Update::Malformed }
        } else if op == 0x0D {
            if e >= 7 {
                u matches Update::MainLabel { index: i, label } && i == index && label@ == text_at(m, 7)
            } else {
                u == Update::Malformed
            }
        } else if op == 0x10 {
            if e >= 6 {
                u matches Update::AuxAvailability { auxes } && auxes@ == flags_of(m[5], 8)
            } else {
                u == Update::Malformed
            }
        } else if op == 0x11 {
            if e >= 9 {
                u == Update::FaderFormat {
                    index,
                    pathType: match audio_type_of(m[7]) {
                        Some(t) => t,
                        None => AudioType::U,
                    },
                    format: match audio_width_of(m[8]) {
                        Some(w) => w,
                        None => AudioWidth::NP,
                    },
                }
            } else {
                u == Update::Malformed
            }
        } else if op == 0x13 {
            if e >= 9 { u == Update::AuxLevel { index, level: be16_at(m, 7) } } else { u == Update::Malformed }
        } else if op == 0x14 {
            if e >= 6 {
                u matches Update::MainAvailability { mains } && mains@ == flags_of(m[5], 3)
            } else {
                u == Update::Malformed
            }
        } else if op == 0x16 {
            if e >= 6 { u == Update::InputState { fader1to4: m[5] } } else { u == Update::Malformed }
        } else {
            u == Update::Unknown { opcode: op }
        }
    }
}

/// The faders after `u`, and the fader it changed: one field of the fader
/// with that index, which starts as the default where none is cached.
pub open spec fn apply_spec(m: Map<u16, FaderView>, u: Update) -> (Map<u16, FaderView>, Option<FaderView>) {
    match u {
        Update::FaderLevel { index, level } => {
            let f = FaderView { level, ..get_or_create_spec(m, index).1 };
            (m.insert(index, f), Some(f))
        },
        Update::FaderCut { index, isCut } => {
            let f = FaderView { isCut, ..get_or_create_spec(m, index).1 };
            (m.insert(index, f), Some(f))
        },
        Update::FaderPfl { index, isPfl } => {
            let f = FaderView { isPfl, ..get_or_create_spec(m, index).1 };
            (m.insert(index, f), Some(f))
        },
        Update::FaderLabel { index, label } => {
            let f = FaderView { label: label@, ..get_or_create_spec(m, index).1 };
            (m.insert(index, f), Some(f))
        },
        Update::FaderFormat { index, pathType, format } => {
            let f = FaderView { pathType, format, ..get_or_create_spec(m, index).1 };
            (m.insert(index, f), Some(f))
        },
        _ => (m, None),
    }
}

/// The desk information after `u`: a desk-information update replaces it.
pub open spec fn desk_info_after(d: Option<DeskInfo>, u: Update) -> Option<DeskInfo> {
    match u {
        Update::DeskInfo(info) => Some(info),
        _ => d,
    }
}

/// The big-endian 16-bit value at `i`.
fn get_u16(m: &Vec<u8>, i: usize) -> (r: u16)
    requires
        i + 1 < m@.len(),
    ensures
        r == be16_at(m@, i as int),
{
    let n = m.len();
    m[i] as u16 * 256 + m[i + 1] as u16
}

/// The first `n` bits of `b`, least significant first.
fn flags(b: u8, n: u8) -> (r: Vec<bool>)
    requires
        n <= 8,
    ensures
        r@ == flags_of(b, n as nat),
{
    let mut r: Vec<bool> = Vec::new();
    let mut i: u8 = 0;
    while i < n
        invariant
            i <= n <= 8,
            r@ == flags_of(b, i as nat),
        decreases n - i,
    {
        r.push((b >> i) & 1u8 != 0);
        i = i + 1;
        assert(r@ =~= flags_of(b, i as nat));
    }
    r
}

/// The text of the payload of `m` from `start` to its end.
fn text(m: &Vec<u8>, start: usize, end: usize) -> (r: String)
    requires
        well_sized(m@),
        end == payload_end(m@),
        start <= end,
    ensures
        r@ == text_at(m@, start as int),
{
    text_from_bytes(slice_subrange(m.as_slice(), start, end))
}

/// Decodes an inbound message frame by its opcode. Opcodes this client does
/// not interpret give `Unknown`, and frames too short for their fields give
/// `Malformed`.
pub fn decode_message(m: &Vec<u8>) -> (u: Update)
    ensures
        decodes_to(m@, u),
{
    if m.len() < 5 || m[1] < 2 || m.len() < m[1] as usize + 4 {
        return Update::Malformed;
    }
    let e = m[1] as usize + 3;
    let op = m[4];
    if op == 0x00 {
        if e >= 9 { Update::FaderLevel { index: get_u16(m, 5), level: get_u16(m, 7) } } else { Update::Malformed }
    } else if op == 0x01 {
        if e >= 8 { Update::FaderCut { index: get_u16(m, 5), isCut: m[7] != 0 } } else { Update::Malformed }
    } else if op == 0x02 {
        if e >= 9 { Update::MainLevel { index: get_u16(m, 5), level: get_u16(m, 7) } } else { Update::Malformed }
    } else if op == 0x05 {
        if e >= 8 { Update::FaderPfl { index: get_u16(m, 5), isPfl: m[7] != 0 } } else { Update::Malformed }
    } else if op == 0x07 {
        Update::DeskName { name: text(m, 5, e) }
    } else if op == 0x08 {
        if e >= 17 {
            Update::DeskInfo(
                DeskInfo {
                    cscpVersion: get_u16(m, 5),
                    numFaders: get_u16(m, 7),
                    numMains: get_u16(m, 9),
                    name: text(m, 17, e),
                },
            )
        } else {
            Update::Malformed
        }
    } else if op == 0x0B {
        if e >= 7 { Update::FaderLabel { index: get_u16(m, 5), label: text(m, 7, e) } } else { Update::Malformed }
    } else if op == 0x0C {
        if e >= 8 { Update::MainPfl { index: get_u16(m, 5), isPfl: m[7] == 0 } } else { Update::Malformed }
    } else if op == 0x0D {
        if e >= 7 { Update::MainLabel { index: get_u16(m, 5), label: text(m, 7, e) } } else { Update::Malformed }
    } else if op == 0x10 {
        if e >= 6 { Update::AuxAvailability { auxes: flags(m[5], 8) } } else { Update::Malformed }
    } else if op == 0x11 {
        if e >= 9 {
            let pathType = match AudioType::from_code(m[7]) {
                Some(t) => t,
                None => AudioType::U,
            };
            let format = match AudioWidth::from_code(m[8]) {
                Some(w) => w,
                None => AudioWidth::NP,
            };
            Update::FaderFormat { index: get_u16(m, 5), pathType, format }
        } else {
            Update::Malformed
        }
    } else if op == 0x13 {
        if e >= 9 { Update::AuxLevel { index: get_u16(m, 5), level: get_u16(m, 7) } } else { Update::Malformed }
    } else if op == 0x14 {
        if e >= 6 { Update::MainAvailability { mains: flags(m[5], 3) } } else { Update::Malformed }
    } else if op == 0x16 {
        if e >= 6 { Update::InputState { fader1to4: m[5] } } else { Update::Malformed }
    } else {
        Update::Unknown { opcode: op }
    }
}

/// Applies a decoded update to the cache. An update of a fader field fetches
/// or creates the fader, sets that field, stores it back, and returns it as
/// the change to announce; desk information replaces the cached one; the
/// other updates change nothing.
pub fn apply_update(cache: &mut StateCache, update: &Update) -> (r: Option<Fader>)
    requires
        old(cache).wf(),
    ensures
        final(cache).wf(),
        final(cache).faders_view() == apply_spec(old(cache).faders_view(), *update).0,
        match r {
            Some(f) => apply_spec(old(cache).faders_view(), *update).1 == Some(f@),
            None => apply_spec(old(cache).faders_view(), *update).1 is None,
        },
        final(cache).desk_info_view() == desk_info_after(old(cache).desk_info_view(), *update),
{
    let ghost before = cache.faders_view();
    match update {
        Update::FaderLevel { index, level } => {
            let mut fader = cache.get_or_create_fader(*index);
            fader.level = *level;
            let r = store(cache, fader);
            assert(cache.faders_view() =~= apply_spec(before, *update).0);
            Some(r)
        },
        Update::FaderCut { index, isCut } => {
            let mut fader = cache.get_or_create_fader(*index);
            fader.isCut = *isCut;
            let r = store(cache, fader);
            assert(cache.faders_view() =~= apply_spec(before, *update).0);
            Some(r)
        },
        Update::FaderPfl { index, isPfl } => {
            let mut fader = cache.get_or_create_fader(*index);
            fader.isPfl = *isPfl;
            let r = store(cache, fader);
            assert(cache.faders_view() =~= apply_spec(before, *update).0);
            Some(r)
        },
        Update::FaderLabel { index, label } => {
            let mut fader = cache.get_or_create_fader(*index);
            fader.label = label.clone();
            let r = store(cache, fader);
            assert(cache.faders_view() =~= apply_spec(before, *update).0);
            Some(r)
        },
        Update::FaderFormat { index, pathType, format } => {
            let mut fader = cache.get_or_create_fader(*index);
            fader.pathType = *pathType;
            fader.format = *format;
            let r = store(cache, fader);
            assert(cache.faders_view() =~= apply_spec(before, *update).0);
            Some(r)
        },
        Update::DeskInfo(info) => {
            cache.update_desk_info(info.duplicate());
            None
        },
        _ => None,
    }
}

/// Stores the fader back in the cache and hands it on.
fn store(cache: &mut StateCache, fader: Fader) -> (r: Fader)
    requires
        old(cache).wf(),
    ensures
        final(cache).wf(),
        final(cache).faders_view() == old(cache).faders_view().insert(fader.index, fader@),
        final(cache).desk_info_view() == old(cache).desk_info_view(),
        r == fader,
{
    cache.update_fader(fader.duplicate());
    fader
}

} // verus!
