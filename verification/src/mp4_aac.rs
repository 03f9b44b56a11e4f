//! ISO-BMFF / MP4 facts about AAC-LC audiobook artifacts.
//!
//! Reads encoder priming (`elst` media time), the AAC profile (`esds`) and
//! chapter boxes, and strips the native encoder delay from an ADTS stream.

use crate::bytes::{
    be_at, be_u16, be_u32, be_u64, law_big_endian_puts_the_high_byte_first,
};
use crate::paths::{path_extension, MediaPath};
use crate::text::{
    decimal, decimal_text, law_decimals_are_read_back, lower, lower_text, number_in, opt_is,
    opt_text, same_ignoring_case, same_text,
};
use vstd::prelude::*;
use vstd::slice::slice_subrange;
use vstd::string::*;

verus! {

// ---- ADTS -----------------------------------------------------------------

/// The length of the ADTS frame whose seven-byte header starts at `at`.
pub open spec fn adts_length(data: Seq<u8>, at: int) -> int {
    (data[at + 3] % 4) * 2048 + data[at + 4] * 8 + data[at + 5] / 32
}

/// Whether a complete ADTS frame starts at `at`: a sync word, a header, and as
/// many bytes as the header announces.
pub open spec fn has_adts_frame(data: Seq<u8>, at: int) -> bool {
    &&& at + 7 <= data.len()
    &&& data[at] == 0xFF
    &&& data[at + 1] & 0xF0 == 0xF0
    &&& 7 <= adts_length(data, at)
    &&& at + adts_length(data, at) <= data.len()
}

/// The length of the complete ADTS frame at `offset`, and whether its header
/// carries no checksum.
pub fn adts_frame_at(data: &[u8], offset: usize) -> (r: Option<(usize, bool)>)
    ensures
        r is Some <==> has_adts_frame(data@, offset as int),
        r matches Some((n, bare)) ==> {
            &&& n == adts_length(data@, offset as int)
            &&& bare == (data@[offset + 1] & 0x01 != 0)
        },
{
    if offset > data.len() || data.len() - offset < 7 {
        return None;
    }
    if data[offset] != 0xFF || data[offset + 1] & 0xF0 != 0xF0 {
        return None;
    }
    let protection_absent = data[offset + 1] & 0x01 != 0;
    let len: usize = (data[offset + 3] % 4) as usize * 2048 + data[offset + 4] as usize * 8 + (
    data[offset + 5] / 32) as usize;
    if len < 7 || len > data.len() - offset {
        return None;
    }
    Some((len, protection_absent))
}

/// Why the encoder delay cannot be dropped from an ADTS stream.
#[derive(Debug, Clone, Copy, PartialEq, Eq, Structural)]
pub enum AdtsError {
    NoFirstFrame,
    OnlyOneFrame,
    NoFrameLeft,
}

impl AdtsError {
    pub fn message(&self) -> (r: &'static str)
        ensures
            r@ == match self {
                AdtsError::NoFirstFrame => "ADTS stream has no complete first frame to drop"@,
                AdtsError::OnlyOneFrame => "ADTS stream has only one frame; cannot drop encoder delay"@,
                AdtsError::NoFrameLeft => "ADTS stream has no frames after dropping encoder delay"@,
            },
    {
        match self {
            AdtsError::NoFirstFrame => "ADTS stream has no complete first frame to drop",
            AdtsError::OnlyOneFrame => "ADTS stream has only one frame; cannot drop encoder delay",
            AdtsError::NoFrameLeft => "ADTS stream has no frames after dropping encoder delay",
        }
    }
}

/// Drops the first complete ADTS AAC frame (the native encoder delay of 1024
/// samples). The rest must start with a complete frame of its own.
pub fn drop_first_adts_frame(input: &[u8]) -> (r: Result<Vec<u8>, AdtsError>)
    ensures
        match r {
            Ok(rest) => {
                &&& has_adts_frame(input@, 0)
                &&& rest@ == input@.skip(adts_length(input@, 0))
                &&& has_adts_frame(rest@, 0)
            },
            Err(AdtsError::NoFirstFrame) => !has_adts_frame(input@, 0),
            Err(AdtsError::OnlyOneFrame) => has_adts_frame(input@, 0) && adts_length(input@, 0)
                == input@.len(),
            Err(AdtsError::NoFrameLeft) => {
                &&& has_adts_frame(input@, 0)
                &&& adts_length(input@, 0) < input@.len()
                &&& !has_adts_frame(input@.skip(adts_length(input@, 0)), 0)
            },
        },
{
    let frame_len: usize = match adts_frame_at(input, 0) {
        Some((n, _)) => n,
        None => {
            return Err(AdtsError::NoFirstFrame);
        },
    };
    if frame_len >= input.len() {
        return Err(AdtsError::OnlyOneFrame);
    }
    let rest = slice_subrange(input, frame_len, input.len());
    assert(rest@ =~= input@.skip(frame_len as int));
    if adts_frame_at(rest, 0).is_none() {
        return Err(AdtsError::NoFrameLeft);
    }
    Ok(vstd::slice::slice_to_vec(rest))
}

/// Only the first frame goes: of a frame and a stream behind it, the stream is
/// left, untouched.
pub proof fn law_only_the_first_frame_goes(
    first: Seq<u8>,
    rest: Seq<u8>,
    input: &[u8],
    r: Result<Vec<u8>, AdtsError>,
)
    requires
        has_adts_frame(first, 0),
        adts_length(first, 0) == first.len(),
        has_adts_frame(rest, 0),
        input@ == first + rest,
        call_ensures(drop_first_adts_frame, (input,), r),
    ensures
        r matches Ok(left) && left@ == rest,
{
    assert(adts_length(input@, 0) == first.len());
    assert(input@.skip(first.len() as int) =~= rest);
}

// ---- boxes ----------------------------------------------------------------

/// `moov`
pub const MOOV: u32 = 0x6D6F_6F76;

/// `edts`
pub const EDTS: u32 = 0x6564_7473;

/// `mdia`
pub const MDIA: u32 = 0x6D64_6961;

/// `minf`
pub const MINF: u32 = 0x6D69_6E66;

/// `stbl`
pub const STBL: u32 = 0x7374_626C;

/// `udta`
pub const UDTA: u32 = 0x7564_7461;

/// `moof`
pub const MOOF: u32 = 0x6D6F_6F66;

/// `meta`
pub const META: u32 = 0x6D65_7461;

/// `ilst`
pub const ILST: u32 = 0x696C_7374;

/// `trak`
pub const TRAK: u32 = 0x7472_616B;

/// `elst`
pub const ELST: u32 = 0x656C_7374;

/// `stsd`
pub const STSD: u32 = 0x7374_7364;

/// `esds`
pub const ESDS: u32 = 0x6573_6473;

/// `chpl`
pub const CHPL: u32 = 0x6368_706C;

/// `chap`
pub const CHAP: u32 = 0x6368_6170;

/// `covr`
pub const COVR: u32 = 0x636F_7672;

/// `enca`
pub const ENCA: u32 = 0x656E_6361;

/// `encv`
pub const ENCV: u32 = 0x656E_6376;

/// `pssh`
pub const PSSH: u32 = 0x7073_7368;

/// `sinf`
pub const SINF: u32 = 0x7369_6E66;

/// `hdlr`
pub const HDLR: u32 = 0x6864_6C72;

/// `soun`
pub const SOUN: u32 = 0x736F_756E;

/// `mp4a`
pub const MP4A: u32 = 0x6D70_3461;

/// `mp4v`
pub const MP4V: u32 = 0x6D70_3476;

/// `avc1`
pub const AVC1: u32 = 0x6176_6331;

/// The box that starts at `offset`: its kind, its payload and the offset behind
/// it. The size field counts the header; one means that a 64-bit size follows,
/// zero that the box extends to the end. `None` when the header or the payload
/// does not fit.
pub open spec fn box_at(data: Seq<u8>, offset: nat) -> Option<(u32, Seq<u8>, nat)> {
    let size = be_at(data, offset as int, 4);
    let header: nat = if size == 1 {
        16
    } else {
        8
    };
    let total: nat = if size == 1 {
        be_at(data, (offset + 8) as int, 8)
    } else if size == 0 {
        (data.len() - offset) as nat
    } else {
        size
    };
    if offset + 8 > data.len() || offset + header > data.len() || total < header || offset + total
        > data.len() {
        None
    } else {
        Some(
            (
                be_at(data, (offset + 4) as int, 4) as u32,
                data.subrange((offset + header) as int, (offset + total) as int),
                offset + total,
            ),
        )
    }
}

/// A payload is shorter than the data around its box, and the next box starts
/// further on.
pub proof fn lemma_box_shrinks(data: Seq<u8>, offset: nat)
    ensures
        box_at(data, offset) matches Some((_, payload, next)) ==> {
            &&& payload.len() + 8 <= data.len() - offset
            &&& offset + 8 <= next <= data.len()
        },
{
}

pub fn next_box(data: &[u8], offset: usize) -> (r: Option<(u32, &[u8], usize)>)
    ensures
        match r {
            Some((kind, payload, next)) => box_at(data@, offset as nat) == Some(
                (kind, payload@, next as nat),
            ),
            None => box_at(data@, offset as nat) is None,
        },
{
    if offset > data.len() || data.len() - offset < 8 {
        return None;
    }
    let room: usize = data.len() - offset;
    let size = be_u32(data, offset);
    let kind = be_u32(data, offset + 4);
    let header: usize = if size == 1 {
        16
    } else {
        8
    };
    if header > room {
        return None;
    }
    let total: u64 = if size == 1 {
        be_u64(data, offset + 8)
    } else if size == 0 {
        room as u64
    } else {
        size as u64
    };
    if total < header as u64 || total > room as u64 {
        return None;
    }
    let end: usize = offset + total as usize;
    Some((kind, slice_subrange(data, offset + header, end), end))
}

/// The handler kind that the `hdlr` box of a track names, searched for in the
/// boxes from `offset` on and in the media, media-information and edit boxes
/// among them.
pub open spec fn handler(data: Seq<u8>, offset: nat) -> Option<u32>
    decreases data.len(), data.len() - offset,
{
    match box_at(data, offset) {
        None => None,
        Some((kind, payload, next)) => {
            if kind == HDLR && payload.len() >= 12 {
                Some(be_at(payload, 8, 4) as u32)
            } else if payload.len() < data.len() && offset < next <= data.len() {
                let inner = if kind == MDIA || kind == MINF || kind == EDTS {
                    handler(payload, 0)
                } else {
                    None
                };
                if inner is Some {
                    inner
                } else {
                    handler(data, next)
                }
            } else {
                None
            }
        },
    }
}

pub fn find_handler(data: &[u8]) -> (r: Option<u32>)
    ensures
        r == handler(data@, 0),
    decreases data@.len(),
{
    let mut offset: usize = 0;
    loop
        invariant
            offset <= data@.len(),
            handler(data@, 0) == handler(data@, offset as nat),
        decreases data@.len() - offset,
    {
        match next_box(data, offset) {
            None => {
                return None;
            },
            Some((kind, payload, next)) => {
                proof {
                    lemma_box_shrinks(data@, offset as nat);
                }
                if kind == HDLR && payload.len() >= 12 {
                    return Some(be_u32(payload, 8));
                }
                if kind == MDIA || kind == MINF || kind == EDTS {
                    if let Some(h) = find_handler(payload) {
                        return Some(h);
                    }
                }
                offset = next;
            },
        }
    }
}

/// Whether a track holds sound.
pub open spec fn is_sound_track(trak: Seq<u8>) -> bool {
    handler(trak, 0) == Some(SOUN)
}

pub fn track_is_sound(trak: &[u8]) -> (r: bool)
    ensures
        r == is_sound_track(trak@),
{
    match find_handler(trak) {
        Some(h) => h == SOUN,
        None => false,
    }
}

// ---- edit lists -----------------------------------------------------------

/// The two's-complement reading of a 32-bit number.
pub open spec fn signed_32(n: nat) -> int {
    if n < 0x8000_0000 {
        n as int
    } else {
        n - 0x1_0000_0000
    }
}

/// The two's-complement reading of a 64-bit number.
pub open spec fn signed_64(n: nat) -> int {
    if n < 0x8000_0000_0000_0000 {
        n as int
    } else {
        n - 0x1_0000_0000_0000_0000
    }
}

/// The size of one edit of an edit list.
pub open spec fn edit_size(payload: Seq<u8>) -> nat {
    if payload[0] == 1 {
        20
    } else {
        12
    }
}

/// The media time of the edit at `pos`; minus one marks an empty edit.
pub open spec fn edit_media_time(payload: Seq<u8>, pos: int) -> int {
    if payload[0] == 1 {
        signed_64(be_at(payload, pos + 8, 8))
    } else {
        signed_32(be_at(payload, pos + 4, 4))
    }
}

/// The media time of the first non-empty edit among the `left` edits from
/// `pos` on; zero when all of them are empty, `None` when the list is cut off
/// before one is found.
pub open spec fn first_edit(payload: Seq<u8>, pos: nat, left: nat) -> Option<u64>
    decreases left,
{
    if left == 0 {
        Some(0)
    } else if pos + edit_size(payload) > payload.len() {
        None
    } else if edit_media_time(payload, pos as int) >= 0 {
        Some(edit_media_time(payload, pos as int) as u64)
    } else {
        first_edit(payload, pos + edit_size(payload), (left - 1) as nat)
    }
}

/// The encoder priming that an edit list announces.
pub open spec fn elst_priming(payload: Seq<u8>) -> Option<u64> {
    if payload.len() < 8 {
        None
    } else {
        first_edit(payload, 8, be_at(payload, 4, 4))
    }
}

/// The first non-empty edit's media time is the encoder priming, in the media
/// timescale (the audio sample rate). Empty edits are skipped.
pub fn parse_elst_priming(payload: &[u8]) -> (r: Option<u64>)
    ensures
        r == elst_priming(payload@),
{
    if payload.len() < 8 {
        return None;
    }
    let wide = payload[0] == 1;
    let size: usize = if wide {
        20
    } else {
        12
    };
    let mut left: u32 = be_u32(payload, 4);
    let mut pos: usize = 8;
    while left > 0
        invariant
            8 <= pos <= payload.len(),
            wide == (payload@[0] == 1),
            size == edit_size(payload@),
            elst_priming(payload@) == first_edit(payload@, pos as nat, left as nat),
        decreases left,
    {
        if payload.len() - pos < size {
            return None;
        }
        if wide {
            let t = be_u64(payload, pos + 8);
            if t < 0x8000_0000_0000_0000 {
                return Some(t);
            }
        } else {
            let t = be_u32(payload, pos + 4);
            if t < 0x8000_0000 {
                return Some(t as u64);
            }
        }
        pos = pos + size;
        left = left - 1;
    }
    Some(0)
}

// ---- elementary stream descriptors ----------------------------------------

/// The number that a string of seven-bit groups denotes, most significant
/// group first.
pub open spec fn base_128(s: Seq<u8>) -> nat
    decreases s.len(),
{
    if s.len() == 0 {
        0
    } else {
        base_128(s.drop_last()) * 128 + (s.last() % 128) as nat
    }
}

/// How many leading bytes have their top bit set.
pub open spec fn continued(s: Seq<u8>) -> nat
    decreases s.len(),
{
    if s.len() == 0 || s[0] < 0x80 {
        0
    } else {
        1 + continued(s.skip(1))
    }
}

/// An expandable descriptor length: its value and how many bytes it takes. At
/// most four bytes, each but the last with the top bit set.
pub open spec fn descriptor_length(data: Seq<u8>) -> Option<(nat, nat)> {
    let n = continued(data);
    if n < data.len() && n < 4 {
        Some((base_128(data.take(n as int + 1)), n + 1))
    } else {
        None
    }
}

pub fn mpeg4_descriptor_length(data: &[u8]) -> (r: Option<(usize, usize)>)
    ensures
        match r {
            Some((len, n)) => {
                &&& descriptor_length(data@) == Some((len as nat, n as nat))
                &&& 1 <= n <= 4
                &&& n <= data@.len()
                &&& len < 0x1000_0000
            },
            None => descriptor_length(data@) is None,
        },
{
    let mut len: usize = 0;
    let mut n: usize = 0;
    assert(data@.skip(0) =~= data@);
    assert(data@.take(0) =~= Seq::<u8>::empty());
    loop
        invariant
            n <= 4,
            n <= data@.len(),
            len == base_128(data@.take(n as int)),
            n == 0 ==> len < 1,
            n == 1 ==> len < 0x80,
            n == 2 ==> len < 0x4000,
            n == 3 ==> len < 0x20_0000,
            n == 4 ==> len < 0x1000_0000,
            continued(data@) == n + continued(data@.skip(n as int)),
        decreases 4 - n,
    {
        if n >= data.len() || n >= 4 {
            return None;
        }
        let b = data[n];
        proof {
            assert(data@.take(n + 1).drop_last() =~= data@.take(n as int));
            assert(data@.take(n + 1).last() == b);
            assert(data@.skip(n as int).skip(1) =~= data@.skip(n + 1));
        }
        n = n + 1;
        len = len * 128 + (b % 128) as usize;
        if b < 0x80 {
            return Some((len, n));
        }
    }
}

/// What follows the header of an elementary stream descriptor: an identifier,
/// flags, and the optional fields that the flags announce.
pub open spec fn es_payload(body: Seq<u8>) -> Option<Seq<u8>> {
    let a: int = if body[2] & 0x80 != 0 {
        5
    } else {
        3
    };
    let b: int = if body[2] & 0x40 != 0 {
        a + 1 + body[a]
    } else {
        a
    };
    let c: int = if body[2] & 0x20 != 0 {
        b + 2
    } else {
        b
    };
    if body.len() < 3 || (body[2] & 0x40 != 0 && a >= body.len()) || c > body.len() {
        None
    } else {
        Some(body.skip(c))
    }
}

pub fn skip_es_descriptor_header(body: &[u8]) -> (r: Option<&[u8]>)
    ensures
        match r {
            Some(rest) => es_payload(body@) == Some(rest@),
            None => es_payload(body@) is None,
        },
{
    if body.len() < 3 {
        return None;
    }
    let flags = body[2];
    let mut skip: usize = 3;
    if flags & 0x80 != 0 {
        skip = skip + 2;
    }
    if flags & 0x40 != 0 {
        if skip >= body.len() {
            return None;
        }
        let url_len: usize = body[skip] as usize;
        skip = skip + 1 + url_len;
    }
    if flags & 0x20 != 0 {
        skip = skip + 2;
    }
    if skip > body.len() {
        return None;
    }
    let rest = slice_subrange(body, skip, body.len());
    assert(rest@ =~= body@.skip(skip as int));
    Some(rest)
}

/// The decoder-specific information (tag 5) of a descriptor list, searched for
/// from `i` on and inside elementary stream (tag 3) and decoder configuration
/// (tag 4) descriptors. A malformed descriptor on the way ends the search.
pub open spec fn decoder_info(data: Seq<u8>, i: nat) -> Option<Seq<u8>>
    decreases data.len(), data.len() - i,
{
    match descriptor_length(data.skip(i as int + 1)) {
        None => None,
        Some((len, hdr)) => {
            let start = i + 1 + hdr;
            let end = if start + len < data.len() {
                start + len
            } else {
                data.len()
            };
            let body = data.subrange(start as int, end as int);
            let nested = if data[i as int] == 3 {
                es_payload(body)
            } else if body.len() >= 13 {
                Some(body.skip(13))
            } else {
                None
            };
            if i + 2 >= data.len() || start > data.len() {
                None
            } else if data[i as int] == 5 {
                Some(body)
            } else if data[i as int] == 3 || data[i as int] == 4 {
                match nested {
                    None => None,
                    Some(inner) => {
                        if inner.len() < data.len() {
                            let found = decoder_info(inner, 0);
                            if found is Some {
                                found
                            } else {
                                decoder_info(data, end)
                            }
                        } else {
                            None
                        }
                    },
                }
            } else {
                decoder_info(data, end)
            }
        },
    }
}

pub fn find_decoder_specific_info(data: &[u8]) -> (r: Option<&[u8]>)
    ensures
        match r {
            Some(found) => decoder_info(data@, 0) == Some(found@),
            None => decoder_info(data@, 0) is None,
        },
    decreases data@.len(),
{
    let mut i: usize = 0;
    while data.len() >= 2 && i < data.len() - 2
        invariant
            i <= data.len(),
            decoder_info(data@, 0) == decoder_info(data@, i as nat),
        decreases data@.len() - i,
    {
        let tag = data[i];
        let tail = slice_subrange(data, i + 1, data.len());
        assert(tail@ =~= data@.skip(i + 1));
        let (len, hdr): (usize, usize) = match mpeg4_descriptor_length(tail) {
            Some(x) => x,
            None => {
                return None;
            },
        };
        let start: usize = i + 1 + hdr;
        let end: usize = if len < data.len() - start {
            start + len
        } else {
            data.len()
        };
        let body = slice_subrange(data, start, end);
        if tag == 5 {
            return Some(body);
        }
        if tag == 3 {
            match skip_es_descriptor_header(body) {
                None => {
                    return None;
                },
                Some(nested) => {
                    if let Some(found) = find_decoder_specific_info(nested) {
                        return Some(found);
                    }
                },
            }
        } else if tag == 4 {
            if body.len() < 13 {
                return None;
            }
            let nested = slice_subrange(body, 13, body.len());
            assert(nested@ =~= body@.skip(13));
            if let Some(found) = find_decoder_specific_info(nested) {
                return Some(found);
            }
        }
        i = end;
    }
    None
}

/// The audio object type that decoder-specific information starts with.
pub open spec fn object_type(asc: Seq<u8>) -> nat {
    if asc[0] / 8 == 31 && asc.len() >= 2 {
        (32 + asc[1] / 8) as nat
    } else {
        (asc[0] / 8) as nat
    }
}

/// The name of an AAC profile.
pub open spec fn profile_name(kind: nat) -> Seq<char> {
    if kind == 2 {
        "LC"@
    } else if kind == 5 {
        "HE-AAC"@
    } else if kind == 29 {
        "HE-AACv2"@
    } else if kind == 1 {
        "MAIN"@
    } else if kind == 4 {
        "LTP"@
    } else {
        "AOT-"@ + decimal(kind)
    }
}

/// The AAC profile that an `esds` box announces.
pub open spec fn esds_profile(payload: Seq<u8>) -> Option<Seq<char>> {
    let body = if payload.len() > 4 {
        payload.skip(4)
    } else {
        payload
    };
    match decoder_info(body, 0) {
        Some(asc) => if asc.len() == 0 {
            None
        } else {
            Some(profile_name(object_type(asc)))
        },
        None => None,
    }
}

pub fn profile_from_esds(payload: &[u8]) -> (r: Option<String>)
    ensures
        opt_text(r) == esds_profile(payload@),
{
    let from: usize = if payload.len() > 4 {
        4
    } else {
        0
    };
    let body = slice_subrange(payload, from, payload.len());
    assert(body@ =~= payload@.skip(from as int));
    assert(payload@.skip(0) =~= payload@);
    let asc = match find_decoder_specific_info(body) {
        Some(a) => a,
        None => {
            return None;
        },
    };
    if asc.len() == 0 {
        return None;
    }
    let mut kind: u8 = asc[0] / 8;
    if kind == 31 && asc.len() >= 2 {
        kind = 32 + asc[1] / 8;
    }
    if kind == 2 {
        Some("LC".to_owned())
    } else if kind == 5 {
        Some("HE-AAC".to_owned())
    } else if kind == 29 {
        Some("HE-AACv2".to_owned())
    } else if kind == 1 {
        Some("MAIN".to_owned())
    } else if kind == 4 {
        Some("LTP".to_owned())
    } else {
        let mut name = "AOT-".to_owned();
        name.append(decimal_text(kind as u64).as_str());
        Some(name)
    }
}

// ---- the box tree ---------------------------------------------------------

/// One stop of a walk through the box tree: a box, or an entry of a sample
/// description, with whether it lies in a sound track.
pub enum Visit {
    Atom { kind: u32, body: Seq<u8>, sound: bool },
    Entry { kind: u32, body: Seq<u8>, sound: bool },
}

/// Boxes whose payload is a list of boxes.
pub open spec fn is_container(kind: u32) -> bool {
    kind == MOOV || kind == EDTS || kind == MDIA || kind == MINF || kind == STBL || kind == UDTA
        || kind == MOOF || kind == META || kind == ILST
}

/// Everything that a walk over the boxes from `offset` on meets, in order: each
/// box is followed by what it contains.
pub open spec fn visits(data: Seq<u8>, offset: nat, sound: bool) -> Seq<Visit>
    decreases data.len(), data.len() - offset, 1nat,
{
    match box_at(data, offset) {
        None => Seq::empty(),
        Some((kind, body, next)) => {
            if body.len() < data.len() && offset < next <= data.len() {
                seq![Visit::Atom { kind, body, sound }] + contents(kind, body, sound) + visits(
                    data,
                    next,
                    sound,
                )
            } else {
                Seq::empty()
            }
        },
    }
}

/// What a walk meets inside a box.
pub open spec fn contents(kind: u32, body: Seq<u8>, sound: bool) -> Seq<Visit>
    decreases body.len(), body.len(), 2nat,
{
    if is_container(kind) {
        visits(body, 0, sound)
    } else if kind == TRAK {
        visits(body, 0, is_sound_track(body))
    } else if kind == STSD && body.len() >= 8 {
        entries(body.skip(8), 0, sound)
    } else {
        Seq::empty()
    }
}

/// Whether a sample entry describes an audio stream of a sound track in enough
/// bytes to hold its fixed fields.
pub open spec fn is_audio_entry(kind: u32, body: Seq<u8>, sound: bool) -> bool {
    sound && (kind == MP4A || kind == ENCA) && body.len() >= 28
}

/// What a walk over the entries of a sample description meets: each entry,
/// followed by the boxes behind the fixed fields of an audio entry.
pub open spec fn entries(data: Seq<u8>, offset: nat, sound: bool) -> Seq<Visit>
    decreases data.len(), data.len() - offset, 0nat,
{
    match box_at(data, offset) {
        None => Seq::empty(),
        Some((kind, body, next)) => {
            if body.len() < data.len() && offset < next <= data.len() {
                seq![Visit::Entry { kind, body, sound }] + (if is_audio_entry(kind, body, sound) {
                    visits(body.skip(28), 0, true)
                } else {
                    Seq::empty()
                }) + entries(data, next, sound)
            } else {
                Seq::empty()
            }
        },
    }
}

/// The last value that `f` finds on a walk.
pub open spec fn last_found<T>(v: Seq<Visit>, f: spec_fn(Visit) -> Option<T>) -> Option<T>
    decreases v.len(),
{
    if v.len() == 0 {
        None
    } else if f(v.last()) is Some {
        f(v.last())
    } else {
        last_found(v.drop_last(), f)
    }
}

/// Whether a walk meets something that `p` accepts.
pub open spec fn meets(v: Seq<Visit>, p: spec_fn(Visit) -> bool) -> bool {
    exists|i: int| 0 <= i < v.len() && #[trigger] p(v[i])
}

/// The priming that an edit list of a sound track announces.
pub open spec fn priming_in(x: Visit) -> Option<u64> {
    match x {
        Visit::Atom { kind, body, sound } => if sound && kind == ELST {
            elst_priming(body)
        } else {
            None
        },
        Visit::Entry { .. } => None,
    }
}

/// The AAC profile that an elementary stream descriptor of a sound track names.
pub open spec fn profile_in(x: Visit) -> Option<Seq<char>> {
    match x {
        Visit::Atom { kind, body, sound } => if sound && kind == ESDS {
            esds_profile(body)
        } else {
            None
        },
        Visit::Entry { .. } => None,
    }
}

/// The channel count of an audio entry, as its low eight bits.
pub open spec fn channels_in(x: Visit) -> Option<u8> {
    match x {
        Visit::Entry { kind, body, sound } => if is_audio_entry(kind, body, sound) {
            Some((be_at(body, 16, 2) % 256) as u8)
        } else {
            None
        },
        Visit::Atom { .. } => None,
    }
}

/// The sample rate of an audio entry (the integer part of a 16.16 number), if
/// it is not zero.
pub open spec fn rate_in(x: Visit) -> Option<u32> {
    match x {
        Visit::Entry { kind, body, sound } => if is_audio_entry(kind, body, sound) && be_at(
            body,
            24,
            4,
        ) / 0x1_0000 > 0 {
            Some((be_at(body, 24, 4) / 0x1_0000) as u32)
        } else {
            None
        },
        Visit::Atom { .. } => None,
    }
}

/// A chapter list.
pub open spec fn marks_chapters(x: Visit) -> bool {
    x matches Visit::Atom { kind, .. } && (kind == CHPL || kind == CHAP)
}

/// Cover art, or a picture stream.
pub open spec fn marks_artwork(x: Visit) -> bool {
    match x {
        Visit::Atom { kind, .. } => kind == COVR,
        Visit::Entry { kind, .. } => kind == MP4V || kind == AVC1 || kind == ENCV,
    }
}

/// Protected content.
pub open spec fn marks_encryption(x: Visit) -> bool {
    match x {
        Visit::Atom { kind, .. } => kind == ENCA || kind == ENCV || kind == PSSH || kind == SINF,
        Visit::Entry { kind, .. } => kind == ENCA || kind == ENCV,
    }
}

/// What an MP4 file says about its AAC track.
#[derive(Debug)]
pub struct Mp4AacInfo {
    pub priming_samples: Option<u64>,
    pub profile: Option<String>,
    pub sample_rate_hz: Option<u32>,
    pub channels: Option<u8>,
    pub has_chapters: bool,
    pub has_artwork: bool,
    pub encrypted: bool,
    pub parsed: bool,
}

impl Default for Mp4AacInfo {
    fn default() -> (r: Self)
        ensures
            r.priming_samples is None,
            r.profile is None,
            r.sample_rate_hz is None,
            r.channels is None,
            !r.has_chapters,
            !r.has_artwork,
            !r.encrypted,
            !r.parsed,
    {
        Mp4AacInfo {
            priming_samples: None,
            profile: None,
            sample_rate_hz: None,
            channels: None,
            has_chapters: false,
            has_artwork: false,
            encrypted: false,
            parsed: false,
        }
    }
}

/// The first of two optional values that is present.
pub open spec fn either<T>(a: Option<T>, b: Option<T>) -> Option<T> {
    if a is Some {
        a
    } else {
        b
    }
}

/// `after` is `before` with everything taken in that a walk met: of each value
/// the last that was found, of each mark whether it was met at all.
#[verifier::opaque]
pub open spec fn takes_in(before: Mp4AacInfo, after: Mp4AacInfo, v: Seq<Visit>) -> bool {
    &&& after.priming_samples == either(
        last_found(v, |x: Visit| priming_in(x)),
        before.priming_samples,
    )
    &&& opt_text(after.profile) == either(
        last_found(v, |x: Visit| profile_in(x)),
        opt_text(before.profile),
    )
    &&& after.sample_rate_hz == either(last_found(v, |x: Visit| rate_in(x)), before.sample_rate_hz)
    &&& after.channels == either(last_found(v, |x: Visit| channels_in(x)), before.channels)
    &&& after.has_chapters == (before.has_chapters || meets(v, |x: Visit| marks_chapters(x)))
    &&& after.has_artwork == (before.has_artwork || meets(v, |x: Visit| marks_artwork(x)))
    &&& after.encrypted == (before.encrypted || meets(v, |x: Visit| marks_encryption(x)))
    &&& after.parsed == before.parsed
}

proof fn lemma_last_found_concat<T>(a: Seq<Visit>, b: Seq<Visit>, f: spec_fn(Visit) -> Option<T>)
    ensures
        last_found(a + b, f) == either(last_found(b, f), last_found(a, f)),
    decreases b.len(),
{
    if b.len() == 0 {
        assert(a + b =~= a);
    } else {
        assert((a + b).last() == b.last());
        assert((a + b).drop_last() =~= a + b.drop_last());
        lemma_last_found_concat(a, b.drop_last(), f);
    }
}

proof fn lemma_meets_concat(a: Seq<Visit>, b: Seq<Visit>, p: spec_fn(Visit) -> bool)
    ensures
        meets(a + b, p) == (meets(a, p) || meets(b, p)),
{
    if meets(a, p) {
        let i = choose|i: int| 0 <= i < a.len() && #[trigger] p(a[i]);
        assert(p((a + b)[i]));
    }
    if meets(b, p) {
        let i = choose|i: int| 0 <= i < b.len() && #[trigger] p(b[i]);
        assert(p((a + b)[a.len() + i]));
    }
    if meets(a + b, p) {
        let i = choose|i: int| 0 <= i < (a + b).len() && #[trigger] p((a + b)[i]);
        if i < a.len() {
            assert(p(a[i]));
        } else {
            assert(p(b[i - a.len()]));
        }
    }
}

/// Taking in one walk and then another is taking in both.
proof fn lemma_takes_in_concat(
    x: Mp4AacInfo,
    y: Mp4AacInfo,
    z: Mp4AacInfo,
    a: Seq<Visit>,
    b: Seq<Visit>,
)
    requires
        takes_in(x, y, a),
        takes_in(y, z, b),
    ensures
        takes_in(x, z, a + b),
{
    reveal(takes_in);
    lemma_last_found_concat(a, b, |x: Visit| priming_in(x));
    lemma_last_found_concat(a, b, |x: Visit| profile_in(x));
    lemma_last_found_concat(a, b, |x: Visit| rate_in(x));
    lemma_last_found_concat(a, b, |x: Visit| channels_in(x));
    lemma_meets_concat(a, b, |x: Visit| marks_chapters(x));
    lemma_meets_concat(a, b, |x: Visit| marks_artwork(x));
    lemma_meets_concat(a, b, |x: Visit| marks_encryption(x));
}

/// Taking in a single stop.
proof fn lemma_takes_in_one(before: Mp4AacInfo, after: Mp4AacInfo, x: Visit)
    requires
        after.priming_samples == either(priming_in(x), before.priming_samples),
        opt_text(after.profile) == either(profile_in(x), opt_text(before.profile)),
        after.sample_rate_hz == either(rate_in(x), before.sample_rate_hz),
        after.channels == either(channels_in(x), before.channels),
        after.has_chapters == (before.has_chapters || marks_chapters(x)),
        after.has_artwork == (before.has_artwork || marks_artwork(x)),
        after.encrypted == (before.encrypted || marks_encryption(x)),
        after.parsed == before.parsed,
    ensures
        takes_in(before, after, seq![x]),
{
    reveal(takes_in);
    let v = seq![x];
    assert(v.drop_last() =~= Seq::<Visit>::empty());
    assert(v.last() == x);
    reveal_with_fuel(last_found, 2);
    let c = |x: Visit| marks_chapters(x);
    let w = |x: Visit| marks_artwork(x);
    let e = |x: Visit| marks_encryption(x);
    assert(v[0] == x);
    assert(meets(v, c) == marks_chapters(x)) by {
        if marks_chapters(x) {
            assert(c(v[0]));
        }
    }
    assert(meets(v, w) == marks_artwork(x)) by {
        if marks_artwork(x) {
            assert(w(v[0]));
        }
    }
    assert(meets(v, e) == marks_encryption(x)) by {
        if marks_encryption(x) {
            assert(e(v[0]));
        }
    }
}

proof fn lemma_takes_in_nothing(x: Mp4AacInfo)
    ensures
        takes_in(x, x, Seq::empty()),
{
    reveal(takes_in);
}

/// Walks the boxes of `data` and takes in what they say.
pub fn walk_boxes(data: &[u8], info: &mut Mp4AacInfo, in_sound_track: bool)
    ensures
        takes_in(*old(info), *final(info), visits(data@, 0, in_sound_track)),
    decreases data@.len(),
{
    let mut offset: usize = 0;
    let ghost start = *info;
    let ghost mut seen: Seq<Visit> = Seq::empty();
    proof {
        lemma_takes_in_nothing(start);
        assert(seen + visits(data@, 0, in_sound_track) =~= visits(data@, 0, in_sound_track));
    }
    loop
        invariant
            offset <= data.len(),
            takes_in(start, *info, seen),
            seen + visits(data@, offset as nat, in_sound_track) == visits(data@, 0, in_sound_track),
        ensures
            takes_in(start, *info, visits(data@, 0, in_sound_track)),
        decreases data@.len() - offset,
    {
        let (kind, payload, next): (u32, &[u8], usize) = match next_box(data, offset) {
            None => {
                assert(seen + Seq::<Visit>::empty() =~= seen);
                break;
            },
            Some(b) => b,
        };
        proof {
            lemma_box_shrinks(data@, offset as nat);
        }
        let ghost stop = Visit::Atom { kind, body: payload@, sound: in_sound_track };
        let ghost inner = contents(kind, payload@, in_sound_track);
        let ghost rest = visits(data@, next as nat, in_sound_track);
        let ghost before = *info;
        if kind == ELST && in_sound_track {
            if let Some(priming) = parse_elst_priming(payload) {
                info.priming_samples = Some(priming);
            }
        } else if kind == ESDS && in_sound_track {
            if let Some(profile) = profile_from_esds(payload) {
                info.profile = Some(profile);
            }
        } else if kind == CHPL || kind == CHAP {
            info.has_chapters = true;
        } else if kind == COVR {
            info.has_artwork = true;
        } else if kind == ENCA || kind == ENCV || kind == PSSH || kind == SINF {
            info.encrypted = true;
        }
        let ghost marked = *info;
        proof {
            lemma_takes_in_one(before, marked, stop);
            lemma_takes_in_concat(start, before, marked, seen, seq![stop]);
            lemma_takes_in_nothing(marked);
        }
        if kind == MOOV || kind == EDTS || kind == MDIA || kind == MINF || kind == STBL || kind
            == UDTA || kind == MOOF || kind == META || kind == ILST {
            walk_boxes(payload, info, in_sound_track);
        } else if kind == TRAK {
            let sound = track_is_sound(payload);
            walk_boxes(payload, info, sound);
        } else if kind == STSD {
            walk_stsd(payload, info, in_sound_track);
        }
        proof {
            lemma_takes_in_concat(start, marked, *info, seen + seq![stop], inner);
            assert(seen + (seq![stop] + inner + rest) =~= seen + seq![stop] + inner + rest);
            seen = seen + seq![stop] + inner;
        }
        offset = next;
    }
}

/// Walks the entries of a sample description and takes in what they say.
pub fn walk_stsd(payload: &[u8], info: &mut Mp4AacInfo, in_sound_track: bool)
    ensures
        takes_in(*old(info), *final(info), contents(STSD, payload@, in_sound_track)),
    decreases payload@.len(),
{
    let ghost start = *info;
    proof {
        lemma_takes_in_nothing(start);
    }
    if payload.len() < 8 {
        return ;
    }
    let data = slice_subrange(payload, 8, payload.len());
    assert(data@ =~= payload@.skip(8));
    let mut offset: usize = 0;
    let ghost mut seen: Seq<Visit> = Seq::empty();
    assert(seen + entries(data@, 0, in_sound_track) =~= entries(data@, 0, in_sound_track));
    loop
        invariant
            data@.len() + 8 == payload@.len(),
            offset <= data.len(),
            takes_in(start, *info, seen),
            seen + entries(data@, offset as nat, in_sound_track) == entries(
                data@,
                0,
                in_sound_track,
            ),
        ensures
            takes_in(start, *info, entries(data@, 0, in_sound_track)),
        decreases data@.len() - offset,
    {
        let (kind, body, next): (u32, &[u8], usize) = match next_box(data, offset) {
            None => {
                assert(seen + Seq::<Visit>::empty() =~= seen);
                break;
            },
            Some(b) => b,
        };
        proof {
            lemma_box_shrinks(data@, offset as nat);
        }
        let ghost stop = Visit::Entry { kind, body: body@, sound: in_sound_track };
        let ghost inner = if is_audio_entry(kind, body@, in_sound_track) {
            visits(body@.skip(28), 0, true)
        } else {
            Seq::empty()
        };
        let ghost rest = entries(data@, next as nat, in_sound_track);
        let ghost before = *info;
        if kind == ENCA || kind == ENCV {
            info.encrypted = true;
        }
        let audio = in_sound_track && (kind == MP4A || kind == ENCA) && body.len() >= 28;
        if audio {
            let channels = be_u16(body, 16);
            info.channels = Some((channels % 256) as u8);
            let rate = be_u32(body, 24) / 0x1_0000;
            if rate > 0 {
                info.sample_rate_hz = Some(rate);
            }
        }
        if kind == MP4V || kind == AVC1 || kind == ENCV {
            info.has_artwork = true;
        }
        let ghost marked = *info;
        proof {
            lemma_takes_in_one(before, marked, stop);
            lemma_takes_in_concat(start, before, marked, seen, seq![stop]);
            lemma_takes_in_nothing(marked);
        }
        if audio {
            let inside = slice_subrange(body, 28, body.len());
            assert(inside@ =~= body@.skip(28));
            walk_boxes(inside, info, true);
        }
        proof {
            lemma_takes_in_concat(start, marked, *info, seen + seq![stop], inner);
            assert(seen + (seq![stop] + inner + rest) =~= seen + seq![stop] + inner + rest);
            seen = seen + seq![stop] + inner;
        }
        offset = next;
    }
}

/// Everything that a walk over a whole file meets.
pub open spec fn file_visits(data: Seq<u8>) -> Seq<Visit> {
    if data.len() < 8 {
        Seq::empty()
    } else {
        visits(data, 0, false)
    }
}

/// Reads the facts of an MP4 file: of each value the last that the box tree
/// holds, of each mark whether it occurs. Data too short for a single box is
/// not parsed at all.
pub fn inspect_mp4_bytes(data: &[u8]) -> (r: Mp4AacInfo)
    ensures
        r.parsed == (data@.len() >= 8),
        r.priming_samples == last_found(file_visits(data@), |x: Visit| priming_in(x)),
        opt_text(r.profile) == last_found(file_visits(data@), |x: Visit| profile_in(x)),
        r.sample_rate_hz == last_found(file_visits(data@), |x: Visit| rate_in(x)),
        r.channels == last_found(file_visits(data@), |x: Visit| channels_in(x)),
        r.has_chapters == meets(file_visits(data@), |x: Visit| marks_chapters(x)),
        r.has_artwork == meets(file_visits(data@), |x: Visit| marks_artwork(x)),
        r.encrypted == meets(file_visits(data@), |x: Visit| marks_encryption(x)),
{
    let mut info = Mp4AacInfo::default();
    if data.len() < 8 {
        return info;
    }
    walk_boxes(data, &mut info, false);
    proof {
        reveal(takes_in);
    }
    info.parsed = true;
    info
}

// ---- audiobook targets ----------------------------------------------------

/// The facts by which a file is copied as it is or encoded anew for a device
/// that plays audiobooks.
#[derive(Debug)]
pub struct AudiobookFacts {
    pub codec: String,
    /// `LC`, `HE-AAC`, `HE-AACv2`, or absent where it is not known.
    pub profile: Option<String>,
    pub sample_rate_hz: Option<u32>,
    pub channels: Option<u8>,
    pub bitrate_kbps: Option<u32>,
    /// Encoder delay in PCM samples; absent where no edit list could be read.
    pub priming_samples: Option<u64>,
    pub has_chapters: Option<bool>,
    pub has_artwork: Option<bool>,
    pub container: String,
}

/// Whether an extension, in any case, is one of protected audiobooks.
pub open spec fn is_protected_extension(extension: Seq<char>) -> bool {
    ||| lower(extension) == "m4p"@
    ||| lower(extension) == "aax"@
    ||| lower(extension) == "aaxc"@
}

/// Whether a path has the extension of a protected audiobook.
pub fn is_protected_audiobook_path(path: &MediaPath) -> (r: bool)
    ensures
        r == (path_extension(path@) matches Some(e) && is_protected_extension(e)),
{
    match path.extension() {
        Some(e) => {
            let l = lower_text(e.as_str());
            same_text(l.as_str(), "m4p") || same_text(l.as_str(), "aax") || same_text(
                l.as_str(),
                "aaxc",
            )
        },
        None => false,
    }
}

/// Whether an extension, in any case, names a container of the MP4 family.
pub open spec fn names_iso_bmff(extension: Seq<char>) -> bool {
    ||| lower(extension) == "m4a"@
    ||| lower(extension) == "m4b"@
    ||| lower(extension) == "mp4"@
    ||| lower(extension) == "m4v"@
    ||| lower(extension) == "mov"@
    ||| lower(extension) == "ipod"@
}

pub fn is_iso_bmff_audio_ext(ext: &str) -> (r: bool)
    ensures
        r == names_iso_bmff(ext@),
{
    let l = lower_text(ext);
    let s = l.as_str();
    same_text(s, "m4a") || same_text(s, "m4b") || same_text(s, "mp4") || same_text(s, "m4v")
        || same_text(s, "mov") || same_text(s, "ipod")
}

/// Whether a requested output is an AAC audiobook that has to come out without
/// encoder priming: asked for outright, or implied by the m4b/ipod muxer.
pub open spec fn wants_zero_priming(
    audio: bool,
    codec: Seq<char>,
    container: Seq<char>,
    extension: Seq<char>,
    priming: Option<u32>,
) -> bool {
    &&& audio
    &&& lower(codec) == "aac"@
    &&& (priming == Some(0u32) || lower(extension) == "m4b"@ || lower(container) == "m4b"@ || lower(
        container,
    ) == "ipod"@)
}

pub fn is_zero_priming_aac_m4b_target(
    media_is_audio: bool,
    audio_codec: &str,
    container: &str,
    extension: &str,
    aac_priming: Option<u32>,
) -> (r: bool)
    ensures
        r == wants_zero_priming(media_is_audio, audio_codec@, container@, extension@, aac_priming),
{
    if !media_is_audio || !same_text(lower_text(audio_codec).as_str(), "aac") {
        return false;
    }
    if let Some(n) = aac_priming {
        if n == 0 {
            return true;
        }
    }
    let ext = lower_text(extension);
    let cont = lower_text(container);
    same_text(ext.as_str(), "m4b") || same_text(cont.as_str(), "m4b") || same_text(
        cont.as_str(),
        "ipod",
    )
}

/// Whether the container of a source stands for the requested one: by name, or
/// because both are m4b/ipod muxes.
pub open spec fn containers_agree(
    source: Seq<char>,
    container: Seq<char>,
    extension: Seq<char>,
) -> bool {
    let s = lower(source);
    let c = lower(container);
    let e = lower(extension);
    ||| s == c
    ||| s == e
    ||| s == "m4b"@ && c == "ipod"@ && e == "m4b"@
    ||| s == "ipod"@ && c == "m4b"@
}

pub fn containers_match_audiobook(
    source_container: &str,
    spec_container: &str,
    spec_ext: &str,
) -> (r: bool)
    ensures
        r == containers_agree(source_container@, spec_container@, spec_ext@),
{
    if same_ignoring_case(source_container, spec_container) {
        return true;
    }
    if same_ignoring_case(source_container, spec_ext) {
        return true;
    }
    let src = lower_text(source_container);
    let cont = lower_text(spec_container);
    let ext = lower_text(spec_ext);
    if same_text(src.as_str(), "m4b") {
        same_text(cont.as_str(), "ipod") && same_text(ext.as_str(), "m4b")
    } else {
        same_text(src.as_str(), "ipod") && same_text(cont.as_str(), "m4b")
    }
}

/// Why an encoded audiobook is not what was asked for.
#[derive(Debug, Clone, Copy, PartialEq, Eq, Structural)]
pub enum ArtifactFault {
    NotAac,
    NotLowComplexity,
    WrongSampleRate,
    WrongChannels,
    Primed,
    WrongContainer,
}

/// The first fault of an encoded audiobook, if it has one. Unknown facts are
/// faults: priming that could not be read does not count as zero.
pub open spec fn artifact_fault(
    facts: AudiobookFacts,
    sample_rate: u32,
    channels: u8,
) -> Option<ArtifactFault> {
    if lower(facts.codec@) != "aac"@ {
        Some(ArtifactFault::NotAac)
    } else if opt_text(facts.profile) != Some("LC"@) {
        Some(ArtifactFault::NotLowComplexity)
    } else if facts.sample_rate_hz != Some(sample_rate) {
        Some(ArtifactFault::WrongSampleRate)
    } else if facts.channels != Some(channels) {
        Some(ArtifactFault::WrongChannels)
    } else if facts.priming_samples != Some(0u64) {
        Some(ArtifactFault::Primed)
    } else if !names_iso_bmff(facts.container@) {
        Some(ArtifactFault::WrongContainer)
    } else {
        None
    }
}

/// Checks an encoded audiobook against the request it was made for.
pub fn check_audiobook_artifact(
    facts: &AudiobookFacts,
    sample_rate: u32,
    channels: u8,
) -> (r: Result<(), ArtifactFault>)
    ensures
        r matches Ok(_) ==> artifact_fault(*facts, sample_rate, channels) is None,
        r matches Err(f) ==> artifact_fault(*facts, sample_rate, channels) == Some(f),
{
    if !same_text(lower_text(facts.codec.as_str()).as_str(), "aac") {
        return Err(ArtifactFault::NotAac);
    }
    if !opt_is(&facts.profile, "LC") {
        return Err(ArtifactFault::NotLowComplexity);
    }
    if facts.sample_rate_hz != Some(sample_rate) {
        return Err(ArtifactFault::WrongSampleRate);
    }
    if facts.channels != Some(channels) {
        return Err(ArtifactFault::WrongChannels);
    }
    if facts.priming_samples != Some(0u64) {
        return Err(ArtifactFault::Primed);
    }
    if !is_iso_bmff_audio_ext(facts.container.as_str()) {
        return Err(ArtifactFault::WrongContainer);
    }
    Ok(())
}

impl ArtifactFault {
    pub open spec fn text(self) -> Seq<char> {
        match self {
            ArtifactFault::NotAac => "output is not AAC"@,
            ArtifactFault::NotLowComplexity => "output is not AAC-LC"@,
            ArtifactFault::WrongSampleRate => "output sample rate is not the requested one"@,
            ArtifactFault::WrongChannels => "output channel count is not the requested one"@,
            ArtifactFault::Primed => "output priming is not 0 samples"@,
            ArtifactFault::WrongContainer => "output is not an m4b or ipod-compatible MP4 container"@,
        }
    }

    /// What the fault reads like.
    pub fn message(&self) -> (r: &'static str)
        ensures
            r@ == self.text(),
    {
        match self {
            ArtifactFault::NotAac => "output is not AAC",
            ArtifactFault::NotLowComplexity => "output is not AAC-LC",
            ArtifactFault::WrongSampleRate => "output sample rate is not the requested one",
            ArtifactFault::WrongChannels => "output channel count is not the requested one",
            ArtifactFault::Primed => "output priming is not 0 samples",
            ArtifactFault::WrongContainer => "output is not an m4b or ipod-compatible MP4 container",
        }
    }
}

/// An audiobook that passes the check has no priming, whatever it was asked for.
pub proof fn law_accepted_audiobook_is_unprimed(
    facts: AudiobookFacts,
    sample_rate: u32,
    channels: u8,
)
    requires
        artifact_fault(facts, sample_rate, channels) is None,
    ensures
        facts.priming_samples == Some(0u64),
        opt_text(facts.profile) == Some("LC"@),
        facts.sample_rate_hz == Some(sample_rate),
        facts.channels == Some(channels),
{
}

// ---- laws -----------------------------------------------------------------

/// The number that four characters of a box kind spell.
pub open spec fn four(a: char, b: char, c: char, d: char) -> int {
    a as int * 0x100_0000 + b as int * 0x1_0000 + c as int * 0x100 + d as int
}

/// Every box kind spells its name.
pub proof fn law_box_kinds_spell_their_names()
    ensures
        MOOV == four('m', 'o', 'o', 'v'),
        EDTS == four('e', 'd', 't', 's'),
        MDIA == four('m', 'd', 'i', 'a'),
        MINF == four('m', 'i', 'n', 'f'),
        STBL == four('s', 't', 'b', 'l'),
        UDTA == four('u', 'd', 't', 'a'),
        MOOF == four('m', 'o', 'o', 'f'),
        META == four('m', 'e', 't', 'a'),
        ILST == four('i', 'l', 's', 't'),
        TRAK == four('t', 'r', 'a', 'k'),
        ELST == four('e', 'l', 's', 't'),
        STSD == four('s', 't', 's', 'd'),
        ESDS == four('e', 's', 'd', 's'),
        CHPL == four('c', 'h', 'p', 'l'),
        CHAP == four('c', 'h', 'a', 'p'),
        COVR == four('c', 'o', 'v', 'r'),
        ENCA == four('e', 'n', 'c', 'a'),
        ENCV == four('e', 'n', 'c', 'v'),
        PSSH == four('p', 's', 's', 'h'),
        SINF == four('s', 'i', 'n', 'f'),
        HDLR == four('h', 'd', 'l', 'r'),
        SOUN == four('s', 'o', 'u', 'n'),
        MP4A == four('m', 'p', '4', 'a'),
        MP4V == four('m', 'p', '4', 'v'),
        AVC1 == four('a', 'v', 'c', '1'),
{
}

/// The length of an ADTS frame is the thirteen-bit number in its header, and the
/// last bit of the second byte says that no checksum follows.
pub proof fn law_adts_headers_hold_the_length(
    data: &[u8],
    at: usize,
    r: Option<(usize, bool)>,
)
    requires
        call_ensures(adts_frame_at, (data, at), r),
    ensures
        r matches Some((n, bare)) ==> {
            let word = data@[at + 3] * 0x1_0000 + data@[at + 4] * 0x100 + data@[at + 5];
            &&& n == (word % 0x4_0000) / 32
            &&& bare == (data@[at + 1] % 2 == 1)
            &&& data@[at as int] == 255
            &&& data@[at + 1] >= 240
            &&& 7 <= n <= data@.len() - at
        },
        r is None ==> at + 7 > data@.len() || data@[at as int] != 255 || data@[at + 1] < 240 || {
            let word = data@[at + 3] * 0x1_0000 + data@[at + 4] * 0x100 + data@[at + 5];
            let n = (word % 0x4_0000) / 32;
            n < 7 || at + n > data@.len()
        },
{
    if at + 7 <= data@.len() {
        let b = data@[at + 1];
        assert(b & 0xF0 == 0xF0 <==> b >= 240) by (bit_vector);
        assert(b & 0x01 != 0 <==> b % 2 == 1) by (bit_vector);
        let x = data@[at + 3] as u32;
        let y = data@[at + 4] as u32;
        let z = data@[at + 5] as u32;
        assert(x < 256 && y < 256 && z < 256 ==> ((x * 0x1_0000 + y * 0x100 + z) % 0x4_0000) / 32 == (
        x % 4) * 2048 + y * 8 + z / 32) by (nonlinear_arith);
    }
}

/// A box announces its size in its first four bytes and its kind in the next: the
/// payload follows at once, up to that size, and then the next box. A size of one
/// puts the real size in eight further bytes, a size of zero means the rest. A box
/// that does not fit, or is smaller than its own header, is none.
pub proof fn law_boxes_are_as_long_as_they_say(
    data: &[u8],
    offset: usize,
    r: Option<(u32, &[u8], usize)>,
)
    requires
        call_ensures(next_box, (data, offset), r),
        offset + 8 <= data@.len(),
    ensures
        ({
            let d = data@;
            let o = offset as int;
            let size = d[o] * 0x100_0000 + d[o + 1] * 0x1_0000 + d[o + 2] * 0x100 + d[o + 3];
            let kind = d[o + 4] * 0x100_0000 + d[o + 5] * 0x1_0000 + d[o + 6] * 0x100 + d[o + 7];
            &&& size >= 8 && o + size <= d.len() ==> (r matches Some((k, body, next)) && k == kind
                && body@ == d.subrange(o + 8, o + size) && next == o + size)
            &&& size == 0 ==> (r matches Some((k, body, next)) && k == kind && body@ == d.skip(
                o + 8,
            ) && next == d.len())
            &&& 2 <= size < 8 ==> r is None
            &&& size >= 8 && o + size > d.len() ==> r is None
            &&& size == 1 && o + 16 > d.len() ==> r is None
            &&& size == 1 && o + 16 <= d.len() ==> {
                let high = d[o + 8] * 0x100_0000 + d[o + 9] * 0x1_0000 + d[o + 10] * 0x100 + d[o
                    + 11];
                let low = d[o + 12] * 0x100_0000 + d[o + 13] * 0x1_0000 + d[o + 14] * 0x100 + d[o
                    + 15];
                let wide = high * 0x1_0000_0000 + low;
                &&& wide >= 16 && o + wide <= d.len() ==> (r matches Some((k, body, next)) && k
                    == kind && body@ == d.subrange(o + 16, o + wide) && next == o + wide)
                &&& wide < 16 || o + wide > d.len() ==> r is None
            }
        }),
{
    let o = offset as int;
    law_big_endian_puts_the_high_byte_first(data@, o);
    law_big_endian_puts_the_high_byte_first(data@, o + 4);
    if o + 16 <= data@.len() {
        law_big_endian_puts_the_high_byte_first(data@, o + 8);
        law_big_endian_puts_the_high_byte_first(data@, o + 12);
    }
    assert(data@.skip(o + 8) =~= data@.subrange(o + 8, data@.len() as int));
}

/// Where the media time of an edit stands, by the version of its list: whether
/// its top bit is set, which marks an empty edit.
pub open spec fn is_empty_edit(payload: Seq<u8>, e: int) -> bool {
    if payload[0] == 1 {
        payload[8 + e * 20 + 8] >= 128
    } else {
        payload[8 + e * 12 + 4] >= 128
    }
}

/// The priming of an edit list is the media time of its first edit that is not
/// empty: eight bytes, eight in, of twenty in version one; four bytes, four in, of
/// twelve otherwise.
pub proof fn law_priming_is_the_first_edit_that_is_not_empty(
    payload: &[u8],
    r: Option<u64>,
    e: int,
)
    requires
        call_ensures(parse_elst_priming, (payload,), r),
        payload@.len() >= 8,
        0 <= e < payload@[4] * 0x100_0000 + payload@[5] * 0x1_0000 + payload@[6] * 0x100
            + payload@[7],
        8 + (e + 1) * (if payload@[0] == 1 {
            20int
        } else {
            12int
        }) <= payload@.len(),
        forall|j: int| 0 <= j < e ==> #[trigger] is_empty_edit(payload@, j),
        !is_empty_edit(payload@, e),
    ensures
        payload@[0] != 1 ==> r == Some(be_at(payload@, 8 + e * 12 + 4, 4) as u64),
        payload@[0] == 1 ==> r == Some(be_at(payload@, 8 + e * 20 + 8, 8) as u64),
{
    let p = payload@;
    law_big_endian_puts_the_high_byte_first(p, 4);
    let size: int = if p[0] == 1 {
        20
    } else {
        12
    };
    lemma_edits_skipped(p, e, be_at(p, 4, 4) as int);
    lemma_edit_sign(p, e);
    assert(8 + e * size + size <= p.len()) by (nonlinear_arith)
        requires
            8 + (e + 1) * size <= p.len(),
    ;
}

/// A list of nothing but empty edits announces no priming at all.
pub proof fn law_empty_edit_lists_have_no_priming(payload: &[u8], r: Option<u64>)
    requires
        call_ensures(parse_elst_priming, (payload,), r),
    ensures
        payload@.len() < 8 ==> r is None,
        payload@.len() >= 8 ==> ({
            let n = payload@[4] * 0x100_0000 + payload@[5] * 0x1_0000 + payload@[6] * 0x100
                + payload@[7];
            (8 + n * (if payload@[0] == 1 {
                20int
            } else {
                12int
            }) <= payload@.len() && forall|j: int|
                0 <= j < n ==> #[trigger] is_empty_edit(payload@, j)) ==> r == Some(0u64)
        }),
{
    let p = payload@;
    if p.len() >= 8 {
        law_big_endian_puts_the_high_byte_first(p, 4);
        let n = be_at(p, 4, 4) as int;
        let size: int = if p[0] == 1 {
            20
        } else {
            12
        };
        if 8 + n * size <= p.len() && (forall|j: int|
            0 <= j < n ==> #[trigger] is_empty_edit(p, j)) {
            lemma_edits_skipped(p, n, n);
        }
    }
}

proof fn lemma_edit_sign(p: Seq<u8>, e: int)
    requires
        p.len() >= 8,
        0 <= e,
        8 + (e + 1) * edit_size(p) <= p.len(),
    ensures
        is_empty_edit(p, e) <==> edit_media_time(p, 8 + e * edit_size(p)) < 0,
        !is_empty_edit(p, e) && p[0] == 1 ==> edit_media_time(p, 8 + e * edit_size(p)) == be_at(
            p,
            8 + e * 20 + 8,
            8,
        ) < 0x1_0000_0000_0000_0000,
        !is_empty_edit(p, e) && p[0] != 1 ==> edit_media_time(p, 8 + e * edit_size(p)) == be_at(
            p,
            8 + e * 12 + 4,
            4,
        ) < 0x1_0000_0000,
{
    let size = edit_size(p) as int;
    assert(8 + e * size + size <= p.len()) by (nonlinear_arith)
        requires
            8 + (e + 1) * size <= p.len(),
    ;
    assert(e * size >= 0) by (nonlinear_arith)
        requires
            e >= 0,
            size >= 0,
    ;
    if p[0] == 1 {
        law_big_endian_puts_the_high_byte_first(p, 8 + e * size + 8);
        law_big_endian_puts_the_high_byte_first(p, 8 + e * size + 12);
    } else {
        law_big_endian_puts_the_high_byte_first(p, 8 + e * size + 4);
    }
}

proof fn lemma_edits_skipped(p: Seq<u8>, e: int, n: int)
    requires
        p.len() >= 8,
        0 <= e <= n,
        8 + e * edit_size(p) <= p.len(),
        forall|j: int| 0 <= j < e ==> #[trigger] is_empty_edit(p, j),
    ensures
        8 + e * edit_size(p) >= 8,
        first_edit(p, 8, n as nat) == first_edit(p, (8 + e * edit_size(p)) as nat, (n - e) as nat),
    decreases e,
{
    let size = edit_size(p) as int;
    if e > 0 {
        assert(e * size == (e - 1) * size + size) by (nonlinear_arith);
        lemma_edits_skipped(p, e - 1, n);
        assert(is_empty_edit(p, e - 1));
        lemma_edit_sign(p, e - 1);
    }
}

/// A descriptor length takes up to four bytes of seven bits each, the most
/// significant first; every byte but the last has its top bit set.
pub proof fn law_descriptor_lengths_count_in_sevens(
    data: &[u8],
    r: Option<(usize, usize)>,
)
    requires
        call_ensures(mpeg4_descriptor_length, (data,), r),
    ensures
        ({
            let d = data@;
            let n = d.len();
            &&& n == 0 ==> r is None
            &&& n >= 1 && d[0] < 128 ==> r == Some((d[0] as usize, 1usize))
            &&& n == 1 && d[0] >= 128 ==> r is None
            &&& n >= 2 && d[0] >= 128 && d[1] < 128 ==> (r matches Some((len, k)) && k == 2 && len
                == (d[0] - 128) * 128 + d[1])
            &&& n == 2 && d[0] >= 128 && d[1] >= 128 ==> r is None
            &&& n >= 3 && d[0] >= 128 && d[1] >= 128 && d[2] < 128 ==> (r matches Some((len, k))
                && k == 3 && len == (d[0] - 128) * 16384 + (d[1] - 128) * 128 + d[2])
            &&& n == 3 && d[0] >= 128 && d[1] >= 128 && d[2] >= 128 ==> r is None
            &&& n >= 4 && d[0] >= 128 && d[1] >= 128 && d[2] >= 128 && d[3] < 128 ==> (
            r matches Some((len, k)) && k == 4 && len == (d[0] - 128) * 2097152 + (d[1] - 128)
                * 16384 + (d[2] - 128) * 128 + d[3])
            &&& n >= 4 && d[0] >= 128 && d[1] >= 128 && d[2] >= 128 && d[3] >= 128 ==> r is None
        }),
{
    let d = data@;
    reveal_with_fuel(continued, 6);
    reveal_with_fuel(base_128, 6);
    if d.len() >= 1 {
        assert(d.take(1).drop_last() =~= Seq::<u8>::empty());
    }
    if d.len() >= 2 {
        assert(d.skip(1)[0] == d[1]);
        assert(d.take(2).drop_last() =~= d.take(1));
    }
    if d.len() >= 3 {
        assert(d.skip(1).skip(1)[0] == d[2]);
        assert(d.take(3).drop_last() =~= d.take(2));
    }
    if d.len() >= 4 {
        assert(d.skip(1).skip(1).skip(1)[0] == d[3]);
        assert(d.take(4).drop_last() =~= d.take(3));
    }
}

/// An elementary stream descriptor starts with an identifier of two bytes and a
/// byte of flags. Its top three bits announce, in this order, two bytes that name
/// another stream, a text behind its length, and two bytes of a clock.
pub proof fn law_stream_headers_are_as_long_as_their_flags_say(
    body: &[u8],
    r: Option<&[u8]>,
)
    requires
        call_ensures(skip_es_descriptor_header, (body,), r),
    ensures
        body@.len() < 3 ==> r is None,
        body@.len() >= 3 ==> ({
            let flags = body@[2];
            let other: int = if flags >= 128 {
                2
            } else {
                0
            };
            let named = (flags / 64) % 2 == 1;
            let text: int = if named {
                1 + body@[3 + other]
            } else {
                0
            };
            let clock: int = if (flags / 32) % 2 == 1 {
                2
            } else {
                0
            };
            let header = 3 + other + text + clock;
            &&& named && 3 + other >= body@.len() ==> r is None
            &&& !(named && 3 + other >= body@.len()) ==> (r is Some <==> header <= body@.len())
            &&& r matches Some(rest) ==> rest@.len() + header == body@.len() && rest@
                == body@.subrange(header, body@.len() as int)
        }),
{
    if body@.len() >= 3 {
        let f = body@[2];
        assert(f & 0x80 != 0 <==> f >= 128) by (bit_vector);
        assert(f & 0x40 != 0 <==> (f / 64) % 2 == 1) by (bit_vector);
        assert(f & 0x20 != 0 <==> (f / 32) % 2 == 1) by (bit_vector);
    }
}

/// A short list of descriptors is searched as its tags say: decoder-specific
/// information is given out as it is, other descriptors are passed over, and a
/// stream or a decoder descriptor is searched inside, behind its header.
pub proof fn law_decoder_information_is_found_by_its_tag(
    data: &[u8],
    r: Option<&[u8]>,
    inside: &[u8],
    found: Option<&[u8]>,
)
    requires
        call_ensures(find_decoder_specific_info, (data,), r),
        call_ensures(find_decoder_specific_info, (inside,), found),
        data@.len() >= 3,
        data@[1] < 128,
        data@[1] + 2 <= data@.len(),
    ensures
        data@[0] == 5 ==> (r matches Some(a) && a@ == data@.subrange(2, data@[1] + 2)),
        data@[0] == 4 && data@[1] >= 13 && inside@ == data@.subrange(15, data@[1] + 2)
            && found is Some ==> (r matches Some(a) && a@ == found->0@),
        data@[0] == 4 && data@[1] < 13 ==> r is None,
        data@[0] == 3 && data@[1] >= 3 && data@[4] < 32 && inside@ == data@.subrange(
            5,
            data@[1] + 2,
        ) && found is Some ==> (r matches Some(a) && a@ == found->0@),
{
    let d = data@;
    let tail = d.skip(1);
    assert(tail[0] == d[1]);
    assert(continued(tail) == 0);
    assert(tail.take(1).drop_last() =~= Seq::<u8>::empty());
    reveal_with_fuel(base_128, 3);
    assert(descriptor_length(tail) == Some((d[1] as nat, 1nat)));
    let body = d.subrange(2, d[1] + 2);
    if d[0] == 4 && d[1] >= 13 {
        assert(body.skip(13) =~= d.subrange(15, d[1] + 2));
    }
    if d[0] == 3 && d[1] >= 3 && d[4] < 32 {
        let f = d[4];
        assert(body[2] == f);
        assert(f < 32 ==> f & 0x80 == 0 && f & 0x40 == 0 && f & 0x20 == 0) by (bit_vector);
        assert(body.skip(3) =~= d.subrange(5, d[1] + 2));
        assert(es_payload(body) == Some(body.skip(3)));
    }
}

/// The profile is named by the first five bits of the decoder-specific
/// information: the names of AAC-LC, HE-AAC and HE-AACv2 are given exactly for
/// their own object types, and a type without a name by its number. Thirty-one
/// announces a larger type in the next byte.
pub proof fn law_profiles_are_named_by_their_object_type(
    payload: &[u8],
    r: Option<String>,
    body: &[u8],
    asc: Option<&[u8]>,
)
    requires
        call_ensures(profile_from_esds, (payload,), r),
        call_ensures(find_decoder_specific_info, (body,), asc),
        body@ == (if payload@.len() > 4 {
            payload@.skip(4)
        } else {
            payload@
        }),
    ensures
        r is Some <==> asc is Some && asc->0@.len() > 0,
        r matches Some(name) ==> {
            let first = asc->0@[0];
            &&& name@ == "LC"@ <==> 16 <= first < 24
            &&& name@ == "HE-AAC"@ <==> 40 <= first < 48
            &&& name@ == "HE-AACv2"@ <==> 232 <= first < 240
            &&& name@ == "MAIN"@ <==> 8 <= first < 16
            &&& name@ == "LTP"@ <==> 32 <= first < 40
            &&& first >= 248 && asc->0@.len() >= 2 ==> name@ == "AOT-"@ + decimal(
                (32 + asc->0@[1] / 8) as nat,
            )
            &&& first < 8 || 24 <= first < 32 || 48 <= first < 232 || 240 <= first < 248 || (first
                >= 248 && asc->0@.len() == 1) ==> name@ == "AOT-"@ + decimal((first / 8) as nat)
        },
{
    lemma_profile_names_apart();
    lemma_numbered_profiles_apart();
    let d = decoder_info(body@, 0);
    if r is Some {
        assert(opt_text(r) == Some(r->0@));
        assert(asc->0@ == d->0);
    }
}

/// Different object types never share a profile name.
pub proof fn law_profiles_tell_object_types_apart(a: nat, b: nat)
    ensures
        a != b ==> profile_name(a) != profile_name(b),
{
    lemma_profile_names_apart();
    lemma_numbered_profiles_apart();
    let x = "AOT-"@ + decimal(a);
    let y = "AOT-"@ + decimal(b);
    if x == y {
        assert(x.skip("AOT-"@.len() as int) =~= decimal(a));
        assert(y.skip("AOT-"@.len() as int) =~= decimal(b));
        law_decimals_are_read_back(a, a + b);
        law_decimals_are_read_back(b, a + b);
    }
}

proof fn lemma_profile_names_apart()
    ensures
        "LC"@ != "HE-AAC"@,
        "LC"@ != "HE-AACv2"@,
        "LC"@ != "MAIN"@,
        "LC"@ != "LTP"@,
        "HE-AAC"@ != "HE-AACv2"@,
        "HE-AAC"@ != "MAIN"@,
        "HE-AAC"@ != "LTP"@,
        "HE-AACv2"@ != "MAIN"@,
        "HE-AACv2"@ != "LTP"@,
        "MAIN"@ != "LTP"@,
{
    reveal_strlit("LC");
    reveal_strlit("HE-AAC");
    reveal_strlit("HE-AACv2");
    reveal_strlit("MAIN");
    reveal_strlit("LTP");
    assert("LC"@.len() == 2 && "HE-AAC"@.len() == 6 && "HE-AACv2"@.len() == 8 && "MAIN"@.len() == 4
        && "LTP"@.len() == 3);
}

proof fn lemma_numbered_profiles_apart()
    ensures
        forall|n: nat|
            {
                &&& "AOT-"@ + #[trigger] decimal(n) != "LC"@
                &&& "AOT-"@ + decimal(n) != "HE-AAC"@
                &&& "AOT-"@ + decimal(n) != "HE-AACv2"@
                &&& "AOT-"@ + decimal(n) != "MAIN"@
                &&& "AOT-"@ + decimal(n) != "LTP"@
            },
{
    reveal_strlit("LC");
    reveal_strlit("HE-AAC");
    reveal_strlit("HE-AACv2");
    reveal_strlit("MAIN");
    reveal_strlit("LTP");
    reveal_strlit("AOT-");
    assert forall|n: nat|
        {
            &&& "AOT-"@ + #[trigger] decimal(n) != "LC"@
            &&& "AOT-"@ + decimal(n) != "HE-AAC"@
            &&& "AOT-"@ + decimal(n) != "HE-AACv2"@
            &&& "AOT-"@ + decimal(n) != "MAIN"@
            &&& "AOT-"@ + decimal(n) != "LTP"@
        } by {
        let x = "AOT-"@ + decimal(n);
        assert("AOT-"@.len() == 4 && x[0] == 'A');
        assert("LC"@[0] == 'L' && "HE-AAC"@[0] == 'H' && "HE-AACv2"@[0] == 'H' && "MAIN"@[0] == 'M'
            && "LTP"@[0] == 'L');
    }
}

/// An encoded audiobook passes exactly where everything that was asked for was
/// read from it: AAC, in its LC profile, at the rate and with the channels, no
/// priming, in a container of the MP4 family. Each fault is told only of a file
/// that has it.
pub proof fn law_audiobooks_pass_as_they_were_asked_for(
    facts: AudiobookFacts,
    sample_rate: u32,
    channels: u8,
    r: Result<(), ArtifactFault>,
)
    requires
        call_ensures(check_audiobook_artifact, (&facts, sample_rate, channels), r),
    ensures
        ({
            let aac = lower(facts.codec@) == "aac"@;
            let low = facts.profile matches Some(p) && p@ == "LC"@;
            let rate = facts.sample_rate_hz == Some(sample_rate);
            let width = facts.channels == Some(channels);
            let bare = facts.priming_samples == Some(0u64);
            let boxed = names_iso_bmff(facts.container@);
            &&& r is Ok <==> aac && low && rate && width && bare && boxed
            &&& r matches Err(ArtifactFault::NotAac) ==> !aac
            &&& r matches Err(ArtifactFault::NotLowComplexity) ==> !low
            &&& r matches Err(ArtifactFault::WrongSampleRate) ==> !rate
            &&& r matches Err(ArtifactFault::WrongChannels) ==> !width
            &&& r matches Err(ArtifactFault::Primed) ==> !bare
            &&& r matches Err(ArtifactFault::WrongContainer) ==> !boxed
            &&& !aac ==> r == Err::<(), ArtifactFault>(ArtifactFault::NotAac)
            &&& aac && !low ==> r == Err::<(), ArtifactFault>(ArtifactFault::NotLowComplexity)
            &&& aac && low && !rate ==> r == Err::<(), ArtifactFault>(ArtifactFault::WrongSampleRate)
            &&& aac && low && rate && !width ==> r == Err::<(), ArtifactFault>(ArtifactFault::WrongChannels)
        }),
{
}

/// The rules on names do not see case, and each knows its own names and no other.
pub proof fn law_names_count_in_any_case(
    text: &str,
    iso: bool,
    codec: &str,
    container: &str,
    extension: &str,
    priming: Option<u32>,
    unprimed: bool,
    source: &str,
    agree: bool,
)
    requires
        call_ensures(is_iso_bmff_audio_ext, (text,), iso),
        call_ensures(
            is_zero_priming_aac_m4b_target,
            (true, codec, container, extension, priming),
            unprimed,
        ),
        call_ensures(containers_match_audiobook, (source, container, extension), agree),
    ensures
        iso <==> lower(text@) == "m4a"@ || lower(text@) == "m4b"@ || lower(text@) == "mp4"@
            || lower(text@) == "m4v"@ || lower(text@) == "mov"@ || lower(text@) == "ipod"@,
        unprimed ==> lower(codec@) == "aac"@,
        lower(codec@) == "aac"@ ==> (unprimed <==> priming == Some(0u32) || lower(extension@)
            == "m4b"@ || lower(container@) == "m4b"@ || lower(container@) == "ipod"@),
        lower(source@) == lower(container@) || lower(source@) == lower(extension@) ==> agree,
        lower(source@) == "m4b"@ && lower(container@) == "ipod"@ && lower(extension@) == "m4b"@
            ==> agree,
        lower(source@) == "ipod"@ && lower(container@) == "m4b"@ ==> agree,
        agree && lower(source@) != "m4b"@ && lower(source@) != "ipod"@ ==> lower(source@) == lower(
            container@,
        ) || lower(source@) == lower(extension@),
        agree && lower(source@) == "ipod"@ && lower(container@) != "m4b"@ ==> lower(container@)
            == "ipod"@ || lower(extension@) == "ipod"@,
{
    reveal_strlit("m4b");
    reveal_strlit("ipod");
    assert("m4b"@.len() == 3 && "ipod"@.len() == 4);
}

/// Whether data is one box and nothing else.
pub open spec fn is_one_box(data: Seq<u8>, kind: u32, body: Seq<u8>) -> bool {
    box_at(data, 0) == Some((kind, body, data.len()))
}

/// Whether data is two boxes and nothing else.
pub open spec fn is_two_boxes(data: Seq<u8>, a: (u32, Seq<u8>), b: (u32, Seq<u8>)) -> bool {
    &&& box_at(data, 0) matches Some((k, s, next)) && (k, s) == a && box_at(data, next) == Some(
        (b.0, b.1, data.len()),
    )
}

proof fn lemma_one_visit(data: Seq<u8>, kind: u32, body: Seq<u8>, sound: bool)
    requires
        is_one_box(data, kind, body),
    ensures
        data.len() >= 8,
        body.len() < data.len(),
        visits(data, 0, sound) == seq![Visit::Atom { kind, body, sound }] + contents(
            kind,
            body,
            sound,
        ),
{
    lemma_box_shrinks(data, 0);
    assert(box_at(data, data.len()) is None);
    assert(visits(data, data.len(), sound) =~= Seq::empty());
    assert(visits(data, 0, sound) =~= seq![Visit::Atom { kind, body, sound }] + contents(
        kind,
        body,
        sound,
    ));
}

proof fn lemma_found_behind<T>(x: Visit, v: Seq<Visit>, f: spec_fn(Visit) -> Option<T>)
    ensures
        f(x) is None ==> last_found(seq![x] + v, f) == last_found(v, f),
        last_found(seq![x], f) == f(x),
        last_found(Seq::<Visit>::empty(), f) is None,
{
    lemma_last_found_concat(seq![x], v, f);
    assert(seq![x].drop_last() =~= Seq::<Visit>::empty());
    reveal_with_fuel(last_found, 2);
}

proof fn lemma_meets_behind(x: Visit, v: Seq<Visit>, p: spec_fn(Visit) -> bool)
    ensures
        meets(seq![x] + v, p) == (p(x) || meets(v, p)),
        meets(seq![x], p) == p(x),
        !meets(Seq::<Visit>::empty(), p),
{
    lemma_meets_concat(seq![x], v, p);
    assert(meets(seq![x], p) == p(x)) by {
        assert(seq![x][0] == x);
    }
}

/// A box that holds other boxes says of a file what they say: of one such box
/// around some data, the facts are those of the data.
pub proof fn law_containers_say_what_they_hold(
    data: &[u8],
    body: &[u8],
    kind: u32,
    outer: Mp4AacInfo,
    inner: Mp4AacInfo,
)
    requires
        call_ensures(inspect_mp4_bytes, (data,), outer),
        call_ensures(inspect_mp4_bytes, (body,), inner),
        is_one_box(data@, kind, body@),
        body@.len() >= 8,
        kind == MOOV || kind == EDTS || kind == MDIA || kind == MINF || kind == STBL || kind == UDTA
            || kind == MOOF || kind == META || kind == ILST,
    ensures
        outer.priming_samples == inner.priming_samples,
        opt_text(outer.profile) == opt_text(inner.profile),
        outer.sample_rate_hz == inner.sample_rate_hz,
        outer.channels == inner.channels,
        outer.has_chapters == inner.has_chapters,
        outer.has_artwork == inner.has_artwork,
        outer.encrypted == inner.encrypted,
        outer.parsed,
{
    lemma_one_visit(data@, kind, body@, false);
    let x = Visit::Atom { kind, body: body@, sound: false };
    let v = visits(body@, 0, false);
    lemma_found_behind(x, v, |x: Visit| priming_in(x));
    lemma_found_behind(x, v, |x: Visit| profile_in(x));
    lemma_found_behind(x, v, |x: Visit| rate_in(x));
    lemma_found_behind(x, v, |x: Visit| channels_in(x));
    lemma_meets_behind(x, v, |x: Visit| marks_chapters(x));
    lemma_meets_behind(x, v, |x: Visit| marks_artwork(x));
    lemma_meets_behind(x, v, |x: Visit| marks_encryption(x));
}

/// A single box that holds no others says by its kind alone whether a file has
/// chapters or artwork or is encrypted, and outside a sound track it says nothing
/// about sound.
pub proof fn law_single_boxes_mark_by_their_kind(
    data: &[u8],
    kind: u32,
    body: Seq<u8>,
    r: Mp4AacInfo,
)
    requires
        call_ensures(inspect_mp4_bytes, (data,), r),
        is_one_box(data@, kind, body),
        kind != MOOV && kind != EDTS && kind != MDIA && kind != MINF && kind != STBL && kind != UDTA
            && kind != MOOF && kind != META && kind != ILST && kind != TRAK && kind != STSD,
    ensures
        r.has_chapters <==> kind == CHPL || kind == CHAP,
        r.has_artwork <==> kind == COVR,
        r.encrypted <==> kind == ENCA || kind == ENCV || kind == PSSH || kind == SINF,
        r.priming_samples is None,
        r.profile is None,
        r.sample_rate_hz is None,
        r.channels is None,
        r.parsed,
{
    lemma_one_visit(data@, kind, body, false);
    let x = Visit::Atom { kind, body, sound: false };
    let v = Seq::<Visit>::empty();
    assert(seq![x] + v =~= seq![x]);
    lemma_found_behind(x, v, |x: Visit| priming_in(x));
    lemma_found_behind(x, v, |x: Visit| profile_in(x));
    lemma_found_behind(x, v, |x: Visit| rate_in(x));
    lemma_found_behind(x, v, |x: Visit| channels_in(x));
    lemma_meets_behind(x, v, |x: Visit| marks_chapters(x));
    lemma_meets_behind(x, v, |x: Visit| marks_artwork(x));
    lemma_meets_behind(x, v, |x: Visit| marks_encryption(x));
}

proof fn lemma_box_shift(data: Seq<u8>, k: nat, o: nat)
    requires
        k + o <= data.len(),
    ensures
        box_at(data.skip(k as int), o) == (match box_at(data, k + o) {
            Some((kind, body, next)) => Some((kind, body, (next - k) as nat)),
            None => None,
        }),
{
    let s = data.skip(k as int);
    if k + o + 8 <= data.len() {
        let i = o as int;
        let j = (k + o) as int;
        assert(s.subrange(i, i + 4) =~= data.subrange(j, j + 4));
        assert(s.subrange(i + 4, i + 8) =~= data.subrange(j + 4, j + 8));
        if j + 16 <= data.len() {
            assert(s.subrange(i + 8, i + 16) =~= data.subrange(j + 8, j + 16));
        }
        if let Some((kind, body, next)) = box_at(data, k + o) {
            let size = be_at(data, (k + o) as int, 4);
            let header: int = if size == 1 {
                16
            } else {
                8
            };
            assert(s.subrange(i + header, next - k) =~= data.subrange(j + header, next as int));
        }
    }
}

proof fn lemma_visits_shift(data: Seq<u8>, k: nat, o: nat, sound: bool)
    requires
        k + o <= data.len(),
        k > 0,
    ensures
        visits(data.skip(k as int), o, sound) == visits(data, k + o, sound),
    decreases data.len() - o,
{
    lemma_box_shift(data, k, o);
    lemma_box_shrinks(data, k + o);
    lemma_box_shrinks(data.skip(k as int), o);
    if let Some((kind, body, next)) = box_at(data, k + o) {
        lemma_visits_shift(data, k, (next - k) as nat, sound);
    }
}

/// What a file says is said by its boxes one by one: of a box and what follows
/// it, a value that is found further on counts, else the one found before, and a
/// mark counts wherever it stands.
pub proof fn law_later_boxes_win(
    data: &[u8],
    head: &[u8],
    tail: &[u8],
    kind: u32,
    body: Seq<u8>,
    all: Mp4AacInfo,
    first: Mp4AacInfo,
    rest: Mp4AacInfo,
)
    requires
        call_ensures(inspect_mp4_bytes, (data,), all),
        call_ensures(inspect_mp4_bytes, (head,), first),
        call_ensures(inspect_mp4_bytes, (tail,), rest),
        is_one_box(head@, kind, body),
        box_at(data@, 0) == Some((kind, body, head@.len())),
        head@ == data@.take(head@.len() as int),
        tail@ == data@.skip(head@.len() as int),
        tail@.len() >= 8,
    ensures
        all.priming_samples == (if rest.priming_samples is Some {
            rest.priming_samples
        } else {
            first.priming_samples
        }),
        opt_text(all.profile) == (if rest.profile is Some {
            opt_text(rest.profile)
        } else {
            opt_text(first.profile)
        }),
        all.sample_rate_hz == (if rest.sample_rate_hz is Some {
            rest.sample_rate_hz
        } else {
            first.sample_rate_hz
        }),
        all.channels == (if rest.channels is Some {
            rest.channels
        } else {
            first.channels
        }),
        all.has_chapters == (first.has_chapters || rest.has_chapters),
        all.has_artwork == (first.has_artwork || rest.has_artwork),
        all.encrypted == (first.encrypted || rest.encrypted),
{
    let n = head@.len();
    lemma_box_shrinks(data@, 0);
    lemma_one_visit(head@, kind, body, false);
    lemma_visits_shift(data@, n, 0, false);
    let a = visits(head@, 0, false);
    let b = visits(tail@, 0, false);
    assert(visits(data@, 0, false) =~= a + b);
    lemma_last_found_concat(a, b, |x: Visit| priming_in(x));
    lemma_last_found_concat(a, b, |x: Visit| profile_in(x));
    lemma_last_found_concat(a, b, |x: Visit| rate_in(x));
    lemma_last_found_concat(a, b, |x: Visit| channels_in(x));
    lemma_meets_concat(a, b, |x: Visit| marks_chapters(x));
    lemma_meets_concat(a, b, |x: Visit| marks_artwork(x));
    lemma_meets_concat(a, b, |x: Visit| marks_encryption(x));
}

/// The handler of a track is named by the four bytes, eight in, of its handler
/// box, which is looked for in the media, the media-information and the edit box
/// as well, and behind every other box.
pub proof fn law_handlers_are_named_by_their_box(
    data: &[u8],
    r: Option<u32>,
    body: &[u8],
    inner: Option<u32>,
    kind: u32,
)
    requires
        call_ensures(find_handler, (data,), r),
        call_ensures(find_handler, (body,), inner),
        is_one_box(data@, kind, body@),
    ensures
        kind == HDLR && body@.len() >= 12 ==> (r matches Some(h) && h == body@[8] * 0x100_0000
            + body@[9] * 0x1_0000 + body@[10] * 0x100 + body@[11]),
        kind == MDIA || kind == MINF || kind == EDTS ==> r == inner,
        kind != HDLR && kind != MDIA && kind != MINF && kind != EDTS ==> r is None,
{
    lemma_box_shrinks(data@, 0);
    assert(box_at(data@, data@.len()) is None);
    assert(handler(data@, data@.len()) is None);
    if body@.len() >= 12 {
        law_big_endian_puts_the_high_byte_first(body@, 8);
    }
}

proof fn lemma_two_visits(data: Seq<u8>, a: (u32, Seq<u8>), b: (u32, Seq<u8>), sound: bool)
    requires
        is_two_boxes(data, a, b),
        contents(a.0, a.1, sound) == Seq::<Visit>::empty(),
    ensures
        visits(data, 0, sound) == seq![Visit::Atom { kind: a.0, body: a.1, sound }] + (seq![
            Visit::Atom { kind: b.0, body: b.1, sound },
        ] + contents(b.0, b.1, sound)),
{
    let first = box_at(data, 0)->0;
    let next = first.2;
    lemma_box_shrinks(data, 0);
    lemma_box_shrinks(data, next);
    let x = Visit::Atom { kind: a.0, body: a.1, sound };
    let y = Visit::Atom { kind: b.0, body: b.1, sound };
    let inner = contents(b.0, b.1, sound);
    assert(box_at(data, data.len()) is None);
    assert(visits(data, data.len(), sound) == Seq::<Visit>::empty());
    assert(visits(data, next, sound) == seq![y] + inner + visits(data, data.len(), sound));
    assert(visits(data, next, sound) =~= seq![y] + inner);
    assert(visits(data, 0, sound) == seq![x] + contents(a.0, a.1, sound) + visits(
        data,
        next,
        sound,
    ));
    assert(visits(data, 0, sound) =~= seq![x] + (seq![y] + inner));
}

proof fn lemma_found_in_track<T>(
    t: Visit,
    h: Visit,
    w: Seq<Visit>,
    f: spec_fn(Visit) -> Option<T>,
)
    requires
        f(t) is None,
        f(h) is None,
    ensures
        last_found(seq![t] + (seq![h] + w), f) == last_found(w, f),
{
    lemma_found_behind(t, seq![h] + w, f);
    lemma_found_behind(h, w, f);
}

proof fn lemma_met_in_track(t: Visit, h: Visit, w: Seq<Visit>, p: spec_fn(Visit) -> bool)
    requires
        !p(t),
        !p(h),
    ensures
        meets(seq![t] + (seq![h] + w), p) == meets(w, p),
{
    lemma_meets_behind(t, seq![h] + w, p);
    lemma_meets_behind(h, w, p);
}

/// What a sound or any other track says is what its last part says, where the
/// first of its two boxes names the handler.
proof fn lemma_track(
    data: Seq<u8>,
    trak: Seq<u8>,
    handler_body: Seq<u8>,
    b: (u32, Seq<u8>),
    r: Mp4AacInfo,
)
    requires
        is_one_box(data, TRAK, trak),
        is_two_boxes(trak, (HDLR, handler_body), b),
        handler_body.len() >= 12,
        r.priming_samples == last_found(file_visits(data), |x: Visit| priming_in(x)),
        opt_text(r.profile) == last_found(file_visits(data), |x: Visit| profile_in(x)),
        r.sample_rate_hz == last_found(file_visits(data), |x: Visit| rate_in(x)),
        r.channels == last_found(file_visits(data), |x: Visit| channels_in(x)),
        r.has_chapters == meets(file_visits(data), |x: Visit| marks_chapters(x)),
        r.has_artwork == meets(file_visits(data), |x: Visit| marks_artwork(x)),
        r.encrypted == meets(file_visits(data), |x: Visit| marks_encryption(x)),
    ensures
        ({
            let sound = be_at(handler_body, 8, 4) == SOUN;
            let w = seq![Visit::Atom { kind: b.0, body: b.1, sound }] + contents(b.0, b.1, sound);
            &&& r.priming_samples == last_found(w, |x: Visit| priming_in(x))
            &&& opt_text(r.profile) == last_found(w, |x: Visit| profile_in(x))
            &&& r.sample_rate_hz == last_found(w, |x: Visit| rate_in(x))
            &&& r.channels == last_found(w, |x: Visit| channels_in(x))
            &&& r.has_chapters == meets(w, |x: Visit| marks_chapters(x))
            &&& r.has_artwork == meets(w, |x: Visit| marks_artwork(x))
            &&& r.encrypted == meets(w, |x: Visit| marks_encryption(x))
        }),
{
    law_big_endian_puts_the_high_byte_first(handler_body, 8);
    lemma_one_visit(data, TRAK, trak, false);
    assert(handler(trak, 0) == Some(be_at(handler_body, 8, 4) as u32));
    let sound = is_sound_track(trak);
    assert(sound == (be_at(handler_body, 8, 4) == SOUN));
    assert(contents(HDLR, handler_body, sound) =~= Seq::<Visit>::empty());
    lemma_two_visits(trak, (HDLR, handler_body), b, sound);
    let t = Visit::Atom { kind: TRAK, body: trak, sound: false };
    let h = Visit::Atom { kind: HDLR, body: handler_body, sound };
    let w = seq![Visit::Atom { kind: b.0, body: b.1, sound }] + contents(b.0, b.1, sound);
    assert(file_visits(data) == seq![t] + (seq![h] + w));
    lemma_found_in_track(t, h, w, |x: Visit| priming_in(x));
    lemma_found_in_track(t, h, w, |x: Visit| profile_in(x));
    lemma_found_in_track(t, h, w, |x: Visit| rate_in(x));
    lemma_found_in_track(t, h, w, |x: Visit| channels_in(x));
    lemma_met_in_track(t, h, w, |x: Visit| marks_chapters(x));
    lemma_met_in_track(t, h, w, |x: Visit| marks_artwork(x));
    lemma_met_in_track(t, h, w, |x: Visit| marks_encryption(x));
}

/// A track is one of sound exactly where its handler is named so; only there the
/// edit list gives the priming and the stream descriptor the profile.
#[verifier::rlimit(30)]
pub proof fn law_only_sound_tracks_speak_of_sound(
    data: &[u8],
    trak: Seq<u8>,
    handler_body: Seq<u8>,
    kind: u32,
    body: &[u8],
    r: Mp4AacInfo,
    priming: Option<u64>,
    profile: Option<String>,
)
    requires
        call_ensures(inspect_mp4_bytes, (data,), r),
        call_ensures(parse_elst_priming, (body,), priming),
        call_ensures(profile_from_esds, (body,), profile),
        is_one_box(data@, TRAK, trak),
        is_two_boxes(trak, (HDLR, handler_body), (kind, body@)),
        handler_body.len() >= 12,
        kind == ELST || kind == ESDS,
    ensures
        be_at(handler_body, 8, 4) == SOUN ==> {
            &&& kind == ELST ==> r.priming_samples == priming && r.profile is None
            &&& kind == ESDS ==> opt_text(r.profile) == opt_text(profile)
                && r.priming_samples is None
        },
        be_at(handler_body, 8, 4) != SOUN ==> r.priming_samples is None && r.profile is None,
        r.sample_rate_hz is None && r.channels is None,
        !r.has_chapters && !r.has_artwork && !r.encrypted,
{
    let sound = be_at(handler_body, 8, 4) == SOUN;
    lemma_track(data@, trak, handler_body, (kind, body@), r);
    let x = Visit::Atom { kind, body: body@, sound };
    let v = Seq::<Visit>::empty();
    assert(contents(kind, body@, sound) =~= v);
    assert(seq![x] + contents(kind, body@, sound) =~= seq![x]);
    lemma_found_behind(x, v, |x: Visit| priming_in(x));
    lemma_found_behind(x, v, |x: Visit| profile_in(x));
    lemma_found_behind(x, v, |x: Visit| rate_in(x));
    lemma_found_behind(x, v, |x: Visit| channels_in(x));
    lemma_meets_behind(x, v, |x: Visit| marks_chapters(x));
    lemma_meets_behind(x, v, |x: Visit| marks_artwork(x));
    lemma_meets_behind(x, v, |x: Visit| marks_encryption(x));
}

proof fn lemma_found_second<T>(a: Visit, b: Visit, f: spec_fn(Visit) -> Option<T>)
    requires
        f(a) is None,
    ensures
        last_found(seq![a] + seq![b], f) == f(b),
{
    lemma_found_behind(a, seq![b], f);
    lemma_found_behind(b, Seq::empty(), f);
}

proof fn lemma_met_second(a: Visit, b: Visit, p: spec_fn(Visit) -> bool)
    requires
        !p(a),
    ensures
        meets(seq![a] + seq![b], p) == p(b),
{
    lemma_meets_behind(a, seq![b], p);
    lemma_meets_behind(b, Seq::empty(), p);
}

/// The entry of a sound track's sample description gives the channels in its
/// eighteenth byte and the sample rate in the two bytes behind the twenty-fourth,
/// where that is not zero. An encrypted entry says so, and a picture entry counts
/// as artwork.
#[verifier::rlimit(30)]
pub proof fn law_sample_entries_describe_the_sound(
    data: &[u8],
    trak: Seq<u8>,
    handler_body: Seq<u8>,
    stsd: Seq<u8>,
    kind: u32,
    entry: Seq<u8>,
    r: Mp4AacInfo,
)
    requires
        call_ensures(inspect_mp4_bytes, (data,), r),
        is_one_box(data@, TRAK, trak),
        is_two_boxes(trak, (HDLR, handler_body), (STSD, stsd)),
        handler_body.len() >= 12,
        stsd.len() >= 8,
        is_one_box(stsd.skip(8), kind, entry),
        entry.len() < 36,
    ensures
        r.encrypted <==> kind == ENCA || kind == ENCV,
        r.has_artwork <==> kind == MP4V || kind == AVC1 || kind == ENCV,
        !r.has_chapters,
        r.priming_samples is None && r.profile is None,
        be_at(handler_body, 8, 4) == SOUN && (kind == MP4A || kind == ENCA) && entry.len() >= 28 ==> {
            &&& r.channels == Some(entry[17])
            &&& entry[24] * 256 + entry[25] > 0 ==> (r.sample_rate_hz matches Some(n) && n
                == entry[24] * 256 + entry[25])
            &&& entry[24] * 256 + entry[25] == 0 ==> r.sample_rate_hz is None
        },
        be_at(handler_body, 8, 4) != SOUN || (kind != MP4A && kind != ENCA) || entry.len() < 28
            ==> r.channels is None && r.sample_rate_hz is None,
{
    let sound = be_at(handler_body, 8, 4) == SOUN;
    lemma_track(data@, trak, handler_body, (STSD, stsd), r);
    if entry.len() >= 28 {
        law_big_endian_puts_the_high_byte_first(entry, 16);
        law_big_endian_puts_the_high_byte_first(entry, 24);
    }
    let d = Visit::Atom { kind: STSD, body: stsd, sound };
    let x = Visit::Entry { kind, body: entry, sound };
    let list = stsd.skip(8);
    lemma_box_shrinks(list, 0);
    assert(box_at(list, list.len()) is None);
    assert(entries(list, list.len(), sound) == Seq::<Visit>::empty());
    let inner = if is_audio_entry(kind, entry, sound) {
        visits(entry.skip(28), 0, true)
    } else {
        Seq::empty()
    };
    if is_audio_entry(kind, entry, sound) {
        assert(box_at(entry.skip(28), 0) is None);
        assert(visits(entry.skip(28), 0, true) == Seq::<Visit>::empty());
    }
    assert(entries(list, 0, sound) == seq![x] + inner + entries(list, list.len(), sound));
    assert(entries(list, 0, sound) =~= seq![x]);
    assert(contents(STSD, stsd, sound) == seq![x]);
    lemma_found_second(d, x, |x: Visit| priming_in(x));
    lemma_found_second(d, x, |x: Visit| profile_in(x));
    lemma_found_second(d, x, |x: Visit| rate_in(x));
    lemma_found_second(d, x, |x: Visit| channels_in(x));
    lemma_met_second(d, x, |x: Visit| marks_chapters(x));
    lemma_met_second(d, x, |x: Visit| marks_artwork(x));
    lemma_met_second(d, x, |x: Visit| marks_encryption(x));
}

/// A protected audiobook is known by its extension, in any case.
pub proof fn law_protected_audiobooks_are_known_by_extension(path: MediaPath, r: bool)
    requires
        call_ensures(is_protected_audiobook_path, (&path,), r),
    ensures
        r <==> (path_extension(path@) matches Some(e) && (lower(e) == "m4p"@ || lower(e) == "aax"@
            || lower(e) == "aaxc"@)),
{
}

/// No output but a sound file is held to have no priming.
pub proof fn law_only_sound_is_held_unprimed(
    codec: &str,
    container: &str,
    extension: &str,
    priming: Option<u32>,
    r: bool,
)
    requires
        call_ensures(
            is_zero_priming_aac_m4b_target,
            (false, codec, container, extension, priming),
            r,
        ),
    ensures
        !r,
{
}

/// A stream is refused for what it lacks: a whole first frame, anything behind it,
/// or a whole frame there.
pub proof fn law_streams_need_two_frames(
    input: &[u8],
    r: Result<Vec<u8>, AdtsError>,
    frame: Option<(usize, bool)>,
    rest: &[u8],
    next: Option<(usize, bool)>,
)
    requires
        call_ensures(drop_first_adts_frame, (input,), r),
        call_ensures(adts_frame_at, (input, 0usize), frame),
        call_ensures(adts_frame_at, (rest, 0usize), next),
        frame matches Some((n, _)) ==> rest@ == input@.skip(n as int),
    ensures
        frame is None ==> r == Err::<Vec<u8>, AdtsError>(AdtsError::NoFirstFrame),
        frame matches Some((n, _)) ==> n == input@.len() ==> r == Err::<Vec<u8>, AdtsError>(
            AdtsError::OnlyOneFrame,
        ),
        frame matches Some((n, _)) ==> n < input@.len() && next is None ==> r == Err::<
            Vec<u8>,
            AdtsError,
        >(AdtsError::NoFrameLeft),
        frame is Some && next is Some ==> (r matches Ok(left) && left@ == rest@),
{
}

/// The boxes of a sound track stay in it however deep they lie: inside a box that
/// holds others, the edit list and the stream descriptor speak as they would
/// beside it.
pub proof fn law_sound_reaches_into_containers(
    data: &[u8],
    trak: Seq<u8>,
    handler_body: Seq<u8>,
    outer: u32,
    inner: Seq<u8>,
    kind: u32,
    body: &[u8],
    r: Mp4AacInfo,
    priming: Option<u64>,
    profile: Option<String>,
)
    requires
        call_ensures(inspect_mp4_bytes, (data,), r),
        call_ensures(parse_elst_priming, (body,), priming),
        call_ensures(profile_from_esds, (body,), profile),
        is_one_box(data@, TRAK, trak),
        is_two_boxes(trak, (HDLR, handler_body), (outer, inner)),
        is_one_box(inner, kind, body@),
        handler_body.len() >= 12,
        be_at(handler_body, 8, 4) == SOUN,
        outer == EDTS || outer == MDIA || outer == MINF || outer == STBL || outer == UDTA,
        kind == ELST || kind == ESDS,
    ensures
        kind == ELST ==> r.priming_samples == priming && r.profile is None,
        kind == ESDS ==> opt_text(r.profile) == opt_text(profile) && r.priming_samples is None,
{
    lemma_track(data@, trak, handler_body, (outer, inner), r);
    lemma_one_visit(inner, kind, body@, true);
    let o = Visit::Atom { kind: outer, body: inner, sound: true };
    let x = Visit::Atom { kind, body: body@, sound: true };
    let none = Seq::<Visit>::empty();
    assert(contents(kind, body@, true) =~= none);
    assert(visits(inner, 0, true) =~= seq![x]);
    assert(contents(outer, inner, true) == seq![x]);
    lemma_found_second(o, x, |x: Visit| priming_in(x));
    lemma_found_second(o, x, |x: Visit| profile_in(x));
}

/// Behind the fixed fields of an audio entry, in its twenty-ninth byte, begin its
/// own boxes, and a stream descriptor there names the profile.
pub proof fn law_audio_entries_hold_the_stream_descriptor(
    data: &[u8],
    trak: Seq<u8>,
    handler_body: Seq<u8>,
    stsd: Seq<u8>,
    kind: u32,
    entry: Seq<u8>,
    body: &[u8],
    r: Mp4AacInfo,
    profile: Option<String>,
)
    requires
        call_ensures(inspect_mp4_bytes, (data,), r),
        call_ensures(profile_from_esds, (body,), profile),
        is_one_box(data@, TRAK, trak),
        is_two_boxes(trak, (HDLR, handler_body), (STSD, stsd)),
        handler_body.len() >= 12,
        be_at(handler_body, 8, 4) == SOUN,
        stsd.len() >= 8,
        is_one_box(stsd.skip(8), kind, entry),
        kind == MP4A || kind == ENCA,
        entry.len() >= 28,
        is_one_box(entry.skip(28), ESDS, body@),
    ensures
        opt_text(r.profile) == opt_text(profile),
{
    lemma_track(data@, trak, handler_body, (STSD, stsd), r);
    let list = stsd.skip(8);
    let d = Visit::Atom { kind: STSD, body: stsd, sound: true };
    let x = Visit::Entry { kind, body: entry, sound: true };
    let y = Visit::Atom { kind: ESDS, body: body@, sound: true };
    lemma_box_shrinks(list, 0);
    assert(box_at(list, list.len()) is None);
    assert(entries(list, list.len(), true) == Seq::<Visit>::empty());
    lemma_one_visit(entry.skip(28), ESDS, body@, true);
    assert(contents(ESDS, body@, true) =~= Seq::<Visit>::empty());
    assert(visits(entry.skip(28), 0, true) =~= seq![y]);
    assert(entries(list, 0, true) == seq![x] + seq![y] + entries(list, list.len(), true));
    assert(entries(list, 0, true) =~= seq![x] + seq![y]);
    assert(contents(STSD, stsd, true) == seq![x] + seq![y]);
    let f = |x: Visit| profile_in(x);
    lemma_found_behind(d, seq![x] + seq![y], f);
    lemma_found_second(x, y, f);
}

/// What is wrong with a stream or an artifact is said in words of its own.
pub proof fn law_faults_are_said(
    e: AdtsError,
    re: &'static str,
    f: ArtifactFault,
    rf: &'static str,
)
    requires
        call_ensures(AdtsError::message, (&e,), re),
        call_ensures(ArtifactFault::message, (&f,), rf),
    ensures
        e == AdtsError::NoFirstFrame ==> re@ == "ADTS stream has no complete first frame to drop"@,
        e == AdtsError::OnlyOneFrame ==> re@
            == "ADTS stream has only one frame; cannot drop encoder delay"@,
        e == AdtsError::NoFrameLeft ==> re@
            == "ADTS stream has no frames after dropping encoder delay"@,
        f == ArtifactFault::NotAac ==> rf@ == "output is not AAC"@,
        f == ArtifactFault::NotLowComplexity ==> rf@ == "output is not AAC-LC"@,
        f == ArtifactFault::WrongSampleRate ==> rf@
            == "output sample rate is not the requested one"@,
        f == ArtifactFault::WrongChannels ==> rf@
            == "output channel count is not the requested one"@,
        f == ArtifactFault::Primed ==> rf@ == "output priming is not 0 samples"@,
        f == ArtifactFault::WrongContainer ==> rf@
            == "output is not an m4b or ipod-compatible MP4 container"@,
{
}

/// The handler of a track is named by the first handler box; a box of another
/// kind before it is passed over.
pub proof fn law_handlers_are_found_behind_other_boxes(
    data: &[u8],
    r: Option<u32>,
    a: (u32, Seq<u8>),
    b: (u32, Seq<u8>),
)
    requires
        call_ensures(find_handler, (data,), r),
        is_two_boxes(data@, a, b),
        b.0 == HDLR,
        b.1.len() >= 12,
    ensures
        a.0 != HDLR && a.0 != MDIA && a.0 != MINF && a.0 != EDTS ==> (r matches Some(h) && h
            == b.1[8] * 0x100_0000 + b.1[9] * 0x1_0000 + b.1[10] * 0x100 + b.1[11]),
        a.0 == HDLR && a.1.len() >= 12 ==> (r matches Some(h) && h == a.1[8] * 0x100_0000 + a.1[9]
            * 0x1_0000 + a.1[10] * 0x100 + a.1[11]),
{
    let first = box_at(data@, 0)->0;
    lemma_box_shrinks(data@, 0);
    law_big_endian_puts_the_high_byte_first(b.1, 8);
    if a.1.len() >= 12 {
        law_big_endian_puts_the_high_byte_first(a.1, 8);
    }
    assert(handler(data@, first.2) == Some(be_at(b.1, 8, 4) as u32));
}

/// Every entry of a sample description is looked at: a picture or an encrypted
/// stream counts wherever it stands in the list.
pub proof fn law_every_sample_entry_is_looked_at(
    data: &[u8],
    trak: Seq<u8>,
    handler_body: Seq<u8>,
    stsd: Seq<u8>,
    a: (u32, Seq<u8>),
    b: (u32, Seq<u8>),
    r: Mp4AacInfo,
)
    requires
        call_ensures(inspect_mp4_bytes, (data,), r),
        is_one_box(data@, TRAK, trak),
        is_two_boxes(trak, (HDLR, handler_body), (STSD, stsd)),
        handler_body.len() >= 12,
        stsd.len() >= 8,
        is_two_boxes(stsd.skip(8), a, b),
        a.1.len() < 28,
        b.1.len() < 28,
    ensures
        r.encrypted <==> a.0 == ENCA || a.0 == ENCV || b.0 == ENCA || b.0 == ENCV,
        r.has_artwork <==> a.0 == MP4V || a.0 == AVC1 || a.0 == ENCV || b.0 == MP4V || b.0 == AVC1
            || b.0 == ENCV,
{
    let sound = be_at(handler_body, 8, 4) == SOUN;
    lemma_track(data@, trak, handler_body, (STSD, stsd), r);
    let list = stsd.skip(8);
    let first = box_at(list, 0)->0;
    let next = first.2;
    let d = Visit::Atom { kind: STSD, body: stsd, sound };
    let x = Visit::Entry { kind: a.0, body: a.1, sound };
    let y = Visit::Entry { kind: b.0, body: b.1, sound };
    lemma_box_shrinks(list, 0);
    lemma_box_shrinks(list, next);
    assert(box_at(list, list.len()) is None);
    let none = Seq::<Visit>::empty();
    assert(entries(list, list.len(), sound) == none);
    assert(entries(list, next, sound) == seq![y] + none + entries(list, list.len(), sound));
    assert(entries(list, next, sound) =~= seq![y]);
    assert(entries(list, 0, sound) == seq![x] + none + entries(list, next, sound));
    assert(entries(list, 0, sound) =~= seq![x] + seq![y]);
    assert(contents(STSD, stsd, sound) == seq![x] + seq![y]);
    lemma_met_of_three(d, x, y, |x: Visit| marks_artwork(x));
    lemma_met_of_three(d, x, y, |x: Visit| marks_encryption(x));
}

proof fn lemma_met_of_three(a: Visit, b: Visit, c: Visit, p: spec_fn(Visit) -> bool)
    ensures
        meets(seq![a] + (seq![b] + seq![c]), p) == (p(a) || p(b) || p(c)),
{
    lemma_meets_behind(a, seq![b] + seq![c], p);
    lemma_meets_behind(b, seq![c], p);
    lemma_meets_behind(c, Seq::empty(), p);
}

proof fn lemma_info_shift(data: Seq<u8>, k: nat, o: nat)
    requires
        0 < k,
        k + o <= data.len(),
    ensures
        decoder_info(data.skip(k as int), o) == decoder_info(data, k + o),
    decreases data.len() - o,
{
    let s = data.skip(k as int);
    let i = k + o;
    if i + 2 < data.len() {
        assert(s.skip(o as int + 1) =~= data.skip(i as int + 1));
        if let Some((len, hdr)) = descriptor_length(data.skip(i as int + 1)) {
            let start = i + 1 + hdr;
            let end = if start + len < data.len() {
                start + len
            } else {
                data.len()
            };
            if start <= data.len() {
                assert(s.subrange(start - k, end - k) =~= data.subrange(
                    start as int,
                    end as int,
                ));
                lemma_info_shift(data, k, (end - k) as nat);
            }
        }
    }
}

/// A descriptor of another kind is passed over: what follows it is searched as it
/// would be alone.
pub proof fn law_other_descriptors_are_passed_over(
    data: &[u8],
    r: Option<&[u8]>,
    rest: &[u8],
    found: Option<&[u8]>,
)
    requires
        call_ensures(find_decoder_specific_info, (data,), r),
        call_ensures(find_decoder_specific_info, (rest,), found),
        data@.len() >= 3,
        data@[0] != 3 && data@[0] != 4 && data@[0] != 5,
        data@[1] < 128,
        data@[1] + 2 <= data@.len(),
        rest@ == data@.skip(data@[1] + 2),
    ensures
        r is Some <==> found is Some,
        r matches Some(a) ==> a@ == found->0@,
{
    let d = data@;
    let tail = d.skip(1);
    assert(tail[0] == d[1]);
    assert(continued(tail) == 0);
    assert(tail.take(1).drop_last() =~= Seq::<u8>::empty());
    reveal_with_fuel(base_128, 3);
    assert(descriptor_length(tail) == Some((d[1] as nat, 1nat)));
    let end = (d[1] + 2) as nat;
    assert(decoder_info(d, 0) == decoder_info(d, end));
    lemma_info_shift(d, end, 0);
}

/// A list that is cut off before an edit that is not empty says nothing.
pub proof fn law_lists_that_are_cut_off_say_nothing(payload: &[u8], r: Option<u64>, e: int)
    requires
        call_ensures(parse_elst_priming, (payload,), r),
        payload@.len() >= 8,
        0 <= e < payload@[4] * 0x100_0000 + payload@[5] * 0x1_0000 + payload@[6] * 0x100
            + payload@[7],
        ({
            let size: int = if payload@[0] == 1 {
                20
            } else {
                12
            };
            8 + e * size <= payload@.len() < 8 + (e + 1) * size
        }),
        forall|j: int| 0 <= j < e ==> #[trigger] is_empty_edit(payload@, j),
    ensures
        r is None,
{
    let p = payload@;
    law_big_endian_puts_the_high_byte_first(p, 4);
    let size: int = if p[0] == 1 {
        20
    } else {
        12
    };
    lemma_edits_skipped(p, e, be_at(p, 4, 4) as int);
    assert((e + 1) * size == e * size + size) by (nonlinear_arith);
}

/// Data too short for a box is not parsed, and says nothing.
pub proof fn law_short_data_says_nothing(data: &[u8], r: Mp4AacInfo)
    requires
        call_ensures(inspect_mp4_bytes, (data,), r),
    ensures
        r.parsed <==> data@.len() >= 8,
        data@.len() < 8 ==> {
            &&& r.priming_samples is None && r.profile is None
            &&& r.sample_rate_hz is None && r.channels is None
            &&& !r.has_chapters && !r.has_artwork && !r.encrypted
        },
{
    let none = Seq::<Visit>::empty();
    if data@.len() < 8 {
        assert(file_visits(data@) == none);
    }
}

/// A descriptor begins with its tag and its length, in as many bytes as that
/// takes: decoder-specific information is what follows, as long as it says or as
/// long as there is data.
pub proof fn law_decoder_information_follows_its_length(
    data: &[u8],
    r: Option<&[u8]>,
    tail: &[u8],
    length: Option<(usize, usize)>,
)
    requires
        call_ensures(find_decoder_specific_info, (data,), r),
        call_ensures(mpeg4_descriptor_length, (tail,), length),
        data@.len() >= 3,
        tail@ == data@.skip(1),
        data@[0] == 5,
    ensures
        length is None ==> r is None,
        length matches Some((len, bytes)) ==> (r matches Some(a) && a@ == data@.subrange(
            1 + bytes,
            if 1 + bytes + len < data@.len() {
                1 + bytes + len
            } else {
                data@.len() as int
            },
        )),
{
}

/// Where nothing is found inside a stream or a decoder descriptor, the search
/// goes on behind it; a descriptor too short for its own header ends it.
pub proof fn law_the_search_goes_on_behind_a_descriptor(
    data: &[u8],
    r: Option<&[u8]>,
    inside: &[u8],
    within: Option<&[u8]>,
    rest: &[u8],
    behind: Option<&[u8]>,
)
    requires
        call_ensures(find_decoder_specific_info, (data,), r),
        call_ensures(find_decoder_specific_info, (inside,), within),
        call_ensures(find_decoder_specific_info, (rest,), behind),
        data@.len() >= 3,
        data@[1] < 128,
        data@[1] + 2 <= data@.len(),
        rest@ == data@.skip(data@[1] + 2),
        within is None,
    ensures
        data@[0] == 4 && data@[1] >= 13 && inside@ == data@.subrange(15, data@[1] + 2) ==> (
        r is Some <==> behind is Some) && (r matches Some(a) ==> a@ == behind->0@),
        data@[0] == 3 && data@[1] >= 3 && data@[4] < 32 && inside@ == data@.subrange(
            5,
            data@[1] + 2,
        ) ==> (r is Some <==> behind is Some) && (r matches Some(a) ==> a@ == behind->0@),
        data@[0] == 3 && data@[1] < 3 ==> r is None,
        data@[0] == 4 && data@[1] < 13 ==> r is None,
{
    let d = data@;
    let tail = d.skip(1);
    assert(tail[0] == d[1]);
    assert(continued(tail) == 0);
    assert(tail.take(1).drop_last() =~= Seq::<u8>::empty());
    reveal_with_fuel(base_128, 3);
    assert(descriptor_length(tail) == Some((d[1] as nat, 1nat)));
    let body = d.subrange(2, d[1] + 2);
    let end = (d[1] + 2) as nat;
    lemma_info_shift(d, end, 0);
    if d[0] == 4 && d[1] >= 13 && inside@ == d.subrange(15, d[1] + 2) {
        assert(body.skip(13) =~= inside@);
        assert(decoder_info(d, 0) == decoder_info(d, end));
    }
    if d[0] == 3 && d[1] >= 3 && d[4] < 32 && inside@ == d.subrange(5, d[1] + 2) {
        let f = d[4];
        assert(body[2] == f);
        assert(f < 32 ==> f & 0x80 == 0 && f & 0x40 == 0 && f & 0x20 == 0) by (bit_vector);
        assert(body.skip(3) =~= inside@);
        assert(es_payload(body) == Some(inside@));
        assert(decoder_info(d, 0) == decoder_info(d, end));
    }
}

} // verus!
