//! PCM WAV files, as `ffmpeg` writes them.

use crate::bytes::{le, le_at, u16le, u32le};
use vstd::prelude::*;
use vstd::slice::{slice_subrange, slice_to_vec};

verus! {

/// The format and the samples of a WAV file.
#[derive(Debug)]
pub struct Wav {
    pub sample_rate: u32,
    pub channels: u32,
    pub bits_per_sample: u32,
    pub data: Vec<u8>,
}

/// Why a file cannot be read.
#[derive(Debug, Clone, Copy, PartialEq, Eq, Structural)]
pub enum WavError {
    NotRiff,
    NoData,
    IncompleteFormat,
}

impl WavError {
    /// The message of the error.
    pub fn message(&self) -> (r: &'static str)
        ensures
            r@ == (match self {
                WavError::NotRiff => "not a RIFF/WAVE file"@,
                WavError::NoData => "WAV has no data chunk"@,
                WavError::IncompleteFormat => "WAV fmt chunk incomplete"@,
            }),
    {
        match self {
            WavError::NotRiff => "not a RIFF/WAVE file",
            WavError::NoData => "WAV has no data chunk",
            WavError::IncompleteFormat => "WAV fmt chunk incomplete",
        }
    }
}

/// `RIFF`, `WAVE`, `fmt ` and `data`, as the numbers that their letters make up.
pub const RIFF: u32 = 0x4646_4952;

pub const WAVE: u32 = 0x4556_4157;

pub const FMT: u32 = 0x2074_6D66;

pub const DATA: u32 = 0x6174_6164;

/// What the chunks of a file say.
pub ghost struct WavFacts {
    pub channels: nat,
    pub sample_rate: nat,
    pub bits_per_sample: nat,
    pub data: Option<Seq<u8>>,
}

/// What is known before any chunk is read.
pub open spec fn nothing_read() -> WavFacts {
    WavFacts { channels: 0, sample_rate: 0, bits_per_sample: 0, data: None }
}

/// Whether a chunk stands at `pos`, whole.
pub open spec fn has_chunk(bytes: Seq<u8>, pos: int) -> bool {
    pos + 8 <= bytes.len() && pos + 8 + le_at(bytes, pos + 4, 4) <= bytes.len()
}

/// Where the chunk behind the one at `pos` begins: chunks of odd size are padded.
pub open spec fn next_chunk(bytes: Seq<u8>, pos: int) -> int {
    let size = le_at(bytes, pos + 4, 4) as int;
    pos + 8 + size + size % 2
}

/// What is known once the chunk at `pos` is read.
pub open spec fn with_chunk(bytes: Seq<u8>, pos: int, known: WavFacts) -> WavFacts {
    let id = le_at(bytes, pos, 4);
    if id == FMT {
        WavFacts {
            channels: le_at(bytes, pos + 10, 2),
            sample_rate: le_at(bytes, pos + 12, 4),
            bits_per_sample: le_at(bytes, pos + 22, 2),
            ..known
        }
    } else if id == DATA {
        WavFacts {
            data: Some(bytes.subrange(pos + 8, pos + 8 + le_at(bytes, pos + 4, 4))),
            ..known
        }
    } else {
        known
    }
}

/// What the chunks from `pos` on say, the later ones over the earlier ones. A
/// chunk that is cut short ends the list.
pub open spec fn facts_from(bytes: Seq<u8>, pos: int, known: WavFacts) -> WavFacts
    decreases bytes.len() + 1 - pos,
{
    if 0 <= pos && has_chunk(bytes, pos) {
        facts_from(bytes, next_chunk(bytes, pos), with_chunk(bytes, pos, known))
    } else {
        known
    }
}

/// Whether each format chunk from `pos` on has the bytes that are read of it.
pub open spec fn formats_readable(bytes: Seq<u8>, pos: int) -> bool
    decreases bytes.len() + 1 - pos,
{
    if 0 <= pos && has_chunk(bytes, pos) {
        (le_at(bytes, pos, 4) == FMT ==> pos + 24 <= bytes.len()) && formats_readable(
            bytes,
            next_chunk(bytes, pos),
        )
    } else {
        true
    }
}

/// Whether a file begins like a WAV file.
pub open spec fn is_riff_wave(bytes: Seq<u8>) -> bool {
    bytes.len() >= 12 && le_at(bytes, 0, 4) == RIFF && le_at(bytes, 8, 4) == WAVE
}

/// What a WAV file holds, or why it cannot be read.
pub open spec fn wav_of(bytes: Seq<u8>) -> Result<(nat, nat, nat, Seq<u8>), WavError> {
    let known = facts_from(bytes, 12, nothing_read());
    if !is_riff_wave(bytes) {
        Err(WavError::NotRiff)
    } else if known.data is None {
        Err(WavError::NoData)
    } else if known.channels == 0 || known.sample_rate == 0 || known.bits_per_sample == 0 {
        Err(WavError::IncompleteFormat)
    } else {
        Ok((known.sample_rate, known.channels, known.bits_per_sample, known.data->0))
    }
}

fn riff_wave(bytes: &[u8]) -> (r: bool)
    ensures
        r == is_riff_wave(bytes@),
{
    bytes.len() >= 12 && u32le(bytes, 0) == RIFF && u32le(bytes, 8) == WAVE
}

/// The size of the chunk at `pos`, if it is there, whole.
fn chunk_size(bytes: &[u8], pos: usize) -> (r: Option<usize>)
    requires
        pos <= bytes.len(),
    ensures
        match r {
            Some(size) => has_chunk(bytes@, pos as int) && size == le_at(bytes@, pos + 4, 4) && size
                <= u32::MAX,
            None => !has_chunk(bytes@, pos as int),
        },
{
    let n: usize = bytes.len();
    if n - pos < 8 {
        return None;
    }
    let size: u32 = u32le(bytes, pos + 4);
    let left: usize = n - pos - 8;
    if size as u64 > left as u64 {
        return None;
    }
    Some(size as usize)
}

/// Whether each format chunk has the bytes that are read of it. A file without
/// them is cut short within the last chunk.
pub fn has_readable_formats(bytes: &[u8]) -> (r: bool)
    ensures
        r == (is_riff_wave(bytes@) ==> formats_readable(bytes@, 12)),
{
    if !riff_wave(bytes) {
        return true;
    }
    let n: usize = bytes.len();
    let mut pos: usize = 12;
    loop
        invariant
            n == bytes.len(),
            12 <= pos <= n,
            formats_readable(bytes@, 12) == formats_readable(bytes@, pos as int),
            is_riff_wave(bytes@),
        decreases n - pos,
    {
        let size: usize = match chunk_size(bytes, pos) {
            Some(s) => s,
            None => {
                return true;
            },
        };
        if u32le(bytes, pos) == FMT && n - pos < 24 {
            return false;
        }
        let end: usize = pos + 8 + size;
        if size % 2 == 1 && end == n {
            assert(formats_readable(bytes@, next_chunk(bytes@, pos as int)));
            return true;
        }
        pos = end + size % 2;
    }
}

/// Reads a PCM WAV file.
pub fn parse(bytes: &[u8]) -> (r: Result<Wav, WavError>)
    requires
        is_riff_wave(bytes@) ==> formats_readable(bytes@, 12),
    ensures
        match r {
            Ok(w) => wav_of(bytes@) == Ok::<(nat, nat, nat, Seq<u8>), WavError>(
                (w.sample_rate as nat, w.channels as nat, w.bits_per_sample as nat, w.data@),
            ),
            Err(e) => wav_of(bytes@) == Err::<(nat, nat, nat, Seq<u8>), WavError>(e),
        },
        r matches Ok(w) ==> w.data@.len() <= u32::MAX && 0 < w.channels <= u16::MAX && 0
            < w.bits_per_sample <= u16::MAX && 0 < w.sample_rate,
{
    if !riff_wave(bytes) {
        return Err(WavError::NotRiff);
    }
    let n: usize = bytes.len();
    let mut channels: u32 = 0;
    let mut sample_rate: u32 = 0;
    let mut bits_per_sample: u32 = 0;
    let mut data: Option<Vec<u8>> = None;
    let mut pos: usize = 12;
    let ghost mut known = nothing_read();
    loop
        invariant
            n == bytes.len(),
            12 <= pos <= n,
            formats_readable(bytes@, pos as int),
            facts_from(bytes@, 12, nothing_read()) == facts_from(bytes@, pos as int, known),
            known.channels == channels,
            known.sample_rate == sample_rate,
            known.bits_per_sample == bits_per_sample,
            channels <= u16::MAX,
            bits_per_sample <= u16::MAX,
            match data {
                Some(d) => known.data == Some(d@) && d@.len() <= u32::MAX,
                None => known.data is None,
            },
        ensures
            facts_from(bytes@, 12, nothing_read()) == known,
            known.channels == channels,
            known.sample_rate == sample_rate,
            known.bits_per_sample == bits_per_sample,
            channels <= u16::MAX,
            bits_per_sample <= u16::MAX,
            match data {
                Some(d) => known.data == Some(d@) && d@.len() <= u32::MAX,
                None => known.data is None,
            },
        decreases n - pos,
    {
        let size: usize = match chunk_size(bytes, pos) {
            Some(s) => s,
            None => {
                break;
            },
        };
        let body: usize = pos + 8;
        let id: u32 = u32le(bytes, pos);
        if id == FMT {
            channels = u16le(bytes, body + 2) as u32;
            sample_rate = u32le(bytes, body + 4);
            bits_per_sample = u16le(bytes, body + 14) as u32;
        } else if id == DATA {
            data = Some(slice_to_vec(slice_subrange(bytes, body, body + size)));
        }
        proof {
            known = with_chunk(bytes@, pos as int, known);
        }
        let end: usize = body + size;
        if size % 2 == 1 && end == n {
            assert(facts_from(bytes@, next_chunk(bytes@, pos as int), known) == known);
            break;
        }
        pos = end + size % 2;
    }
    let data = match data {
        Some(d) => d,
        None => {
            return Err(WavError::NoData);
        },
    };
    if channels == 0 || sample_rate == 0 || bits_per_sample == 0 {
        return Err(WavError::IncompleteFormat);
    }
    Ok(Wav { sample_rate, channels, bits_per_sample, data })
}

// ---- laws -----------------------------------------------------------------

/// A number in `k` bytes, the least significant first.
pub open spec fn le_bytes(n: nat, k: nat) -> Seq<u8>
    decreases k,
{
    if k == 0 {
        Seq::empty()
    } else {
        seq![(n % 256) as u8] + le_bytes(n / 256, (k - 1) as nat)
    }
}

/// 256 to the power of `k`.
pub open spec fn span(k: nat) -> nat
    decreases k,
{
    if k == 0 {
        1
    } else {
        256 * span((k - 1) as nat)
    }
}

proof fn lemma_le_bytes(n: nat, k: nat)
    requires
        n < span(k),
    ensures
        le_bytes(n, k).len() == k,
        le(le_bytes(n, k)) == n,
    decreases k,
{
    if k > 0 {
        let rest = le_bytes(n / 256, (k - 1) as nat);
        lemma_le_bytes(n / 256, (k - 1) as nat);
        assert(le_bytes(n, k).skip(1) =~= rest);
        assert(le_bytes(n, k)[0] == (n % 256) as u8);
    }
}

/// A WAV file as it is written: one format chunk, one data chunk.
pub open spec fn canonical(
    sample_rate: nat,
    channels: nat,
    bits: nat,
    data: Seq<u8>,
) -> Seq<u8> {
    le_bytes(RIFF as nat, 4) + le_bytes(36 + data.len(), 4) + le_bytes(WAVE as nat, 4) + le_bytes(
        FMT as nat,
        4,
    ) + le_bytes(16, 4) + le_bytes(1, 2) + le_bytes(channels, 2) + le_bytes(sample_rate, 4)
        + le_bytes(sample_rate * channels * (bits / 8), 4) + le_bytes(channels * (bits / 8), 2)
        + le_bytes(bits, 2) + le_bytes(DATA as nat, 4) + le_bytes(data.len(), 4) + data
}

proof fn lemma_le_at_of(s: Seq<u8>, at: int, n: nat, k: nat)
    requires
        n < span(k),
        0 <= at,
        at + k <= s.len(),
        s.subrange(at, at + k) =~= le_bytes(n, k),
    ensures
        le_at(s, at, k as int) == n,
{
    lemma_le_bytes(n, k);
}

/// What is written as a canonical WAV file is read back: the format and every
/// byte of the samples.
pub proof fn law_canonical_wav_is_read_back(
    sample_rate: nat,
    channels: nat,
    bits: nat,
    data: Seq<u8>,
)
    requires
        0 < sample_rate <= u32::MAX,
        0 < channels <= u16::MAX,
        0 < bits <= u16::MAX,
        sample_rate * channels * (bits / 8) <= u32::MAX,
        channels * (bits / 8) <= u16::MAX,
        36 + data.len() <= u32::MAX,
    ensures
        wav_of(canonical(sample_rate, channels, bits, data)) == Ok::<
            (nat, nat, nat, Seq<u8>),
            WavError,
        >((sample_rate, channels, bits, data)),
        formats_readable(canonical(sample_rate, channels, bits, data), 12),
{
    let c = canonical(sample_rate, channels, bits, data);
    reveal_with_fuel(span, 5);
    lemma_le_bytes(RIFF as nat, 4);
    lemma_le_bytes(36 + data.len(), 4);
    lemma_le_bytes(WAVE as nat, 4);
    lemma_le_bytes(FMT as nat, 4);
    lemma_le_bytes(16, 4);
    lemma_le_bytes(1, 2);
    lemma_le_bytes(channels, 2);
    lemma_le_bytes(sample_rate, 4);
    lemma_le_bytes(sample_rate * channels * (bits / 8), 4);
    lemma_le_bytes(channels * (bits / 8), 2);
    lemma_le_bytes(bits, 2);
    lemma_le_bytes(DATA as nat, 4);
    lemma_le_bytes(data.len(), 4);
    assert(c.len() == 44 + data.len());
    lemma_le_at_of(c, 0, RIFF as nat, 4);
    lemma_le_at_of(c, 8, WAVE as nat, 4);
    lemma_le_at_of(c, 12, FMT as nat, 4);
    lemma_le_at_of(c, 16, 16, 4);
    lemma_le_at_of(c, 22, channels, 2);
    lemma_le_at_of(c, 24, sample_rate, 4);
    lemma_le_at_of(c, 34, bits, 2);
    lemma_le_at_of(c, 36, DATA as nat, 4);
    lemma_le_at_of(c, 40, data.len(), 4);
    assert(c.subrange(44, c.len() as int) =~= data);
    let one = with_chunk(c, 12, nothing_read());
    let two = with_chunk(c, 36, one);
    assert(has_chunk(c, 12) && next_chunk(c, 12) == 36);
    assert(has_chunk(c, 36));
    assert(!has_chunk(c, next_chunk(c, 36)));
    assert(facts_from(c, next_chunk(c, 36), two) == two);
    assert(facts_from(c, 36, one) == two);
    assert(facts_from(c, 12, nothing_read()) == two);
    assert(formats_readable(c, next_chunk(c, 36)));
    assert(formats_readable(c, 36));
}

/// The chunk names spell themselves, the first letter in the lowest byte.
pub proof fn law_chunk_names_spell_themselves()
    ensures
        RIFF == 'R' as int + 'I' as int * 256 + 'F' as int * 65536 + 'F' as int * 16777216,
        WAVE == 'W' as int + 'A' as int * 256 + 'V' as int * 65536 + 'E' as int * 16777216,
        FMT == 'f' as int + 'm' as int * 256 + 't' as int * 65536 + ' ' as int * 16777216,
        DATA == 'd' as int + 'a' as int * 256 + 't' as int * 65536 + 'a' as int * 16777216,
{
}

/// A WAV file that was written is read as what was written.
pub proof fn law_written_wav_is_read(
    sample_rate: nat,
    channels: nat,
    bits: nat,
    data: Seq<u8>,
    bytes: &[u8],
    r: Result<Wav, WavError>,
)
    requires
        0 < sample_rate <= u32::MAX,
        0 < channels <= u16::MAX,
        0 < bits <= u16::MAX,
        sample_rate * channels * (bits / 8) <= u32::MAX,
        channels * (bits / 8) <= u16::MAX,
        36 + data.len() <= u32::MAX,
        bytes@ == canonical(sample_rate, channels, bits, data),
        call_ensures(parse, (bytes,), r),
    ensures
        r matches Ok(w) && w.sample_rate == sample_rate && w.channels == channels
            && w.bits_per_sample == bits && w.data@ == data,
{
    law_canonical_wav_is_read_back(sample_rate, channels, bits, data);
}

proof fn lemma_le_at_shift(a: Seq<u8>, b: Seq<u8>, s: Seq<u8>, p: int, n: int)
    requires
        0 <= p,
        0 <= n,
        p + n <= s.len(),
    ensures
        le_at(a + s, a.len() + p, n) == le_at(b + s, b.len() + p, n),
{
    assert((a + s).subrange(a.len() + p, a.len() + p + n) =~= (b + s).subrange(
        b.len() + p,
        b.len() + p + n,
    ));
}

proof fn lemma_facts_shift(a: Seq<u8>, b: Seq<u8>, s: Seq<u8>, p: int, known: WavFacts)
    requires
        0 <= p,
        formats_readable(a + s, a.len() + p),
    ensures
        facts_from(a + s, a.len() + p, known) == facts_from(b + s, b.len() + p, known),
        formats_readable(b + s, b.len() + p),
    decreases s.len() + 2 - p,
{
    let x = a + s;
    let y = b + s;
    let i = a.len() + p;
    let j = b.len() + p;
    if p + 8 <= s.len() {
        lemma_le_at_shift(a, b, s, p + 4, 4);
        lemma_le_at_shift(a, b, s, p, 4);
        let size = le_at(x, i + 4, 4) as int;
        if p + 8 + size <= s.len() {
            assert(has_chunk(x, i) && has_chunk(y, j));
            if le_at(x, i, 4) == FMT {
                lemma_le_at_shift(a, b, s, p + 10, 2);
                lemma_le_at_shift(a, b, s, p + 12, 4);
                lemma_le_at_shift(a, b, s, p + 22, 2);
            }
            assert(x.subrange(i + 8, i + 8 + size) =~= y.subrange(j + 8, j + 8 + size));
            assert(with_chunk(x, i, known) == with_chunk(y, j, known));
            lemma_facts_shift(a, b, s, p + 8 + size + size % 2, with_chunk(x, i, known));
        }
    }
}

/// A chunk of another kind changes nothing of what a file says, wherever its
/// size puts the next one: a chunk of odd size is followed by a byte that belongs
/// to none.
pub proof fn law_other_chunks_are_passed_over(
    rest: Seq<u8>,
    head: Seq<u8>,
    chunk: Seq<u8>,
    plain: &[u8],
    longer: &[u8],
    r: Result<Wav, WavError>,
    s: Result<Wav, WavError>,
)
    requires
        head.len() == 12,
        plain@ == head + rest,
        longer@ == head + chunk + rest,
        is_riff_wave(plain@),
        formats_readable(plain@, 12),
        chunk.len() >= 8,
        chunk.len() == 8 + le_at(chunk, 4, 4) + le_at(chunk, 4, 4) % 2,
        le_at(chunk, 0, 4) != FMT,
        le_at(chunk, 0, 4) != DATA,
        call_ensures(parse, (plain,), r),
        call_ensures(parse, (longer,), s),
    ensures
        match (r, s) {
            (Ok(a), Ok(b)) => a.sample_rate == b.sample_rate && a.channels == b.channels
                && a.bits_per_sample == b.bits_per_sample && a.data@ == b.data@,
            (Err(a), Err(b)) => a == b,
            _ => false,
        },
{
    let pre = head + chunk;
    let none = Seq::<u8>::empty();
    assert(longer@ =~= pre + rest);
    assert(longer@ =~= head + (chunk + rest));
    lemma_facts_shift(head, pre, rest, 0, nothing_read());
    assert(longer@.subrange(16, 20) =~= chunk.subrange(4, 8));
    assert(longer@.subrange(12, 16) =~= chunk.subrange(0, 4));
    assert(longer@.subrange(0, 4) =~= plain@.subrange(0, 4));
    assert(longer@.subrange(8, 12) =~= plain@.subrange(8, 12));
    assert(has_chunk(longer@, 12));
    assert(next_chunk(longer@, 12) == pre.len());
    assert(with_chunk(longer@, 12, nothing_read()) == nothing_read());
    assert(facts_from(longer@, 12, nothing_read()) == facts_from(
        longer@,
        pre.len() as int,
        nothing_read(),
    ));
    assert(formats_readable(longer@, 12));
}

/// A file is refused for what it is: no WAV file by its first bytes, or one
/// without samples, or one whose format says nothing.
pub proof fn law_unreadable_wav_is_told_apart(
    bytes: &[u8],
    r: Result<Wav, WavError>,
    e: WavError,
    message: &'static str,
)
    requires
        call_ensures(parse, (bytes,), r),
        call_ensures(WavError::message, (&e,), message),
    ensures
        bytes@.len() < 12 ==> r matches Err(WavError::NotRiff),
        r matches Ok(w) ==> w.sample_rate > 0 && w.channels > 0 && w.bits_per_sample > 0,
        e == WavError::NotRiff ==> message@ == "not a RIFF/WAVE file"@,
        e == WavError::NoData ==> message@ == "WAV has no data chunk"@,
        e == WavError::IncompleteFormat ==> message@ == "WAV fmt chunk incomplete"@,
{
}

proof fn lemma_data_stays(bytes: Seq<u8>, pos: int, known: WavFacts)
    requires
        known.data is Some,
    ensures
        facts_from(bytes, pos, known).data is Some,
    decreases bytes.len() + 1 - pos,
{
    if 0 <= pos && has_chunk(bytes, pos) {
        lemma_data_stays(bytes, next_chunk(bytes, pos), with_chunk(bytes, pos, known));
    }
}

proof fn lemma_data_over(bytes: Seq<u8>, pos: int, a: WavFacts, b: WavFacts)
    requires
        a.channels == b.channels,
        a.sample_rate == b.sample_rate,
        a.bits_per_sample == b.bits_per_sample,
        a.data is None,
    ensures
        ({
            let x = facts_from(bytes, pos, a);
            let y = facts_from(bytes, pos, b);
            &&& x.channels == y.channels
            &&& x.sample_rate == y.sample_rate
            &&& x.bits_per_sample == y.bits_per_sample
            &&& x.data is Some ==> y.data == x.data
            &&& x.data is None ==> y.data == b.data
        }),
    decreases bytes.len() + 1 - pos,
{
    if 0 <= pos && has_chunk(bytes, pos) {
        let c = with_chunk(bytes, pos, a);
        let d = with_chunk(bytes, pos, b);
        if c.data is None {
            lemma_data_over(bytes, next_chunk(bytes, pos), c, d);
        } else {
            assert(c == d);
            lemma_data_stays(bytes, next_chunk(bytes, pos), c);
        }
    }
}

/// Of two data chunks the later counts: one that stands before another changes
/// nothing of what is read.
pub proof fn law_the_later_data_counts(
    rest: Seq<u8>,
    head: Seq<u8>,
    chunk: Seq<u8>,
    plain: &[u8],
    longer: &[u8],
    w: Wav,
    s: Result<Wav, WavError>,
)
    requires
        head.len() == 12,
        plain@ == head + rest,
        longer@ == head + chunk + rest,
        is_riff_wave(plain@),
        formats_readable(plain@, 12),
        chunk.len() >= 8,
        chunk.len() == 8 + le_at(chunk, 4, 4) + le_at(chunk, 4, 4) % 2,
        le_at(chunk, 0, 4) == DATA,
        call_ensures(parse, (plain,), Ok::<Wav, WavError>(w)),
        call_ensures(parse, (longer,), s),
    ensures
        s matches Ok(v) && v.data@ == w.data@ && v.sample_rate == w.sample_rate && v.channels
            == w.channels && v.bits_per_sample == w.bits_per_sample,
{
    let pre = head + chunk;
    assert(longer@ =~= pre + rest);
    assert(longer@ =~= head + (chunk + rest));
    lemma_facts_shift(head, pre, rest, 0, nothing_read());
    assert(longer@.subrange(16, 20) =~= chunk.subrange(4, 8));
    assert(longer@.subrange(12, 16) =~= chunk.subrange(0, 4));
    assert(longer@.subrange(0, 4) =~= plain@.subrange(0, 4));
    assert(longer@.subrange(8, 12) =~= plain@.subrange(8, 12));
    assert(has_chunk(longer@, 12));
    assert(next_chunk(longer@, 12) == pre.len());
    let known = with_chunk(longer@, 12, nothing_read());
    assert(facts_from(longer@, 12, nothing_read()) == facts_from(
        longer@,
        pre.len() as int,
        known,
    ));
    lemma_data_over(longer@, pre.len() as int, nothing_read(), known);
    assert(formats_readable(longer@, 12));
}

} // verus!
