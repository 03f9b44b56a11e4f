//! Identifiers, time and digests, from the crates that provide them.

use sha2::Digest;
use vstd::prelude::*;

verus! {

/// A moment in time: seconds since the Unix epoch and nanoseconds past them.
#[derive(Debug, Clone, Copy, PartialEq, Eq, Structural)]
pub struct Timestamp {
    pub secs: i64,
    pub nanos: u32,
}

/// A number of seconds, as the bit pattern of a double.
#[derive(Debug, Clone, Copy, PartialEq, Eq, Structural)]
pub struct Secs {
    pub bits: u64,
}

/// Whether a 128-bit identifier has the version and variant bits of a random
/// (version 4) UUID.
pub open spec fn is_random_uuid(id: u128) -> bool {
    &&& (id >> 76) & 0xF == 4
    &&& (id >> 62) & 0x3 == 2
}

/// `uuid::Uuid::new_v4` gives a fresh random identifier. Of its bits only the
/// version and the variant are fixed; that two calls differ is overwhelmingly
/// likely, but not certain. It panics on a system without a source of
/// randomness.
#[verifier::external_body]
pub(crate) fn new_id() -> (r: u128)
    ensures
        is_random_uuid(r),
{
    uuid::Uuid::new_v4().as_u128()
}

/// `chrono::Utc::now` reads the system clock. The part below a second is less
/// than two seconds' worth of nanoseconds (a leap second counts past the first);
/// nothing else is fixed. It panics where the clock stands before the epoch.
#[verifier::external_body]
pub(crate) fn now() -> (r: Timestamp)
    ensures
        r.nanos < 2_000_000_000,
{
    let t = chrono::Utc::now();
    Timestamp { secs: t.timestamp(), nanos: t.timestamp_subsec_nanos() }
}

/// The SHA-256 digest of a byte string.
pub uninterp spec fn sha256(data: Seq<u8>) -> Seq<u8>;

/// `sha2::Sha256::digest` hashes its input in one call. The digest is a
/// function of the bytes alone and has 32 of them.
#[verifier::external_body]
pub(crate) fn sha256_of(data: &[u8]) -> (r: Vec<u8>)
    ensures
        r@ == sha256(data@),
        r@.len() == 32,
{
    sha2::Sha256::digest(data).to_vec()
}

/// The lower-case hexadecimal digit of a number below sixteen.
pub open spec fn hex_digit(n: nat) -> char {
    if n < 10 {
        (48 + n) as u8 as char
    } else {
        (87 + n) as u8 as char
    }
}

/// The hexadecimal text of a byte string: two digits for each byte, the high
/// one first.
pub open spec fn hex_text(data: Seq<u8>) -> Seq<char> {
    Seq::new(
        2 * data.len(),
        |i: int|
            if i % 2 == 0 {
                hex_digit((data[i / 2] / 16) as nat)
            } else {
                hex_digit((data[i / 2] % 16) as nat)
            },
    )
}

/// No two byte strings have the same hexadecimal text.
pub proof fn lemma_hex_text_injective(a: Seq<u8>, b: Seq<u8>)
    requires
        hex_text(a) == hex_text(b),
    ensures
        a == b,
{
    assert(hex_text(a).len() == 2 * a.len());
    assert(hex_text(b).len() == 2 * b.len());
    assert forall|i: int| 0 <= i < a.len() implies a[i] == b[i] by {
        let high = 2 * i;
        let low = 2 * i + 1;
        assert(high % 2 == 0 && high / 2 == i);
        assert(low % 2 == 1 && low / 2 == i);
        assert(hex_text(a)[high] == hex_digit((a[i] / 16) as nat));
        assert(hex_text(b)[high] == hex_digit((b[i] / 16) as nat));
        assert(hex_text(a)[low] == hex_digit((a[i] % 16) as nat));
        assert(hex_text(b)[low] == hex_digit((b[i] % 16) as nat));
        lemma_hex_digit_injective((a[i] / 16) as nat, (b[i] / 16) as nat);
        lemma_hex_digit_injective((a[i] % 16) as nat, (b[i] % 16) as nat);
    }
    assert(a =~= b);
}

proof fn lemma_hex_digit_injective(m: nat, n: nat)
    requires
        m < 16,
        n < 16,
        hex_digit(m) == hex_digit(n),
    ensures
        m == n,
{
}

/// `hex::encode` writes bytes as lower-case hexadecimal digits.
#[verifier::external_body]
pub(crate) fn hex_of(data: &[u8]) -> (r: String)
    ensures
        r@ == hex_text(data@),
{
    hex::encode(data)
}

/// The hexadecimal SHA-256 digest of a byte string.
pub open spec fn sha256_hex(data: Seq<u8>) -> Seq<char> {
    hex_text(sha256(data))
}

/// Hashes a byte string; the result is its digest in 64 hexadecimal digits.
pub fn hash_bytes(data: &[u8]) -> (r: String)
    ensures
        r@ == sha256_hex(data@),
        r@.len() == 64,
{
    let d = sha256_of(data);
    hex_of(d.as_slice())
}

/// The digest of a byte string reads as two hexadecimal digits for each byte of
/// it, the high digit first, in lower case.
pub proof fn law_digests_read_high_digit_first(data: &[u8], r: String, i: int)
    requires
        call_ensures(hash_bytes, (data,), r),
        sha256(data@).len() == 32,
        0 <= i < 32,
    ensures
        r@.len() == 64,
        ({
            let high = r@[2 * i] as int;
            let low = r@[2 * i + 1] as int;
            let h = if high < 58 {
                high - 48
            } else {
                high - 87
            };
            let l = if low < 58 {
                low - 48
            } else {
                low - 87
            };
            &&& 0 <= h < 16 && 0 <= l < 16
            &&& sha256(data@)[i] == 16 * h + l
        }),
{
    let d = sha256(data@);
    assert((2 * i) % 2 == 0 && (2 * i) / 2 == i && (2 * i + 1) % 2 == 1 && (2 * i + 1) / 2 == i);
    assert(r@[2 * i] == hex_digit((d[i] / 16) as nat));
    assert(r@[2 * i + 1] == hex_digit((d[i] % 16) as nat));
}

} // verus!
