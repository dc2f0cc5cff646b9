//! The outside byte buffer `bytes::Bytes`, and the standard text and clock
//! functions that the wire formats use.

use vstd::prelude::*;
use vstd::utf8::*;
use bytes::Bytes;

verus! {

/// `bytes::Bytes`, carried through the library as an opaque value.
#[verifier::external_type_specification]
#[verifier::external_body]
pub struct ExBytes(Bytes);

/// The bytes that a `Bytes` buffer holds, in order.
pub uninterp spec fn bytes_view(b: Bytes) -> Seq<u8>;

/// `Bytes::from(Vec<u8>)`: the buffer holds exactly the bytes of the vector.
#[verifier::external_body]
pub fn bytes_from_vec(v: Vec<u8>) -> (r: Bytes)
    ensures
        bytes_view(r) == v@,
{
    Bytes::from(v)
}

/// `<Bytes as AsRef<[u8]>>::as_ref`: a slice of exactly the buffer's bytes.
#[verifier::external_body]
pub fn bytes_as_slice(b: &Bytes) -> (r: &[u8])
    ensures
        r@ == bytes_view(*b),
{
    b.as_ref()
}

/// `Bytes::slice(start..end)`: a buffer of the bytes from `start` up to `end`.
/// It panics unless `start <= end <= len`, which `requires` rules out.
#[verifier::external_body]
pub fn bytes_slice(b: &Bytes, start: usize, end: usize) -> (r: Bytes)
    requires
        start <= end <= bytes_view(*b).len(),
    ensures
        bytes_view(r) == bytes_view(*b).subrange(start as int, end as int),
{
    b.slice(start..end)
}

/// `String::from_utf8`: succeeds exactly on valid UTF-8, and then holds the
/// decoded characters. The error value is dropped.
#[verifier::external_body]
pub fn string_from_utf8(v: Vec<u8>) -> (r: Option<String>)
    ensures
        r is Some <==> valid_utf8(v@),
        r matches Some(s) ==> s@ == decode_utf8(v@),
{
    String::from_utf8(v).ok()
}

/// What `String::from_utf8_lossy` gives for bytes that are not valid UTF-8.
pub uninterp spec fn utf8_lossy(b: Seq<u8>) -> Seq<char>;

/// Lenient decoding: valid UTF-8 decodes as such; other input goes by the
/// name `utf8_lossy`.
pub open spec fn lossy_decode(b: Seq<u8>) -> Seq<char> {
    if valid_utf8(b) {
        decode_utf8(b)
    } else {
        utf8_lossy(b)
    }
}

/// `String::from_utf8_lossy(..).to_string()`: on valid UTF-8 the decoded
/// characters; otherwise each invalid sequence becomes U+FFFD, which is not
/// spelled out here.
#[verifier::external_body]
pub fn string_from_utf8_lossy(b: &[u8]) -> (r: String)
    ensures
        valid_utf8(b@) ==> r@ == decode_utf8(b@),
        !valid_utf8(b@) ==> r@ == utf8_lossy(b@),
{
    String::from_utf8_lossy(b).to_string()
}

/// Seconds since the Unix epoch by the system clock
/// (`UNIX_EPOCH.elapsed()`, in whole seconds), or `None` when the clock reads
/// before the epoch; nothing is promised of the value.
#[verifier::external_body]
pub fn unix_time_secs() -> Option<u64> {
    std::time::UNIX_EPOCH.elapsed().ok().map(|d| d.as_secs())
}

} // verus!

verus! {

/// `std::io::Error`, carried through as an opaque value.
#[verifier::external_type_specification]
#[verifier::external_body]
pub struct ExIoError(std::io::Error);

} // verus!

verus! {

/// The character of decimal digit `d`.
pub open spec fn digit_char(d: nat) -> char {
    (48 + d) as char
}

/// The decimal digits of `n`, most significant first, without leading zeros.
pub open spec fn decimal(n: nat) -> Seq<char>
    decreases n,
{
    if n < 10 {
        seq![digit_char(n)]
    } else {
        decimal(n / 10).push(digit_char(n % 10))
    }
}

/// `<u32 as ToString>::to_string`: the number in decimal digits.
#[verifier::external_body]
pub fn u32_to_string(x: u32) -> (r: String)
    ensures
        r@ == decimal(x as nat),
{
    x.to_string()
}

} // verus!
