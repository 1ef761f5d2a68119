//! Byte checksums and magic numbers shared by the ACPI and SMBIOS parsers.

use vstd::prelude::*;

verus! {

/// An error resulting from parsing ACPI or SMBIOS tables.
#[derive(Copy, Clone, Debug, PartialEq, Eq, Structural)]
pub enum ParseError {
    FailedChecksum,
    InvalidPointer,
    InvalidSignature,
    InvalidSize,
    NoTable,
    TooLarge,
}

/// Sum of every byte of `data`, as an unbounded integer.
pub open spec fn byte_sum(data: Seq<u8>) -> int
    decreases data.len(),
{
    if data.len() == 0 {
        0
    } else {
        byte_sum(data.drop_last()) + data.last()
    }
}

/// A byte region passes its checksum when the sum of its bytes is 0 mod 256.
pub open spec fn checksum_valid(data: Seq<u8>) -> bool {
    byte_sum(data) % 256 == 0
}

/// Gets the sum of every byte in `data` and returns the least significant byte.
pub fn checksum(data: &[u8]) -> (sum: u8)
    ensures
        sum == byte_sum(data@) % 256,
        sum == 0 <==> checksum_valid(data@),
{
    let mut sum: u8 = 0;
    let mut i: usize = 0;
    while i < data.len()
        invariant
            i <= data.len(),
            sum == byte_sum(data@.take(i as int)) % 256,
        decreases data.len() - i,
    {
        proof {
            lemma_byte_sum_mod_step(data@, i as int);
        }
        sum = sum.wrapping_add(data[i]);
        i = i + 1;
    }
    proof {
        assert(data@.take(data@.len() as int) =~= data@);
    }
    sum
}

proof fn lemma_byte_sum_mod_step(data: Seq<u8>, i: int)
    requires
        0 <= i < data.len(),
    ensures
        byte_sum(data.take(i + 1)) % 256 == (byte_sum(data.take(i)) % 256 + data[i]) % 256,
{
    assert(data.take(i + 1).drop_last() =~= data.take(i));
    assert(byte_sum(data.take(i + 1)) == byte_sum(data.take(i)) + data[i]);
    let s = byte_sum(data.take(i));
    let b = data[i] as int;
    assert((s + b) % 256 == (s % 256 + b) % 256) by {
        vstd::arithmetic::div_mod::lemma_add_mod_noop(s, b, 256);
        vstd::arithmetic::div_mod::lemma_mod_twice(b, 256);
        vstd::arithmetic::div_mod::lemma_add_mod_noop(s % 256, b, 256);
    }
}

/// Replacing one byte of a region changes the byte sum by the difference of
/// the two bytes; every other byte contributes the same amount.
proof fn lemma_byte_sum_update(data: Seq<u8>, i: int, b: u8)
    requires
        0 <= i < data.len(),
    ensures
        byte_sum(data.update(i, b)) == byte_sum(data) - data[i] + b,
    decreases data.len(),
{
    if i == data.len() - 1 {
        assert(data.update(i, b).drop_last() =~= data.drop_last());
    } else {
        assert(data.update(i, b).drop_last() =~= data.drop_last().update(i, b));
        lemma_byte_sum_update(data.drop_last(), i, b);
    }
}

/// A region whose byte sum is 0 mod 256 passes the checksum, and flipping any
/// single byte to a different value makes the checksum fail.
pub proof fn lemma_checksum_byte_flip(data: Seq<u8>, i: int, b: u8)
    requires
        0 <= i < data.len(),
        b != data[i],
        checksum_valid(data),
    ensures
        !checksum_valid(data.update(i, b)),
{
    lemma_byte_sum_update(data, i, b);
    let s = byte_sum(data);
    let d = b - data[i];
    assert(-256 < d < 256 && d != 0);
    assert((s + d) % 256 == (s % 256 + d) % 256) by {
        vstd::arithmetic::div_mod::lemma_add_mod_noop(s, d, 256);
        vstd::arithmetic::div_mod::lemma_mod_twice(d, 256);
        vstd::arithmetic::div_mod::lemma_add_mod_noop(s % 256, d, 256);
    }
    assert(d % 256 != 0) by {
        if d > 0 {
            vstd::arithmetic::div_mod::lemma_small_mod(d as nat, 256);
        } else {
            vstd::arithmetic::div_mod::lemma_small_mod((d + 256) as nat, 256);
            vstd::arithmetic::div_mod::lemma_mod_add_multiples_vanish(d, 256);
        }
    }
}

/// The little-endian value of the two bytes of `b` starting at `i`.
pub open spec fn le16(b: Seq<u8>, i: int) -> int {
    b[i] + 0x100 * b[i + 1]
}

/// The little-endian value of the four bytes of `b` starting at `i`.
pub open spec fn le32(b: Seq<u8>, i: int) -> int {
    b[i] + 0x100 * b[i + 1] + 0x1_0000 * b[i + 2] + 0x100_0000 * b[i + 3]
}

/// The little-endian value of the eight bytes of `b` starting at `i`.
pub open spec fn le64(b: Seq<u8>, i: int) -> int {
    b[i] + 0x100 * b[i + 1] + 0x1_0000 * b[i + 2] + 0x100_0000 * b[i + 3] + 0x1_0000_0000 * b[i
        + 4] + 0x100_0000_0000 * b[i + 5] + 0x1_0000_0000_0000 * b[i + 6] + 0x100_0000_0000_0000
        * b[i + 7]
}

/// Reads a little-endian `u16` at byte offset `off`.
pub fn read_u16(b: &[u8], off: usize) -> (r: u16)
    requires
        off + 2 <= b@.len(),
    ensures
        r == le16(b@, off as int),
{
    b[off] as u16 + b[off + 1] as u16 * 0x100
}

/// Reads a little-endian `u32` at byte offset `off`.
pub fn read_u32(b: &[u8], off: usize) -> (r: u32)
    requires
        off + 4 <= b@.len(),
    ensures
        r == le32(b@, off as int),
{
    b[off] as u32 + b[off + 1] as u32 * 0x100 + b[off + 2] as u32 * 0x1_0000 + b[off + 3] as u32
        * 0x100_0000
}

/// Reads a little-endian `u64` at byte offset `off`.
pub fn read_u64(b: &[u8], off: usize) -> (r: u64)
    requires
        off + 8 <= b@.len(),
    ensures
        r == le64(b@, off as int),
{
    b[off] as u64 + b[off + 1] as u64 * 0x100 + b[off + 2] as u64 * 0x1_0000 + b[off + 3] as u64
        * 0x100_0000 + b[off + 4] as u64 * 0x1_0000_0000 + b[off + 5] as u64 * 0x100_0000_0000
        + b[off + 6] as u64 * 0x1_0000_0000_0000 + b[off + 7] as u64 * 0x100_0000_0000_0000
}

/// Compares two byte regions for equality.
pub fn bytes_eq(a: &[u8], b: &[u8]) -> (r: bool)
    ensures
        r <==> a@ == b@,
{
    if a.len() != b.len() {
        proof {
            assert(a@.len() != b@.len());
        }
        return false;
    }
    let mut i: usize = 0;
    while i < a.len()
        invariant
            i <= a.len(),
            a@.len() == b@.len(),
            forall|k: int| 0 <= k < i ==> a@[k] == b@[k],
        decreases a.len() - i,
    {
        if a[i] != b[i] {
            return false;
        }
        i = i + 1;
    }
    proof {
        assert(a@ =~= b@);
    }
    true
}

/// Relies on `core::str::from_utf8`: it returns `Ok` exactly when the
/// bytes are valid UTF-8.
#[verifier::external_body]
pub(crate) fn is_valid_utf8(bytes: &[u8]) -> (r: bool)
    ensures
        r == vstd::utf8::valid_utf8(bytes@),
{
    core::str::from_utf8(bytes).is_ok()
}

/// Relies on `String::from_utf8`: ASCII bytes are valid UTF-8 and decode
/// to the characters with the same code points.
#[verifier::external_body]
pub(crate) fn string_from_ascii_bytes(v: Vec<u8>) -> (r: String)
    requires
        forall|k: int| 0 <= k < v@.len() ==> v@[k] < 128,
    ensures
        r@ == v@.map_values(|b: u8| b as char),
{
    String::from_utf8(v).unwrap()
}

/// The bytes of an ASCII character sequence.
pub open spec fn char_bytes(s: Seq<char>) -> Seq<u8> {
    s.map_values(|c: char| c as u8)
}

/// The characters of an ASCII byte sequence.
pub open spec fn byte_chars(b: Seq<u8>) -> Seq<char> {
    b.map_values(|x: u8| x as char)
}

/// Compares the bytes of `b` starting at `off` against the signature `sig`.
pub fn match_sig(b: &[u8], off: usize, sig: &[u8]) -> (r: bool)
    requires
        off + sig@.len() <= b@.len(),
    ensures
        r <==> b@.subrange(off as int, off + sig@.len()) == sig@,
{
    let b_len = b.len();
    let mut i: usize = 0;
    while i < sig.len()
        invariant
            i <= sig@.len(),
            off + sig@.len() <= b@.len(),
            b@.len() == b_len,
            forall|k: int| 0 <= k < i ==> b@[off + k] == sig@[k],
        decreases sig@.len() - i,
    {
        if b[off + i] != sig[i] {
            proof {
                let sub = b@.subrange(off as int, off + sig@.len());
                assert(sub[i as int] == b@[off + i]);
            }
            return false;
        }
        i = i + 1;
    }
    proof {
        assert(b@.subrange(off as int, off + sig@.len()) =~= sig@);
    }
    true
}

/// A type that implements a checksum.
///
/// An implementor names the bytes it encodes to; its checksum is the sum
/// of those bytes, of which only the least significant byte matters.
pub trait Checksum {
    /// The bytes this structure encodes to.
    spec fn encoded(&self) -> Seq<u8>;

    /// Gets the sum of every byte that composes this struct and returns
    /// the least significant byte.
    fn checksum(&self) -> (r: u8)
        ensures
            r == byte_sum(self.encoded()) % 256,
    ;

    /// Returns true if the checksum equals 0.
    fn checksum_valid(&self) -> (r: bool)
        ensures
            r == crate::utils::checksum_valid(self.encoded()),
    ;
}

/// The little-endian bytes of a 16-bit value.
pub open spec fn le16_bytes(v: u16) -> Seq<u8> {
    seq![(v as int % 0x100) as u8, (v as int / 0x100 % 0x100) as u8]
}

/// Appends the little-endian bytes of a 16-bit value.
pub fn push_le16(out: &mut Vec<u8>, v: u16)
    ensures
        final(out)@ == old(out)@ + le16_bytes(v),
{
    let ghost before = out@;
    out.push((v % 0x100) as u8);
    out.push((v / 0x100 % 0x100) as u8);
    proof {
        assert(out@ =~= before + le16_bytes(v));
    }
}

/// The little-endian bytes of a 32-bit value.
pub open spec fn le32_bytes(v: u32) -> Seq<u8> {
    seq![
        (v as int % 0x100) as u8,
        (v as int / 0x100 % 0x100) as u8,
        (v as int / 0x1_0000 % 0x100) as u8,
        (v as int / 0x100_0000 % 0x100) as u8,
    ]
}

/// The little-endian bytes of a 64-bit value.
pub open spec fn le64_bytes(v: u64) -> Seq<u8> {
    seq![
        (v as int % 0x100) as u8,
        (v as int / 0x100 % 0x100) as u8,
        (v as int / 0x1_0000 % 0x100) as u8,
        (v as int / 0x100_0000 % 0x100) as u8,
        (v as int / 0x1_0000_0000 % 0x100) as u8,
        (v as int / 0x100_0000_0000 % 0x100) as u8,
        (v as int / 0x1_0000_0000_0000 % 0x100) as u8,
        (v as int / 0x100_0000_0000_0000 % 0x100) as u8,
    ]
}

/// Appends the little-endian bytes of a 32-bit value.
pub fn push_le32(out: &mut Vec<u8>, v: u32)
    ensures
        final(out)@ == old(out)@ + le32_bytes(v),
{
    let ghost before = out@;
    out.push((v % 0x100) as u8);
    out.push((v / 0x100 % 0x100) as u8);
    out.push((v / 0x1_0000 % 0x100) as u8);
    out.push((v / 0x100_0000 % 0x100) as u8);
    proof {
        assert(out@ =~= before + le32_bytes(v));
    }
}

/// Appends the little-endian bytes of a 64-bit value.
pub fn push_le64(out: &mut Vec<u8>, v: u64)
    ensures
        final(out)@ == old(out)@ + le64_bytes(v),
{
    let ghost before = out@;
    out.push((v % 0x100) as u8);
    out.push((v / 0x100 % 0x100) as u8);
    out.push((v / 0x1_0000 % 0x100) as u8);
    out.push((v / 0x100_0000 % 0x100) as u8);
    out.push((v / 0x1_0000_0000 % 0x100) as u8);
    out.push((v / 0x100_0000_0000 % 0x100) as u8);
    out.push((v / 0x1_0000_0000_0000 % 0x100) as u8);
    out.push((v / 0x100_0000_0000_0000 % 0x100) as u8);
    proof {
        assert(out@ =~= before + le64_bytes(v));
    }
}

/// Re-encoding a decoded 16-bit field restores the two bytes it came from.
pub(crate) proof fn lemma_le16_roundtrip(b: Seq<u8>, i: int)
    requires
        0 <= i,
        i + 2 <= b.len(),
    ensures
        le16_bytes(le16(b, i) as u16) == b.subrange(i, i + 2),
{
    let v = le16(b, i);
    vstd::arithmetic::div_mod::lemma_fundamental_div_mod_converse_mod(
        v,
        0x100,
        b[i + 1] as int,
        b[i] as int,
    );
    vstd::arithmetic::div_mod::lemma_fundamental_div_mod_converse_div(
        v,
        0x100,
        b[i + 1] as int,
        b[i] as int,
    );
    vstd::arithmetic::div_mod::lemma_small_mod(b[i + 1] as nat, 0x100);
    assert(le16_bytes(v as u16) =~= b.subrange(i, i + 2));
}

/// Re-encoding a decoded 32-bit field restores the four bytes it came
/// from.
pub(crate) proof fn lemma_le32_roundtrip(b: Seq<u8>, i: int)
    requires
        0 <= i,
        i + 4 <= b.len(),
    ensures
        le32_bytes(le32(b, i) as u32) == b.subrange(i, i + 4),
{
    let v = le32(b, i);
    let q1 = b[i + 1] + 0x100 * b[i + 2] + 0x1_0000 * b[i + 3];
    let q2 = b[i + 2] + 0x100 * b[i + 3];
    let q3 = b[i + 3] as int;
    vstd::arithmetic::div_mod::lemma_fundamental_div_mod_converse_mod(v, 0x100, q1, b[i] as int);
    vstd::arithmetic::div_mod::lemma_fundamental_div_mod_converse_div(v, 0x100, q1, b[i] as int);
    vstd::arithmetic::div_mod::lemma_fundamental_div_mod_converse_mod(
        q1,
        0x100,
        q2,
        b[i + 1] as int,
    );
    vstd::arithmetic::div_mod::lemma_fundamental_div_mod_converse_div(
        q1,
        0x100,
        q2,
        b[i + 1] as int,
    );
    vstd::arithmetic::div_mod::lemma_fundamental_div_mod_converse_mod(
        q2,
        0x100,
        q3,
        b[i + 2] as int,
    );
    vstd::arithmetic::div_mod::lemma_fundamental_div_mod_converse_div(
        q2,
        0x100,
        q3,
        b[i + 2] as int,
    );
    vstd::arithmetic::div_mod::lemma_div_denominator(v, 0x100, 0x100);
    vstd::arithmetic::div_mod::lemma_div_denominator(v, 0x1_0000, 0x100);
    vstd::arithmetic::div_mod::lemma_small_mod(b[i + 3] as nat, 0x100);
    assert(le32_bytes(v as u32) =~= b.subrange(i, i + 4));
}

/// Re-encoding a decoded 64-bit field restores the eight bytes it came
/// from.
pub(crate) proof fn lemma_le64_roundtrip(b: Seq<u8>, i: int)
    requires
        0 <= i,
        i + 8 <= b.len(),
    ensures
        le64_bytes(le64(b, i) as u64) == b.subrange(i, i + 8),
{
    let v = le64(b, i);
    let q1 = b[i + 1] + 0x100 * b[i + 2] + 0x1_0000 * b[i + 3] + 0x100_0000 * b[i + 4]
        + 0x1_0000_0000 * b[i + 5] + 0x100_0000_0000 * b[i + 6] + 0x1_0000_0000_0000 * b[i + 7];
    let q2 = b[i + 2] + 0x100 * b[i + 3] + 0x1_0000 * b[i + 4] + 0x100_0000 * b[i + 5]
        + 0x1_0000_0000 * b[i + 6] + 0x100_0000_0000 * b[i + 7];
    let q3 = b[i + 3] + 0x100 * b[i + 4] + 0x1_0000 * b[i + 5] + 0x100_0000 * b[i + 6]
        + 0x1_0000_0000 * b[i + 7];
    let q4 = b[i + 4] + 0x100 * b[i + 5] + 0x1_0000 * b[i + 6] + 0x100_0000 * b[i + 7];
    let q5 = b[i + 5] + 0x100 * b[i + 6] + 0x1_0000 * b[i + 7];
    let q6 = b[i + 6] + 0x100 * b[i + 7];
    let q7 = b[i + 7] as int;
    vstd::arithmetic::div_mod::lemma_fundamental_div_mod_converse_mod(v, 0x100, q1, b[i] as int);
    vstd::arithmetic::div_mod::lemma_fundamental_div_mod_converse_div(v, 0x100, q1, b[i] as int);
    vstd::arithmetic::div_mod::lemma_fundamental_div_mod_converse_mod(
        q1,
        0x100,
        q2,
        b[i + 1] as int,
    );
    vstd::arithmetic::div_mod::lemma_fundamental_div_mod_converse_div(
        q1,
        0x100,
        q2,
        b[i + 1] as int,
    );
    vstd::arithmetic::div_mod::lemma_fundamental_div_mod_converse_mod(
        q2,
        0x100,
        q3,
        b[i + 2] as int,
    );
    vstd::arithmetic::div_mod::lemma_fundamental_div_mod_converse_div(
        q2,
        0x100,
        q3,
        b[i + 2] as int,
    );
    vstd::arithmetic::div_mod::lemma_fundamental_div_mod_converse_mod(
        q3,
        0x100,
        q4,
        b[i + 3] as int,
    );
    vstd::arithmetic::div_mod::lemma_fundamental_div_mod_converse_div(
        q3,
        0x100,
        q4,
        b[i + 3] as int,
    );
    vstd::arithmetic::div_mod::lemma_fundamental_div_mod_converse_mod(
        q4,
        0x100,
        q5,
        b[i + 4] as int,
    );
    vstd::arithmetic::div_mod::lemma_fundamental_div_mod_converse_div(
        q4,
        0x100,
        q5,
        b[i + 4] as int,
    );
    vstd::arithmetic::div_mod::lemma_fundamental_div_mod_converse_mod(
        q5,
        0x100,
        q6,
        b[i + 5] as int,
    );
    vstd::arithmetic::div_mod::lemma_fundamental_div_mod_converse_div(
        q5,
        0x100,
        q6,
        b[i + 5] as int,
    );
    vstd::arithmetic::div_mod::lemma_fundamental_div_mod_converse_mod(
        q6,
        0x100,
        q7,
        b[i + 6] as int,
    );
    vstd::arithmetic::div_mod::lemma_fundamental_div_mod_converse_div(
        q6,
        0x100,
        q7,
        b[i + 6] as int,
    );
    vstd::arithmetic::div_mod::lemma_div_denominator(v, 0x100, 0x100);
    vstd::arithmetic::div_mod::lemma_div_denominator(v, 0x1_0000, 0x100);
    vstd::arithmetic::div_mod::lemma_div_denominator(v, 0x100_0000, 0x100);
    vstd::arithmetic::div_mod::lemma_div_denominator(v, 0x1_0000_0000, 0x100);
    vstd::arithmetic::div_mod::lemma_div_denominator(v, 0x100_0000_0000, 0x100);
    vstd::arithmetic::div_mod::lemma_div_denominator(v, 0x1_0000_0000_0000, 0x100);
    vstd::arithmetic::div_mod::lemma_small_mod(b[i + 7] as nat, 0x100);
    assert(le64_bytes(v as u64) =~= b.subrange(i, i + 8));
}

/// Trait for types with magic numbers.
///
/// Magic numbers are also called signatures or anchors.
pub trait Magic<const SIZE: usize> {
    /// The magic bytes this instance carries, as a mathematical sequence.
    spec fn spec_magic(&self) -> Seq<u8>;

    /// Returns this instance's magic numbers.
    fn magic(&self) -> (r: [u8; SIZE])
        ensures
            r@ == self.spec_magic(),
    ;
}

} // verus!
