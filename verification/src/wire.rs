//! The binary framing of a transfer: big-endian integers, the header that
//! opens a connection and the single response bytes that answer it.
//!
//! | step       | direction         | layout                                          |
//! |------------|-------------------|-------------------------------------------------|
//! | header     | sender → receiver | `u16` name length, the name in UTF-8, `u64` size |
//! | permission | receiver → sender | one byte, accept or reject                      |
//! | payload    | sender → receiver | exactly `size` bytes                            |
//! | completion | receiver → sender | one byte                                        |

use vstd::prelude::*;
use vstd::utf8::*;
use vstd::slice::{slice_subrange, slice_to_vec};
use crate::text::string_from_utf8;

verus! {

/// Response byte with which a receiver accepts an offered transfer.
pub const HEADER_ACCEPTED: u8 = 0x01;

/// Response byte with which a receiver declines an offered transfer.
pub const HEADER_REJECTED: u8 = 0x00;

/// Response byte with which a receiver acknowledges the whole payload.
pub const TRANSFER_COMPLETE: u8 = 0x02;

/// Largest number of bytes moved by one read or write of the payload.
pub const CHUNK_SIZE: u64 = 1_048_576;

/// Number of bytes of the name-length field.
pub const NAME_LENGTH_BYTES: usize = 2;

/// Number of bytes of the file-size field.
pub const FILE_SIZE_BYTES: usize = 8;

/// Largest length in bytes of a name that the length field can announce.
pub const MAX_NAME_BYTES: usize = 65535;

/// 256 to the power `n`: the number of values that `n` bytes can hold.
pub open spec fn pow256(n: nat) -> nat
    decreases n,
{
    if n == 0 {
        1
    } else {
        256 * pow256((n - 1) as nat)
    }
}

/// The `n` low-order bytes of `v`, most significant first.
pub open spec fn be_bytes(v: nat, n: nat) -> Seq<u8>
    decreases n,
{
    if n == 0 {
        Seq::empty()
    } else {
        be_bytes(v / 256, (n - 1) as nat).push((v % 256) as u8)
    }
}

/// The number that the bytes `b` spell, most significant first.
pub open spec fn be_value(b: Seq<u8>) -> nat
    decreases b.len(),
{
    if b.len() == 0 {
        0
    } else {
        be_value(b.drop_last()) * 256 + b.last() as nat
    }
}

/// The two bytes of `v`, most significant first.
pub open spec fn u16_be(v: u16) -> Seq<u8> {
    be_bytes(v as nat, 2)
}

/// The eight bytes of `v`, most significant first.
pub open spec fn u64_be(v: u64) -> Seq<u8> {
    be_bytes(v as nat, 8)
}

/// Two bytes hold 65536 values and eight bytes hold 2^64.
pub proof fn lemma_pow256_values()
    ensures
        pow256(0) == 1,
        pow256(1) == 0x100,
        pow256(2) == 0x1_0000,
        pow256(7) == 0x100_0000_0000_0000,
        pow256(8) == 0x1_0000_0000_0000_0000,
{
    reveal_with_fuel(pow256, 9);
}

/// An encoding in `n` bytes has `n` bytes.
pub proof fn lemma_be_bytes_len(v: nat, n: nat)
    ensures
        be_bytes(v, n).len() == n,
    decreases n,
{
    if n > 0 {
        lemma_be_bytes_len(v / 256, (n - 1) as nat);
    }
}

/// The bytes `b` spell a number below 256 to the power of their count.
pub proof fn lemma_be_value_bound(b: Seq<u8>)
    ensures
        be_value(b) < pow256(b.len()),
    decreases b.len(),
{
    if b.len() > 0 {
        lemma_be_value_bound(b.drop_last());
    }
}

/// Decoding undoes encoding: a number that fits in `n` bytes is the value
/// of its `n`-byte encoding.
pub proof fn lemma_be_value_of_bytes(v: nat, n: nat)
    requires
        v < pow256(n),
    ensures
        be_value(be_bytes(v, n)) == v,
    decreases n,
{
    if n > 0 {
        let rest = be_bytes(v / 256, (n - 1) as nat);
        lemma_be_value_of_bytes(v / 256, (n - 1) as nat);
        assert(be_bytes(v, n).drop_last() =~= rest);
    }
}

/// Encoding undoes decoding: bytes are the encoding of the number they
/// spell, in as many bytes as there are.
pub proof fn lemma_be_bytes_of_value(b: Seq<u8>)
    ensures
        be_bytes(be_value(b), b.len()) == b,
    decreases b.len(),
{
    if b.len() > 0 {
        lemma_be_bytes_of_value(b.drop_last());
        assert(be_bytes(be_value(b), b.len()) =~= b);
    } else {
        assert(be_bytes(be_value(b), b.len()) =~= b);
    }
}

/// Appends the `n` low-order bytes of `v` to `out`, most significant first.
fn put_be(out: &mut Vec<u8>, v: u64, n: usize)
    ensures
        final(out)@ == old(out)@ + be_bytes(v as nat, n as nat),
    decreases n,
{
    if n > 0 {
        put_be(out, v / 256, n - 1);
        out.push((v % 256) as u8);
        assert(out@ =~= old(out)@ + be_bytes(v as nat, n as nat));
    } else {
        assert(out@ =~= old(out)@ + be_bytes(v as nat, n as nat));
    }
}

/// Appends the big-endian bytes of `v` to `out`.
pub fn put_u16_be(out: &mut Vec<u8>, v: u16)
    ensures
        final(out)@ == old(out)@ + u16_be(v),
{
    put_be(out, v as u64, 2);
}

/// Appends the big-endian bytes of `v` to `out`.
pub fn put_u64_be(out: &mut Vec<u8>, v: u64)
    ensures
        final(out)@ == old(out)@ + u64_be(v),
{
    put_be(out, v, 8);
}

/// Reads the number that the `n` bytes at `at` spell, most significant first.
fn get_be(bytes: &[u8], at: usize, n: usize) -> (v: u64)
    requires
        n <= 8,
        at + n <= bytes@.len(),
    ensures
        v == be_value(bytes@.subrange(at as int, at + n)),
{
    let len: usize = bytes.len();
    let mut v: u64 = 0;
    let mut i: usize = 0;
    while i < n
        invariant
            i <= n <= 8,
            at + n <= bytes@.len() == len,
            v == be_value(bytes@.subrange(at as int, at + i)),
        decreases n - i,
    {
        let byte: u64 = bytes[at + i] as u64;
        proof {
            let done = bytes@.subrange(at as int, at + i);
            let next = bytes@.subrange(at as int, at + i + 1);
            assert(next.drop_last() =~= done);
            assert(next.last() == byte);
            lemma_be_value_bound(done);
            lemma_pow256_monotonic(i as nat, 7);
            lemma_pow256_values();
        }
        v = v * 256 + byte;
        i = i + 1;
    }
    v
}

/// More bytes hold at least as many values.
pub proof fn lemma_pow256_monotonic(m: nat, n: nat)
    requires
        m <= n,
    ensures
        pow256(m) <= pow256(n),
    decreases n,
{
    if m < n {
        lemma_pow256_monotonic(m, (n - 1) as nat);
    }
}

/// Reads a big-endian 16-bit number from the two bytes at `at`.
pub fn get_u16_be(bytes: &[u8], at: usize) -> (v: u16)
    requires
        at + 2 <= bytes@.len(),
    ensures
        v == be_value(bytes@.subrange(at as int, at + 2)),
{
    let v: u64 = get_be(bytes, at, 2);
    proof {
        lemma_be_value_bound(bytes@.subrange(at as int, at + 2));
        lemma_pow256_values();
    }
    v as u16
}

/// Reads a big-endian 64-bit number from the eight bytes at `at`.
pub fn get_u64_be(bytes: &[u8], at: usize) -> (v: u64)
    requires
        at + 8 <= bytes@.len(),
    ensures
        v == be_value(bytes@.subrange(at as int, at + 8)),
{
    get_be(bytes, at, 8)
}

/// What opens a transfer: the name of the file and its size in bytes.
#[derive(Debug, Clone)]
pub struct TransferHeader {
    pub filename: String,
    pub file_size: u64,
}

/// Why a header could not be written or read.
#[derive(Clone, Copy, Debug, PartialEq, Eq, Structural)]
pub enum HeaderError {
    /// The name takes more bytes than the length field can announce.
    NameTooLong,
    /// The bytes end before the header does.
    Truncated,
    /// The bytes of the name are not well-formed UTF-8.
    InvalidFilename,
}

/// The bytes of the header for a file called `filename` of `file_size` bytes.
pub open spec fn spec_encode_header(filename: Seq<char>, file_size: u64) -> Seq<u8> {
    let name = encode_utf8(filename);
    u16_be(name.len() as u16) + name + u64_be(file_size)
}

/// The number of bytes that the name takes, as the first two bytes announce it.
pub open spec fn announced_name_len(bytes: Seq<u8>) -> nat {
    be_value(bytes.subrange(0, 2))
}

/// The bytes in which the header that starts `bytes` holds the name.
pub open spec fn name_bytes(bytes: Seq<u8>) -> Seq<u8> {
    bytes.subrange(2, 2 + announced_name_len(bytes) as int)
}

/// The number of bytes of the header that starts `bytes`.
pub open spec fn header_len(bytes: Seq<u8>) -> nat {
    2 + announced_name_len(bytes) + 8
}

/// The name and size that the header at the start of `bytes` holds. The
/// fields are read in order, so that a name that is not UTF-8 is reported
/// even where the size after it is missing.
pub open spec fn spec_decode_header(bytes: Seq<u8>) -> Result<(Seq<char>, u64), HeaderError> {
    if bytes.len() < 2 {
        Err(HeaderError::Truncated)
    } else if bytes.len() < 2 + announced_name_len(bytes) {
        Err(HeaderError::Truncated)
    } else if !valid_utf8(name_bytes(bytes)) {
        Err(HeaderError::InvalidFilename)
    } else if bytes.len() < header_len(bytes) {
        Err(HeaderError::Truncated)
    } else {
        Ok(
            (
                decode_utf8(name_bytes(bytes)),
                be_value(bytes.subrange(header_len(bytes) - 8, header_len(bytes) as int)) as u64,
            ),
        )
    }
}

/// Writes the header for a file called `filename` of `file_size` bytes. A
/// name of more than 65535 bytes cannot be announced and is refused.
pub fn encode_header(filename: &str, file_size: u64) -> (r: Result<Vec<u8>, HeaderError>)
    ensures
        encode_utf8(filename@).len() <= MAX_NAME_BYTES ==> r is Ok && r->Ok_0@ == spec_encode_header(
            filename@,
            file_size,
        ),
        encode_utf8(filename@).len() > MAX_NAME_BYTES ==> r == Err::<Vec<u8>, HeaderError>(
            HeaderError::NameTooLong,
        ),
{
    let name: &[u8] = filename.as_bytes();
    if name.len() > MAX_NAME_BYTES {
        return Err(HeaderError::NameTooLong);
    }
    let mut out: Vec<u8> = Vec::new();
    put_u16_be(&mut out, name.len() as u16);
    let mut i: usize = 0;
    while i < name.len()
        invariant
            i <= name@.len(),
            out@ == u16_be(name@.len() as u16) + name@.take(i as int),
        decreases name@.len() - i,
    {
        out.push(name[i]);
        assert(name@.take(i + 1) =~= name@.take(i as int).push(name@[i as int]));
        assert(out@ =~= u16_be(name@.len() as u16) + name@.take(i + 1));
        i = i + 1;
    }
    assert(name@.take(i as int) =~= name@);
    put_u64_be(&mut out, file_size);
    Ok(out)
}

/// Reads the header at the start of `bytes`, and says how many bytes it took.
pub fn decode_header(bytes: &[u8]) -> (r: Result<(TransferHeader, usize), HeaderError>)
    ensures
        match r {
            Ok((header, used)) => spec_decode_header(bytes@) == Ok::<(Seq<char>, u64), HeaderError>(
                (header.filename@, header.file_size),
            ) && used == header_len(bytes@),
            Err(e) => spec_decode_header(bytes@) == Err::<(Seq<char>, u64), HeaderError>(e),
        },
{
    let len: usize = bytes.len();
    if len < 2 {
        return Err(HeaderError::Truncated);
    }
    let name_len: usize = get_u16_be(bytes, 0) as usize;
    if len - 2 < name_len {
        return Err(HeaderError::Truncated);
    }
    let name: Vec<u8> = slice_to_vec(slice_subrange(bytes, 2, 2 + name_len));
    let filename: String = match string_from_utf8(name) {
        Some(s) => s,
        None => {
            return Err(HeaderError::InvalidFilename);
        },
    };
    if len - 2 - name_len < 8 {
        return Err(HeaderError::Truncated);
    }
    let file_size: u64 = get_u64_be(bytes, 2 + name_len);
    Ok((TransferHeader { filename, file_size }, 2 + name_len + 8))
}

/// A header that was written is read back as it was: the same name and the
/// same size, whatever follows it, for every name of at most 65535 bytes and
/// every size.
pub proof fn lemma_header_round_trip(filename: Seq<char>, file_size: u64, rest: Seq<u8>)
    requires
        encode_utf8(filename).len() <= MAX_NAME_BYTES,
    ensures
        spec_decode_header(spec_encode_header(filename, file_size) + rest) == Ok::<
            (Seq<char>, u64),
            HeaderError,
        >((filename, file_size)),
        header_len(spec_encode_header(filename, file_size) + rest) == spec_encode_header(
            filename,
            file_size,
        ).len(),
{
    let name = encode_utf8(filename);
    let n = name.len();
    let head = spec_encode_header(filename, file_size);
    let bytes = head + rest;
    lemma_be_bytes_len(n, 2);
    lemma_be_bytes_len(file_size as nat, 8);
    lemma_pow256_values();
    lemma_be_value_of_bytes(n, 2);
    lemma_be_value_of_bytes(file_size as nat, 8);
    assert(bytes.subrange(0, 2) =~= u16_be(n as u16));
    assert(name_bytes(bytes) =~= name);
    assert(bytes.subrange(2 + n as int, 2 + n as int + 8) =~= u64_be(file_size));
    encode_utf8_valid_utf8(filename);
    encode_utf8_decode_utf8(filename);
}

} // verus!
