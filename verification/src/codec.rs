//! The wire codec: length-delimited framing of byte payloads, and the byte
//! layout of a transaction as it is submitted over RPC. Little-endian
//! integers throughout.

use vstd::prelude::*;
use crate::block::Transaction;

verus! {

/// The value of the four little-endian bytes of `s` starting at `off`.
pub open spec fn spec_le32(s: Seq<u8>, off: int) -> int {
    s[off] + 0x100 * s[off + 1] + 0x10000 * s[off + 2] + 0x1000000 * s[off + 3]
}

/// The value of the eight little-endian bytes of `s` starting at `off`.
pub open spec fn spec_le64(s: Seq<u8>, off: int) -> int {
    s[off] + 0x100 * s[off + 1] + 0x10000 * s[off + 2] + 0x1000000 * s[off + 3] + 0x100000000 * s[
        off + 4
    ] + 0x10000000000 * s[off + 5] + 0x1000000000000 * s[off + 6] + 0x100000000000000 * s[off + 7]
}

/// Reads a little-endian 32-bit integer.
pub fn read_u32_le(s: &Vec<u8>, off: usize) -> (r: u32)
    requires
        off + 4 <= s@.len(),
    ensures
        r == spec_le32(s@, off as int),
{
    let n = s.len();
    let b0 = s[off] as u32;
    let b1 = s[off + 1] as u32;
    let b2 = s[off + 2] as u32;
    let b3 = s[off + 3] as u32;
    b0 + 0x100 * b1 + 0x10000 * b2 + 0x1000000 * b3
}

/// Reads a little-endian 64-bit integer.
pub fn read_u64_le(s: &Vec<u8>, off: usize) -> (r: u64)
    requires
        off + 8 <= s@.len(),
    ensures
        r == spec_le64(s@, off as int),
{
    let n = s.len();
    let b0 = s[off] as u64;
    let b1 = s[off + 1] as u64;
    let b2 = s[off + 2] as u64;
    let b3 = s[off + 3] as u64;
    let b4 = s[off + 4] as u64;
    let b5 = s[off + 5] as u64;
    let b6 = s[off + 6] as u64;
    let b7 = s[off + 7] as u64;
    b0 + 0x100 * b1 + 0x10000 * b2 + 0x1000000 * b3 + 0x100000000 * b4 + 0x10000000000 * b5
        + 0x1000000000000 * b6 + 0x100000000000000 * b7
}

/// The little-endian digits of a 32-bit integer.
pub open spec fn spec_u32_digits(x: u32) -> Seq<u8> {
    seq![
        (x % 0x100) as u8,
        ((x / 0x100) % 0x100) as u8,
        ((x / 0x10000) % 0x100) as u8,
        ((x / 0x1000000) % 0x100) as u8,
    ]
}

/// The little-endian digits of a 64-bit integer.
pub open spec fn spec_u64_digits(x: u64) -> Seq<u8> {
    seq![
        (x % 0x100) as u8,
        ((x / 0x100) % 0x100) as u8,
        ((x / 0x10000) % 0x100) as u8,
        ((x / 0x1000000) % 0x100) as u8,
        ((x / 0x100000000) % 0x100) as u8,
        ((x / 0x10000000000) % 0x100) as u8,
        ((x / 0x1000000000000) % 0x100) as u8,
        ((x / 0x100000000000000) % 0x100) as u8,
    ]
}

/// Reading back the written digits gives the integer back.
pub proof fn lemma_le32_round_trip(x: u32, s: Seq<u8>, off: int)
    requires
        0 <= off,
        off + 4 <= s.len(),
        s.subrange(off, off + 4) == spec_u32_digits(x),
    ensures
        spec_le32(s, off) == x,
{
    assert(s[off] == (x % 0x100) as u8);
    assert(s[off + 1] == ((x / 0x100) % 0x100) as u8);
    assert(s[off + 2] == ((x / 0x10000) % 0x100) as u8);
    assert(s[off + 3] == ((x / 0x1000000) % 0x100) as u8);
    assert(x == (x % 0x100) + 0x100 * ((x / 0x100) % 0x100) + 0x10000 * ((x / 0x10000) % 0x100)
        + 0x1000000 * ((x / 0x1000000) % 0x100)) by (bit_vector);
}

/// Reading back the written digits gives the integer back.
pub proof fn lemma_le64_round_trip(x: u64, s: Seq<u8>, off: int)
    requires
        0 <= off,
        off + 8 <= s.len(),
        s.subrange(off, off + 8) == spec_u64_digits(x),
    ensures
        spec_le64(s, off) == x,
{
    assert(s[off] == (x % 0x100) as u8);
    assert(s[off + 1] == ((x / 0x100) % 0x100) as u8);
    assert(s[off + 2] == ((x / 0x10000) % 0x100) as u8);
    assert(s[off + 3] == ((x / 0x1000000) % 0x100) as u8);
    assert(s[off + 4] == ((x / 0x100000000) % 0x100) as u8);
    assert(s[off + 5] == ((x / 0x10000000000) % 0x100) as u8);
    assert(s[off + 6] == ((x / 0x1000000000000) % 0x100) as u8);
    assert(s[off + 7] == ((x / 0x100000000000000) % 0x100) as u8);
    assert(x == (x % 0x100) + 0x100 * ((x / 0x100) % 0x100) + 0x10000 * ((x / 0x10000) % 0x100)
        + 0x1000000 * ((x / 0x1000000) % 0x100) + 0x100000000 * ((x / 0x100000000) % 0x100)
        + 0x10000000000 * ((x / 0x10000000000) % 0x100) + 0x1000000000000 * ((x / 0x1000000000000)
        % 0x100) + 0x100000000000000 * ((x / 0x100000000000000) % 0x100)) by (bit_vector);
}

/// Appends a 32-bit integer, little-endian.
pub fn write_u32_le(out: &mut Vec<u8>, x: u32)
    ensures
        final(out)@ == old(out)@ + spec_u32_digits(x),
{
    out.push((x % 0x100) as u8);
    out.push(((x / 0x100) % 0x100) as u8);
    out.push(((x / 0x10000) % 0x100) as u8);
    out.push(((x / 0x1000000) % 0x100) as u8);
    proof {
        assert(out@ =~= old(out)@ + spec_u32_digits(x));
    }
}

/// Appends a 64-bit integer, little-endian.
pub fn write_u64_le(out: &mut Vec<u8>, x: u64)
    ensures
        final(out)@ == old(out)@ + spec_u64_digits(x),
{
    out.push((x % 0x100) as u8);
    out.push(((x / 0x100) % 0x100) as u8);
    out.push(((x / 0x10000) % 0x100) as u8);
    out.push(((x / 0x1000000) % 0x100) as u8);
    out.push(((x / 0x100000000) % 0x100) as u8);
    out.push(((x / 0x10000000000) % 0x100) as u8);
    out.push(((x / 0x1000000000000) % 0x100) as u8);
    out.push(((x / 0x100000000000000) % 0x100) as u8);
    proof {
        assert(out@ =~= old(out)@ + spec_u64_digits(x));
    }
}

/// A framing or layout fault in a byte stream.
#[derive(Clone, Copy, PartialEq, Eq, Structural, Debug)]
pub enum CodecError {
    /// The byte string has the wrong length for the expected value.
    InvalidLength(usize),
}

/// The byte layout of a transaction: its four identifying fields, each as
/// eight little-endian bytes.
pub open spec fn spec_transaction_bytes(t: Transaction) -> Seq<u8> {
    spec_u64_digits(t.transaction_id) + spec_u64_digits(t.transition_id) + spec_u64_digits(
        t.ciphertext_id,
    ) + spec_u64_digits(t.ciphertext)
}

/// The number of bytes of an encoded transaction.
pub const TRANSACTION_BYTES: usize = 32;

impl Transaction {
    /// Encodes the transaction.
    pub fn to_bytes(&self) -> (r: Vec<u8>)
        ensures
            r@ == spec_transaction_bytes(*self),
            r@.len() == TRANSACTION_BYTES,
    {
        let mut out: Vec<u8> = Vec::new();
        write_u64_le(&mut out, self.transaction_id);
        write_u64_le(&mut out, self.transition_id);
        write_u64_le(&mut out, self.ciphertext_id);
        write_u64_le(&mut out, self.ciphertext);
        proof {
            assert(out@ =~= spec_transaction_bytes(*self));
        }
        out
    }

    /// Decodes a transaction: accepted exactly when the input is one whole
    /// encoded transaction, whose fields are then read back.
    pub fn from_bytes(bytes: &Vec<u8>) -> (r: Result<Transaction, CodecError>)
        ensures
            match r {
                Ok(t) => {
                    &&& bytes@.len() == TRANSACTION_BYTES
                    &&& t.transaction_id == spec_le64(bytes@, 0)
                    &&& t.transition_id == spec_le64(bytes@, 8)
                    &&& t.ciphertext_id == spec_le64(bytes@, 16)
                    &&& t.ciphertext == spec_le64(bytes@, 24)
                },
                Err(e) => {
                    &&& bytes@.len() != TRANSACTION_BYTES
                    &&& e == CodecError::InvalidLength(bytes@.len() as usize)
                },
            },
    {
        if bytes.len() != TRANSACTION_BYTES {
            return Err(CodecError::InvalidLength(bytes.len()));
        }
        Ok(
            Transaction {
                transaction_id: read_u64_le(bytes, 0),
                transition_id: read_u64_le(bytes, 8),
                ciphertext_id: read_u64_le(bytes, 16),
                ciphertext: read_u64_le(bytes, 24),
            },
        )
    }
}

/// Decoding an encoded transaction gives the transaction back.
pub proof fn lemma_transaction_round_trip(t: Transaction, bytes: Seq<u8>)
    requires
        bytes == spec_transaction_bytes(t),
    ensures
        bytes.len() == TRANSACTION_BYTES,
        spec_le64(bytes, 0) == t.transaction_id,
        spec_le64(bytes, 8) == t.transition_id,
        spec_le64(bytes, 16) == t.ciphertext_id,
        spec_le64(bytes, 24) == t.ciphertext,
{
    assert(bytes.subrange(0, 8) =~= spec_u64_digits(t.transaction_id));
    assert(bytes.subrange(8, 16) =~= spec_u64_digits(t.transition_id));
    assert(bytes.subrange(16, 24) =~= spec_u64_digits(t.ciphertext_id));
    assert(bytes.subrange(24, 32) =~= spec_u64_digits(t.ciphertext));
    lemma_le64_round_trip(t.transaction_id, bytes, 0);
    lemma_le64_round_trip(t.transition_id, bytes, 8);
    lemma_le64_round_trip(t.ciphertext_id, bytes, 16);
    lemma_le64_round_trip(t.ciphertext, bytes, 24);
}

/// Frames a payload: its length as four little-endian bytes, then the
/// payload itself.
pub fn encode_frame(payload: &Vec<u8>) -> (r: Vec<u8>)
    requires
        payload@.len() <= 0xffff_ffff,
    ensures
        r@ == spec_u32_digits(payload@.len() as u32) + payload@,
        r@.len() == payload@.len() + 4,
{
    let mut out: Vec<u8> = Vec::new();
    write_u32_le(&mut out, payload.len() as u32);
    let mut i: usize = 0;
    while i < payload.len()
        invariant
            i <= payload@.len(),
            out@ =~= spec_u32_digits(payload@.len() as u32) + payload@.take(i as int),
        decreases payload@.len() - i,
    {
        out.push(payload[i]);
        i = i + 1;
    }
    proof {
        assert(out@ =~= spec_u32_digits(payload@.len() as u32) + payload@);
    }
    out
}

/// Reads one frame from the head of a buffer: the payload and how many
/// bytes it consumed; nothing until a whole frame has arrived.
pub fn decode_frame(buf: &Vec<u8>) -> (r: Option<(Vec<u8>, usize)>)
    ensures
        match r {
            Some(pc) => {
                &&& buf@.len() >= 4
                &&& spec_le32(buf@, 0) + 4 <= buf@.len()
                &&& pc.0@ == buf@.subrange(4, spec_le32(buf@, 0) + 4)
                &&& pc.1 == spec_le32(buf@, 0) + 4
            },
            None => buf@.len() < 4 || spec_le32(buf@, 0) + 4 > buf@.len(),
        },
{
    if buf.len() < 4 {
        return None;
    }
    let len32 = read_u32_le(buf, 0);
    let len = len32 as usize;
    if len > buf.len() - 4 {
        return None;
    }
    let n = buf.len();
    let mut payload: Vec<u8> = Vec::new();
    let mut i: usize = 0;
    while i < len
        invariant
            n == buf@.len(),
            len + 4 <= n,
            i <= len,
            payload@ =~= buf@.subrange(4, 4 + i as int),
        decreases len - i,
    {
        payload.push(buf[4 + i]);
        proof {
            assert(payload@ =~= buf@.subrange(4, 4 + (i + 1)));
        }
        i = i + 1;
    }
    Some((payload, len + 4))
}

/// Framing round-trip: decoding a buffer that starts with an encoded frame
/// yields exactly the framed payload and consumes exactly the frame.
pub proof fn lemma_frame_round_trip(payload: Seq<u8>, rest: Seq<u8>)
    requires
        payload.len() <= 0xffff_ffff,
    ensures
        ({
            let buf = spec_u32_digits(payload.len() as u32) + payload + rest;
            &&& spec_le32(buf, 0) == payload.len()
            &&& buf.subrange(4, payload.len() as int + 4) == payload
        }),
{
    let buf = spec_u32_digits(payload.len() as u32) + payload + rest;
    assert(buf.subrange(0, 4) =~= spec_u32_digits(payload.len() as u32));
    lemma_le32_round_trip(payload.len() as u32, buf, 0);
    assert(buf.subrange(4, payload.len() as int + 4) =~= payload);
}

} // verus!
