//! Network-order integers and the bit-packed 32-bit words that frames share.
use vstd::prelude::*;

verus! {

/// The big-endian value of the first two bytes of `b`.
pub open spec fn be16(b: Seq<u8>) -> u16 {
    (b[0] as int * 0x100 + b[1] as int) as u16
}

/// The big-endian value of the first three bytes of `b`.
pub open spec fn be24(b: Seq<u8>) -> u32 {
    (b[0] as int * 0x1_0000 + b[1] as int * 0x100 + b[2] as int) as u32
}

/// The big-endian value of the first four bytes of `b`.
pub open spec fn be32(b: Seq<u8>) -> u32 {
    (b[0] as int * 0x100_0000 + b[1] as int * 0x1_0000 + b[2] as int * 0x100
        + b[3] as int) as u32
}

/// The big-endian value of the first eight bytes of `b`.
pub open spec fn be64(b: Seq<u8>) -> u64 {
    (be32(b) as int * 0x1_0000_0000 + be32(b.skip(4)) as int) as u64
}

/// The two bytes that carry `v` in network order.
pub open spec fn be16_bytes(v: u16) -> Seq<u8> {
    seq![(v / 0x100) as u8, (v % 0x100) as u8]
}

/// The three bytes that carry the low 24 bits of `v` in network order.
pub open spec fn be24_bytes(v: u32) -> Seq<u8> {
    seq![((v / 0x1_0000) % 0x100) as u8, ((v / 0x100) % 0x100) as u8, (v % 0x100) as u8]
}

/// The four bytes that carry `v` in network order.
pub open spec fn be32_bytes(v: u32) -> Seq<u8> {
    seq![
        (v / 0x100_0000) as u8,
        ((v / 0x1_0000) % 0x100) as u8,
        ((v / 0x100) % 0x100) as u8,
        (v % 0x100) as u8,
    ]
}

/// The eight bytes that carry `v` in network order.
pub open spec fn be64_bytes(v: u64) -> Seq<u8> {
    be32_bytes((v / 0x1_0000_0000) as u32) + be32_bytes((v % 0x1_0000_0000) as u32)
}

pub proof fn lemma_be16_round_trip(v: u16)
    ensures
        be16_bytes(v).len() == 2,
        be16(be16_bytes(v)) == v,
{
    assert(((v / 0x100) as u8) as int * 0x100 + ((v % 0x100) as u8) as int == v) by (bit_vector);
}

pub proof fn lemma_be24_round_trip(v: u32)
    ensures
        be24_bytes(v).len() == 3,
        be24(be24_bytes(v)) == v % 0x100_0000,
{
    assert(((v / 0x1_0000) % 0x100) as u8 as int * 0x1_0000 + ((v / 0x100) % 0x100) as u8 as int
        * 0x100 + (v % 0x100) as u8 as int == v % 0x100_0000) by (bit_vector);
}

pub proof fn lemma_be32_round_trip(v: u32)
    ensures
        be32_bytes(v).len() == 4,
        be32(be32_bytes(v)) == v,
{
    assert((v / 0x100_0000) as u8 as int * 0x100_0000 + ((v / 0x1_0000) % 0x100) as u8 as int
        * 0x1_0000 + ((v / 0x100) % 0x100) as u8 as int * 0x100 + (v % 0x100) as u8 as int == v)
        by (bit_vector);
}

pub proof fn lemma_be64_round_trip(v: u64)
    ensures
        be64_bytes(v).len() == 8,
        be64(be64_bytes(v)) == v,
{
    let hi = (v / 0x1_0000_0000) as u32;
    let lo = (v % 0x1_0000_0000) as u32;
    lemma_be32_round_trip(hi);
    lemma_be32_round_trip(lo);
    assert(be64_bytes(v).skip(4) =~= be32_bytes(lo));
    assert(be32(be64_bytes(v)) == be32(be32_bytes(hi)));
    assert(hi as int * 0x1_0000_0000 + lo as int == v) by (bit_vector)
        requires
            hi == (v / 0x1_0000_0000) as u32,
            lo == (v % 0x1_0000_0000) as u32,
    ;
}

/// Reads the big-endian `u16` at `at`.
pub fn read_u16(b: &[u8], at: usize) -> (r: u16)
    requires
        at + 2 <= b@.len(),
    ensures
        r == be16(b@.subrange(at as int, at + 2)),
{
    (b[at] as u16) * 0x100 + b[at + 1] as u16
}

/// Reads the big-endian 24-bit value at `at`.
pub fn read_u24(b: &[u8], at: usize) -> (r: u32)
    requires
        at + 3 <= b@.len(),
    ensures
        r == be24(b@.subrange(at as int, at + 3)),
        r < 0x100_0000,
{
    (b[at] as u32) * 0x1_0000 + (b[at + 1] as u32) * 0x100 + b[at + 2] as u32
}

/// Reads the big-endian `u32` at `at`.
pub fn read_u32(b: &[u8], at: usize) -> (r: u32)
    requires
        at + 4 <= b@.len(),
    ensures
        r == be32(b@.subrange(at as int, at + 4)),
{
    (b[at] as u32) * 0x100_0000 + (b[at + 1] as u32) * 0x1_0000 + (b[at + 2] as u32) * 0x100
        + b[at + 3] as u32
}

/// Reads the big-endian `u32` at `at` and drops its top bit, the reserved
/// bit of a stream or window word.
pub fn read_u31(b: &[u8], at: usize) -> (r: u32)
    requires
        at + 4 <= b@.len(),
    ensures
        r == be32(b@.subrange(at as int, at + 4)) % 0x8000_0000,
{
    let bits = read_u32(b, at);
    assert(bits & 0x7fff_ffff == bits % 0x8000_0000) by (bit_vector);
    bits & 0x7fff_ffff
}

/// Reads the big-endian `u64` at `at`.
pub fn read_u64(b: &[u8], at: usize) -> (r: u64)
    requires
        at + 8 <= b@.len(),
    ensures
        r == be64(b@.subrange(at as int, at + 8)),
{
    let hi = read_u32(b, at);
    assert(at + 4 < b.len());
    let lo = read_u32(b, at + 4);
    assert(b@.subrange(at as int, at + 8).skip(4) =~= b@.subrange(at + 4, at + 8));
    (hi as u64) * 0x1_0000_0000 + lo as u64
}

/// Appends `v` in network order.
pub fn write_u16(out: &mut Vec<u8>, v: u16)
    ensures
        final(out)@ == old(out)@ + be16_bytes(v),
{
    out.push((v / 0x100) as u8);
    out.push((v % 0x100) as u8);
    assert(final(out)@ =~= old(out)@ + be16_bytes(v));
}

/// Appends the low 24 bits of `v` in network order.
pub fn write_u24(out: &mut Vec<u8>, v: u32)
    ensures
        final(out)@ == old(out)@ + be24_bytes(v),
{
    out.push(((v / 0x1_0000) % 0x100) as u8);
    out.push(((v / 0x100) % 0x100) as u8);
    out.push((v % 0x100) as u8);
    assert(final(out)@ =~= old(out)@ + be24_bytes(v));
}

/// Appends `v` in network order.
pub fn write_u32(out: &mut Vec<u8>, v: u32)
    ensures
        final(out)@ == old(out)@ + be32_bytes(v),
{
    out.push((v / 0x100_0000) as u8);
    out.push(((v / 0x1_0000) % 0x100) as u8);
    out.push(((v / 0x100) % 0x100) as u8);
    out.push((v % 0x100) as u8);
    assert(final(out)@ =~= old(out)@ + be32_bytes(v));
}

/// Appends `v` in network order.
pub fn write_u64(out: &mut Vec<u8>, v: u64)
    ensures
        final(out)@ == old(out)@ + be64_bytes(v),
{
    write_u32(out, (v / 0x1_0000_0000) as u32);
    write_u32(out, (v % 0x1_0000_0000) as u32);
    assert(final(out)@ =~= old(out)@ + be64_bytes(v));
}

/// Appends every byte of `bytes`.
pub fn write_bytes(out: &mut Vec<u8>, bytes: &[u8])
    ensures
        final(out)@ == old(out)@ + bytes@,
{
    let mut i: usize = 0;
    while i < bytes.len()
        invariant
            i <= bytes@.len(),
            out@ == old(out)@ + bytes@.take(i as int),
        decreases bytes@.len() - i,
    {
        out.push(bytes[i]);
        i = i + 1;
        assert(out@ =~= old(out)@ + bytes@.take(i as int));
    }
    assert(bytes@.take(i as int) =~= bytes@);
}

/// A 32-bit word holding a 24-bit frame length in its low bits; the high
/// 8 bits are reserved.
#[derive(Debug, Default, Clone, Copy, PartialEq, Eq, Structural)]
pub struct FrameHeaderLength(pub u32);

impl FrameHeaderLength {
    /// The payload length, with the reserved bits masked off.
    pub open spec fn spec_length(self) -> u32 {
        self.0 % 0x100_0000
    }

    pub fn from_bits(bits: u32) -> (r: Self)
        ensures
            r.0 == bits,
    {
        FrameHeaderLength(bits)
    }

    pub fn into_bits(self) -> (r: u32)
        ensures
            r == self.0,
    {
        self.0
    }

    /// The payload length in bytes, the 9-byte header excluded.
    pub fn length(&self) -> (r: u32)
        ensures
            r == self.spec_length(),
            r < 0x100_0000,
    {
        let bits = self.0;
        assert(bits & 0xff_ffff == bits % 0x100_0000) by (bit_vector);
        bits & 0xff_ffff
    }
}

/// A 32-bit word whose top bit is reserved and whose low 31 bits name a
/// stream.
#[derive(Debug, Default, Clone, Copy, PartialEq, Eq, Structural)]
pub struct StreamIdentifier(pub u32);

impl StreamIdentifier {
    pub open spec fn spec_stream_identifier(self) -> u32 {
        self.0 % 0x8000_0000
    }

    pub fn from_bits(bits: u32) -> (r: Self)
        ensures
            r.0 == bits,
    {
        StreamIdentifier(bits)
    }

    pub fn into_bits(self) -> (r: u32)
        ensures
            r == self.0,
    {
        self.0
    }

    /// The reserved top bit, which receivers ignore.
    pub fn reserved(&self) -> (r: bool)
        ensures
            r == (self.0 >= 0x8000_0000),
    {
        self.0 >= 0x8000_0000
    }

    /// The stream identifier, the reserved bit masked off.
    pub fn stream_identifier(&self) -> (r: u32)
        ensures
            r == self.spec_stream_identifier(),
    {
        let bits = self.0;
        assert(bits & 0x7fff_ffff == bits % 0x8000_0000) by (bit_vector);
        bits & 0x7fff_ffff
    }
}

/// A 32-bit word whose top bit marks an exclusive dependency and whose low
/// 31 bits name the stream depended on.
#[derive(Debug, Default, Clone, Copy, PartialEq, Eq, Structural)]
pub struct StreamDependency(pub u32);

impl StreamDependency {
    pub open spec fn spec_exclusive(self) -> bool {
        self.0 >= 0x8000_0000
    }

    pub open spec fn spec_stream_identifier(self) -> u32 {
        self.0 % 0x8000_0000
    }

    pub fn from_bits(bits: u32) -> (r: Self)
        ensures
            r.0 == bits,
    {
        StreamDependency(bits)
    }

    pub fn into_bits(self) -> (r: u32)
        ensures
            r == self.0,
    {
        self.0
    }

    /// Packs the exclusive bit and a 31-bit stream identifier.
    pub fn new(exclusive: bool, stream_identifier: u32) -> (r: Self)
        requires
            stream_identifier < 0x8000_0000,
        ensures
            r.spec_exclusive() == exclusive,
            r.spec_stream_identifier() == stream_identifier,
    {
        if exclusive {
            StreamDependency(stream_identifier + 0x8000_0000)
        } else {
            StreamDependency(stream_identifier)
        }
    }

    pub fn exclusive(&self) -> (r: bool)
        ensures
            r == self.spec_exclusive(),
    {
        self.0 >= 0x8000_0000
    }

    pub fn stream_identifier(&self) -> (r: u32)
        ensures
            r == self.spec_stream_identifier(),
    {
        let bits = self.0;
        assert(bits & 0x7fff_ffff == bits % 0x8000_0000) by (bit_vector);
        bits & 0x7fff_ffff
    }
}

/// A 32-bit word whose top bit is reserved and whose low 31 bits are a
/// flow-control window increment.
#[derive(Debug, Default, Clone, Copy, PartialEq, Eq, Structural)]
pub struct WindowSizeIncrement(pub u32);

impl WindowSizeIncrement {
    pub open spec fn spec_window_size(self) -> u32 {
        self.0 % 0x8000_0000
    }

    pub fn from_bits(bits: u32) -> (r: Self)
        ensures
            r.0 == bits,
    {
        WindowSizeIncrement(bits)
    }

    pub fn into_bits(self) -> (r: u32)
        ensures
            r == self.0,
    {
        self.0
    }

    /// The reserved top bit, which receivers ignore.
    pub fn reserved(&self) -> (r: bool)
        ensures
            r == (self.0 >= 0x8000_0000),
    {
        self.0 >= 0x8000_0000
    }

    /// The increment, the reserved bit masked off.
    pub fn window_size(&self) -> (r: u32)
        ensures
            r == self.spec_window_size(),
    {
        let bits = self.0;
        assert(bits & 0x7fff_ffff == bits % 0x8000_0000) by (bit_vector);
        bits & 0x7fff_ffff
    }
}

} // verus!
