use vstd::prelude::*;

verus! {

/// The flags byte of a frame header.
///
/// Which bits mean what depends on the frame kind; every byte value is a
/// legal `Flags`, and bits that no kind assigns are kept as they are.
#[derive(Debug, Default, Clone, Copy, PartialEq, Eq, Structural)]
pub struct Flags(pub u8);

impl Flags {
    /// No flag set.
    pub const NONE: u8 = 0x00;
    /// `0x01`: ACK, on SETTINGS and PING.
    pub const ACK: u8 = 0x01;
    /// `0x01`: END_STREAM, on DATA and HEADERS.
    pub const END_STREAM: u8 = 0x01;
    /// `0x04`: END_HEADERS, on HEADERS, PUSH_PROMISE and CONTINUATION.
    pub const END_HEADERS: u8 = 0x04;
    /// `0x08`: PADDED, on DATA, HEADERS and PUSH_PROMISE.
    pub const PADDED: u8 = 0x08;
    /// `0x20`: PRIORITY, on HEADERS.
    pub const PRIORITY: u8 = 0x20;

    /// Every bit of `bits` is set in `self`.
    pub open spec fn has(self, bits: u8) -> bool {
        self.0 & bits == bits
    }

    /// Tells whether every bit of `bits` is set.
    pub fn contains(&self, bits: u8) -> (r: bool)
        ensures
            r == self.has(bits),
    {
        self.0 & bits == bits
    }

    /// The flags byte as it stands on the wire.
    pub fn bits(&self) -> (r: u8)
        ensures
            r == self.0,
    {
        self.0
    }

    /// Keeps every bit of `bits`, assigned or not.
    pub fn from_bits_retain(bits: u8) -> (r: Flags)
        ensures
            r.0 == bits,
    {
        Flags(bits)
    }

    /// Reads one flags byte from the front of `bytes`; `None` when `bytes` is
    /// empty.
    pub fn read_from_prefix(bytes: &[u8]) -> (r: Option<(Flags, &[u8])>)
        ensures
            bytes@.len() == 0 ==> r is None,
            bytes@.len() > 0 ==> (r matches Some((f, rest)) && f.0 == bytes@[0] && rest@
                == bytes@.skip(1)),
    {
        if bytes.len() == 0 {
            None
        } else {
            let rest = vstd::slice::slice_subrange(bytes, 1, bytes.len());
            Some((Flags(bytes[0]), rest))
        }
    }
}

impl From<u8> for Flags {
    fn from(value: u8) -> (r: Flags) {
        Flags(value)
    }
}

impl vstd::std_specs::convert::FromSpecImpl<u8> for Flags {
    open spec fn obeys_from_spec() -> bool {
        true
    }

    open spec fn from_spec(v: u8) -> Flags {
        Flags(v)
    }
}

} // verus!
