//! Decoders: the frame header, one body decoder per frame kind, and the
//! dispatcher that joins them. Each states its result through a spec
//! function over the input bytes.
use vstd::prelude::*;
use vstd::slice::slice_subrange;
use vstd::string::StringSliceAdditionalSpecFns;
use vstd::utf8::{decode_utf8, encode_utf8_decode_utf8, valid_utf8};

use crate::codes::{
    error_code_of, frame_type_of, settings_parameter_of, ErrorCode, FrameType, SettingsParameter,
};
use crate::flags::Flags;
use crate::frames::{
    opt_bytes, ContinuationFrame, DataFrame, DecodeError, Frame, FrameHeader, GoAwayFrame,
    HeadersFrame, OriginEntry, OriginFrame, PingFrame, PriorityFrame, PushPromiseFrame,
    RstStreamFrame, SettingsFrame, SettingsParameterFrame, SpecContinuationFrame, SpecDataFrame,
    SpecFrame, SpecGoAwayFrame, SpecHeadersFrame, SpecOriginEntry, SpecOriginFrame,
    SpecPushPromiseFrame, SpecSettingsFrame, WindowUpdateFrame,
};
use crate::wire::{
    be16, be24, be32, be64, read_u16, read_u24, read_u31, read_u32, read_u64, FrameHeaderLength,
    StreamDependency, StreamIdentifier, WindowSizeIncrement,
};

verus! {

/// The outcome of decoding a body of `length` bytes from the front of `b`,
/// where `body` is what those bytes decode to: `Incomplete` when fewer
/// bytes are at hand, else `body` together with the bytes after the payload.
pub open spec fn framed<V>(b: Seq<u8>, length: nat, body: Result<V, DecodeError>) -> Result<
    (V, Seq<u8>),
    DecodeError,
> {
    if b.len() < length {
        Err(DecodeError::Incomplete)
    } else {
        match body {
            Ok(v) => Ok((v, b.skip(length as int))),
            Err(e) => Err(e),
        }
    }
}

/// The decoder's result `r` is, in its view, the outcome `s`.
pub open spec fn decoded<'a, T: View>(
    r: Result<(&'a [u8], T), DecodeError>,
    s: Result<(T::V, Seq<u8>), DecodeError>,
) -> bool {
    match r {
        Ok((tail, v)) => s == Ok::<(T::V, Seq<u8>), DecodeError>((v@, tail@)),
        Err(e) => s == Err::<(T::V, Seq<u8>), DecodeError>(e),
    }
}

/// A successful decode consumed exactly `n` bytes of `b`.
pub open spec fn consumed<'a, T>(b: Seq<u8>, r: Result<(&'a [u8], T), DecodeError>, n: nat) -> bool {
    r matches Ok((tail, _)) ==> tail@ == b.skip(n as int)
}

/// As `framed`, but a declared length under `min`, the least payload that
/// the kind and its flags allow, is `Malformed` whatever bytes are at hand.
pub open spec fn framed_min<V>(
    b: Seq<u8>,
    length: nat,
    min: nat,
    body: Result<V, DecodeError>,
) -> Result<(V, Seq<u8>), DecodeError> {
    if length < min {
        Err(DecodeError::Malformed)
    } else {
        framed(b, length, body)
    }
}

/// The one byte of pad length that PADDED puts before a payload.
pub open spec fn pad_field_length(flags: Flags) -> nat {
    if flags.has(Flags::PADDED) {
        1
    } else {
        0
    }
}

fn pad_field_len(flags: &Flags) -> (r: u32)
    ensures
        r == pad_field_length(*flags),
{
    if flags.contains(Flags::PADDED) {
        1
    } else {
        0
    }
}

/// Splits `n` trailing padding bytes off `rest`; `None` when `n` exceeds it.
pub open spec fn split_padding(rest: Seq<u8>, pad: Option<u8>) -> Option<
    (Seq<u8>, Option<Seq<u8>>),
> {
    match pad {
        None => Some((rest, None)),
        Some(n) => if n <= rest.len() {
            Some((rest.take(rest.len() - n), Some(rest.skip(rest.len() - n))))
        } else {
            None
        },
    }
}

/// The header that the first nine bytes of `b` encode.
pub open spec fn header_of(b: Seq<u8>) -> FrameHeader {
    FrameHeader {
        length: FrameHeaderLength(be24(b)),
        frame_type: frame_type_of(b[3]),
        flags: Flags(b[4]),
        stream_identifier: StreamIdentifier(be32(b.subrange(5, 9)) % 0x8000_0000),
    }
}

/// Splits off the first `length` bytes as the payload: `Malformed` when the
/// length is under `min`, else `Incomplete` when fewer bytes are at hand.
fn split_payload<'a>(bytes: &'a [u8], length: &FrameHeaderLength, min: u32) -> (r: Result<
    (&'a [u8], &'a [u8]),
    DecodeError,
>)
    ensures
        length.spec_length() < min ==> r == Err::<(&'a [u8], &'a [u8]), DecodeError>(
            DecodeError::Malformed,
        ),
        length.spec_length() >= min && bytes@.len() < length.spec_length() ==> r == Err::<
            (&'a [u8], &'a [u8]),
            DecodeError,
        >(DecodeError::Incomplete),
        length.spec_length() >= min && bytes@.len() >= length.spec_length() ==> (r matches Ok(
            (p, t),
        ) && p@ == bytes@.take(
            length.spec_length() as int,
        ) && t@ == bytes@.skip(length.spec_length() as int)),
{
    if length.length() < min {
        return Err(DecodeError::Malformed);
    }
    let n = length.length() as usize;
    if bytes.len() < n {
        Err(DecodeError::Incomplete)
    } else {
        let payload = slice_subrange(bytes, 0, n);
        let tail = slice_subrange(bytes, n, bytes.len());
        assert(payload@ =~= bytes@.take(n as int));
        assert(tail@ =~= bytes@.skip(n as int));
        Ok((payload, tail))
    }
}

/// Reads the pad-length byte that leads `p` when `padded`; the count of
/// bytes read comes back with it.
fn read_pad_length(p: &[u8], padded: bool) -> (r: Option<(Option<u8>, usize)>)
    ensures
        padded && p@.len() == 0 ==> r is None,
        padded && p@.len() > 0 ==> r == Some((Some(p@[0]), 1usize)),
        !padded ==> r == Some((None::<u8>, 0usize)),
{
    if !padded {
        Some((None, 0))
    } else if p.len() == 0 {
        None
    } else {
        Some((Some(p[0]), 1))
    }
}

/// Splits the trailing padding off `rest`, as `split_padding` says.
fn take_padding<'a>(rest: &'a [u8], pad: Option<u8>) -> (r: Option<(&'a [u8], Option<&'a [u8]>)>)
    ensures
        match split_padding(rest@, pad) {
            Some((d, pd)) => r matches Some((x, y)) && x@ == d && opt_bytes(y) == pd,
            None => r is None,
        },
{
    match pad {
        None => Some((rest, None)),
        Some(n) => {
            if (n as usize) <= rest.len() {
                let cut = rest.len() - n as usize;
                let data = slice_subrange(rest, 0, cut);
                let padding = slice_subrange(rest, cut, rest.len());
                assert(data@ =~= rest@.take(cut as int));
                assert(padding@ =~= rest@.skip(cut as int));
                Some((data, Some(padding)))
            } else {
                None
            }
        },
    }
}

impl FrameHeader {
    /// What decoding a header from `b` gives: `Incomplete` under nine
    /// bytes, else the header and the bytes after it.
    pub open spec fn spec_parse(b: Seq<u8>) -> Result<(FrameHeader, Seq<u8>), DecodeError> {
        if b.len() < 9 {
            Err(DecodeError::Incomplete)
        } else {
            Ok((header_of(b), b.skip(9)))
        }
    }

    /// Decodes the nine-byte header at the front of `bytes` and returns the
    /// bytes after it with it.
    pub fn parse(bytes: &[u8]) -> (r: Result<(&[u8], FrameHeader), DecodeError>)
        ensures
            decoded(r, FrameHeader::spec_parse(bytes@)),
            consumed(bytes@, r, 9),
    {
        if bytes.len() < 9 {
            return Err(DecodeError::Incomplete);
        }
        let length = FrameHeaderLength::from_bits(read_u24(bytes, 0));
        let frame_type = FrameType::from(bytes[3]);
        let flags = Flags::from(bytes[4]);
        let stream_identifier = StreamIdentifier::from_bits(read_u31(bytes, 5));
        let tail = slice_subrange(bytes, 9, bytes.len());
        assert(tail@ =~= bytes@.skip(9));
        assert(bytes@.subrange(0, 3) =~= bytes@.take(3));
        Ok((tail, FrameHeader { length, frame_type, flags, stream_identifier }))
    }
}

impl<'a> DataFrame<'a> {
    /// What a DATA payload `p` decodes to under `flags`.
    pub open spec fn spec_body(p: Seq<u8>, flags: Flags) -> Result<SpecDataFrame, DecodeError> {
        let padded = flags.has(Flags::PADDED);
        let k: int = if padded { 1 } else { 0 };
        if p.len() < k {
            Err(DecodeError::Malformed)
        } else {
            let pad = if padded { Some(p[0]) } else { None };
            match split_padding(p.skip(k), pad) {
                Some((data, padding)) => Ok(SpecDataFrame { pad_length: pad, data, padding }),
                None => Err(DecodeError::Malformed),
            }
        }
    }

    pub open spec fn spec_parse(b: Seq<u8>, length: FrameHeaderLength, flags: Flags) -> Result<
        (SpecDataFrame, Seq<u8>),
        DecodeError,
    > {
        let n = length.spec_length();
        let min = pad_field_length(flags);
        framed_min(b, n as nat, min, Self::spec_body(b.take(n as int), flags))
    }

    /// Decodes a DATA body of `length` bytes from the front of `bytes`.
    pub fn parse(bytes: &'a [u8], length: &FrameHeaderLength, flags: &Flags) -> (r: Result<
        (&'a [u8], Self),
        DecodeError,
    >)
        ensures
            decoded(r, Self::spec_parse(bytes@, *length, *flags)),
            consumed(bytes@, r, length.spec_length() as nat),
    {
        let (payload, tail) = match split_payload(bytes, length, pad_field_len(flags)) {
            Ok(x) => x,
            Err(e) => return Err(e),
        };
        let (pad, k) = match read_pad_length(payload, flags.contains(Flags::PADDED)) {
            Some(x) => x,
            None => return Err(DecodeError::Malformed),
        };
        let rest = slice_subrange(payload, k, payload.len());
        assert(rest@ =~= payload@.skip(k as int));
        match take_padding(rest, pad) {
            Some((data, padding)) => Ok((tail, DataFrame { pad_length: pad, data, padding })),
            None => Err(DecodeError::Malformed),
        }
    }
}

impl<'a> HeadersFrame<'a> {
    /// What a HEADERS payload `p` decodes to under `flags`.
    pub open spec fn spec_body(p: Seq<u8>, flags: Flags) -> Result<SpecHeadersFrame, DecodeError> {
        let padded = flags.has(Flags::PADDED);
        let prioritized = flags.has(Flags::PRIORITY);
        let k: int = if padded { 1 } else { 0 };
        let m: int = if prioritized { k + 5 } else { k };
        if p.len() < m {
            Err(DecodeError::Malformed)
        } else {
            let pad = if padded { Some(p[0]) } else { None };
            let dep = if prioritized {
                Some(StreamDependency(be32(p.subrange(k, k + 4))))
            } else {
                None
            };
            let weight = if prioritized { Some(p[k + 4]) } else { None };
            match split_padding(p.skip(m), pad) {
                Some((fragment, padding)) => Ok(
                    SpecHeadersFrame {
                        pad_length: pad,
                        stream_dependency: dep,
                        weight,
                        header_block_fragment: fragment,
                        padding,
                    },
                ),
                None => Err(DecodeError::Malformed),
            }
        }
    }

    pub open spec fn spec_parse(b: Seq<u8>, length: FrameHeaderLength, flags: Flags) -> Result<
        (SpecHeadersFrame, Seq<u8>),
        DecodeError,
    > {
        let n = length.spec_length();
        let min = pad_field_length(flags) + if flags.has(Flags::PRIORITY) {
            5nat
        } else {
            0nat
        };
        framed_min(b, n as nat, min, Self::spec_body(b.take(n as int), flags))
    }

    /// Decodes a HEADERS body of `length` bytes from the front of `bytes`.
    pub fn parse(bytes: &'a [u8], length: &FrameHeaderLength, flags: &Flags) -> (r: Result<
        (&'a [u8], Self),
        DecodeError,
    >)
        ensures
            decoded(r, Self::spec_parse(bytes@, *length, *flags)),
            consumed(bytes@, r, length.spec_length() as nat),
    {
        let min = pad_field_len(flags) + if flags.contains(Flags::PRIORITY) {
            5
        } else {
            0
        };
        let (payload, tail) = match split_payload(bytes, length, min) {
            Ok(x) => x,
            Err(e) => return Err(e),
        };
        let (pad, k) = match read_pad_length(payload, flags.contains(Flags::PADDED)) {
            Some(x) => x,
            None => return Err(DecodeError::Malformed),
        };
        let prioritized = flags.contains(Flags::PRIORITY);
        let m: usize = if prioritized { k + 5 } else { k };
        if payload.len() < m {
            return Err(DecodeError::Malformed);
        }
        let (dep, weight) = if prioritized {
            (Some(StreamDependency::from_bits(read_u32(payload, k))), Some(payload[k + 4]))
        } else {
            (None, None)
        };
        let rest = slice_subrange(payload, m, payload.len());
        assert(rest@ =~= payload@.skip(m as int));
        match take_padding(rest, pad) {
            Some((fragment, padding)) => Ok(
                (
                    tail,
                    HeadersFrame {
                        pad_length: pad,
                        stream_dependency: dep,
                        weight,
                        header_block_fragment: fragment,
                        padding,
                    },
                ),
            ),
            None => Err(DecodeError::Malformed),
        }
    }
}

impl<'a> PushPromiseFrame<'a> {
    /// What a PUSH_PROMISE payload `p` decodes to under `flags`.
    pub open spec fn spec_body(p: Seq<u8>, flags: Flags) -> Result<
        SpecPushPromiseFrame,
        DecodeError,
    > {
        let padded = flags.has(Flags::PADDED);
        let k: int = if padded { 1 } else { 0 };
        if p.len() < k + 4 {
            Err(DecodeError::Malformed)
        } else {
            let pad = if padded { Some(p[0]) } else { None };
            let promised = StreamIdentifier(be32(p.subrange(k, k + 4)) % 0x8000_0000);
            match split_padding(p.skip(k + 4), pad) {
                Some((fragment, padding)) => Ok(
                    SpecPushPromiseFrame {
                        pad_length: pad,
                        promised_stream_identifier: promised,
                        header_block_fragment: fragment,
                        padding,
                    },
                ),
                None => Err(DecodeError::Malformed),
            }
        }
    }

    pub open spec fn spec_parse(b: Seq<u8>, length: FrameHeaderLength, flags: Flags) -> Result<
        (SpecPushPromiseFrame, Seq<u8>),
        DecodeError,
    > {
        let n = length.spec_length();
        let min = pad_field_length(flags) + 4;
        framed_min(b, n as nat, min, Self::spec_body(b.take(n as int), flags))
    }

    /// Decodes a PUSH_PROMISE body of `length` bytes from the front of
    /// `bytes`.
    pub fn parse(bytes: &'a [u8], length: &FrameHeaderLength, flags: &Flags) -> (r: Result<
        (&'a [u8], Self),
        DecodeError,
    >)
        ensures
            decoded(r, Self::spec_parse(bytes@, *length, *flags)),
            consumed(bytes@, r, length.spec_length() as nat),
    {
        let (payload, tail) = match split_payload(bytes, length, pad_field_len(flags) + 4) {
            Ok(x) => x,
            Err(e) => return Err(e),
        };
        let (pad, k) = match read_pad_length(payload, flags.contains(Flags::PADDED)) {
            Some(x) => x,
            None => return Err(DecodeError::Malformed),
        };
        if payload.len() < k + 4 {
            return Err(DecodeError::Malformed);
        }
        let promised = StreamIdentifier::from_bits(read_u31(payload, k));
        let rest = slice_subrange(payload, k + 4, payload.len());
        assert(rest@ =~= payload@.skip(k + 4));
        match take_padding(rest, pad) {
            Some((fragment, padding)) => Ok(
                (
                    tail,
                    PushPromiseFrame {
                        pad_length: pad,
                        promised_stream_identifier: promised,
                        header_block_fragment: fragment,
                        padding,
                    },
                ),
            ),
            None => Err(DecodeError::Malformed),
        }
    }
}

impl PriorityFrame {
    /// A PRIORITY payload is exactly five bytes.
    pub open spec fn spec_body(p: Seq<u8>) -> Result<PriorityFrame, DecodeError> {
        if p.len() != 5 {
            Err(DecodeError::Malformed)
        } else {
            Ok(PriorityFrame { stream_dependency: StreamDependency(be32(p)), weight: p[4] })
        }
    }

    pub open spec fn spec_parse(b: Seq<u8>, length: FrameHeaderLength) -> Result<
        (PriorityFrame, Seq<u8>),
        DecodeError,
    > {
        let n = length.spec_length();
        framed_min(b, n as nat, 5, Self::spec_body(b.take(n as int)))
    }

    /// Decodes a PRIORITY body of `length` bytes from the front of `bytes`.
    pub fn parse<'a>(bytes: &'a [u8], length: &FrameHeaderLength) -> (r: Result<
        (&'a [u8], Self),
        DecodeError,
    >)
        ensures
            decoded(r, Self::spec_parse(bytes@, *length)),
            consumed(bytes@, r, length.spec_length() as nat),
    {
        let (payload, tail) = match split_payload(bytes, length, 5) {
            Ok(x) => x,
            Err(e) => return Err(e),
        };
        if payload.len() != 5 {
            return Err(DecodeError::Malformed);
        }
        let stream_dependency = StreamDependency::from_bits(read_u32(payload, 0));
        assert(payload@.subrange(0, 4) =~= payload@.take(4));
        Ok((tail, PriorityFrame { stream_dependency, weight: payload[4] }))
    }
}

impl RstStreamFrame {
    /// A RST_STREAM payload is exactly four bytes.
    pub open spec fn spec_body(p: Seq<u8>) -> Result<RstStreamFrame, DecodeError> {
        if p.len() != 4 {
            Err(DecodeError::Malformed)
        } else {
            Ok(RstStreamFrame { error_code: error_code_of(be32(p)) })
        }
    }

    pub open spec fn spec_parse(b: Seq<u8>, length: FrameHeaderLength) -> Result<
        (RstStreamFrame, Seq<u8>),
        DecodeError,
    > {
        let n = length.spec_length();
        framed_min(b, n as nat, 4, Self::spec_body(b.take(n as int)))
    }

    /// Decodes a RST_STREAM body of `length` bytes from the front of
    /// `bytes`.
    pub fn parse<'a>(bytes: &'a [u8], length: &FrameHeaderLength) -> (r: Result<
        (&'a [u8], Self),
        DecodeError,
    >)
        ensures
            decoded(r, Self::spec_parse(bytes@, *length)),
            consumed(bytes@, r, length.spec_length() as nat),
    {
        let (payload, tail) = match split_payload(bytes, length, 4) {
            Ok(x) => x,
            Err(e) => return Err(e),
        };
        if payload.len() != 4 {
            return Err(DecodeError::Malformed);
        }
        let error_code = ErrorCode::from(read_u32(payload, 0));
        assert(payload@.subrange(0, 4) =~= payload@);
        Ok((tail, RstStreamFrame { error_code }))
    }
}

impl PingFrame {
    /// A PING payload is exactly eight bytes.
    pub open spec fn spec_body(p: Seq<u8>) -> Result<PingFrame, DecodeError> {
        if p.len() != 8 {
            Err(DecodeError::Malformed)
        } else {
            Ok(PingFrame { opaque_data: be64(p) })
        }
    }

    pub open spec fn spec_parse(b: Seq<u8>, length: FrameHeaderLength) -> Result<
        (PingFrame, Seq<u8>),
        DecodeError,
    > {
        let n = length.spec_length();
        framed_min(b, n as nat, 8, Self::spec_body(b.take(n as int)))
    }

    /// Decodes a PING body of `length` bytes from the front of `bytes`.
    pub fn parse<'a>(bytes: &'a [u8], length: &FrameHeaderLength) -> (r: Result<
        (&'a [u8], Self),
        DecodeError,
    >)
        ensures
            decoded(r, Self::spec_parse(bytes@, *length)),
            consumed(bytes@, r, length.spec_length() as nat),
    {
        let (payload, tail) = match split_payload(bytes, length, 8) {
            Ok(x) => x,
            Err(e) => return Err(e),
        };
        if payload.len() != 8 {
            return Err(DecodeError::Malformed);
        }
        let opaque_data = read_u64(payload, 0);
        assert(payload@.subrange(0, 8) =~= payload@);
        Ok((tail, PingFrame { opaque_data }))
    }
}

impl WindowUpdateFrame {
    /// A WINDOW_UPDATE payload is exactly four bytes.
    pub open spec fn spec_body(p: Seq<u8>) -> Result<WindowUpdateFrame, DecodeError> {
        if p.len() != 4 {
            Err(DecodeError::Malformed)
        } else {
            let increment = WindowSizeIncrement(be32(p) % 0x8000_0000);
            Ok(WindowUpdateFrame { window_size_increment: increment })
        }
    }

    pub open spec fn spec_parse(b: Seq<u8>, length: FrameHeaderLength) -> Result<
        (WindowUpdateFrame, Seq<u8>),
        DecodeError,
    > {
        let n = length.spec_length();
        framed_min(b, n as nat, 4, Self::spec_body(b.take(n as int)))
    }

    /// Decodes a WINDOW_UPDATE body of `length` bytes from the front of
    /// `bytes`.
    pub fn parse<'a>(bytes: &'a [u8], length: &FrameHeaderLength) -> (r: Result<
        (&'a [u8], Self),
        DecodeError,
    >)
        ensures
            decoded(r, Self::spec_parse(bytes@, *length)),
            consumed(bytes@, r, length.spec_length() as nat),
    {
        let (payload, tail) = match split_payload(bytes, length, 4) {
            Ok(x) => x,
            Err(e) => return Err(e),
        };
        if payload.len() != 4 {
            return Err(DecodeError::Malformed);
        }
        let window_size_increment = WindowSizeIncrement::from_bits(read_u31(payload, 0));
        assert(payload@.subrange(0, 4) =~= payload@);
        Ok((tail, WindowUpdateFrame { window_size_increment }))
    }
}

impl<'a> ContinuationFrame<'a> {
    /// A CONTINUATION payload is all header block fragment.
    pub open spec fn spec_body(p: Seq<u8>) -> Result<SpecContinuationFrame, DecodeError> {
        Ok(SpecContinuationFrame { header_block_fragment: p })
    }

    pub open spec fn spec_parse(b: Seq<u8>, length: FrameHeaderLength) -> Result<
        (SpecContinuationFrame, Seq<u8>),
        DecodeError,
    > {
        let n = length.spec_length();
        framed_min(b, n as nat, 0, Self::spec_body(b.take(n as int)))
    }

    /// Decodes a CONTINUATION body of `length` bytes from the front of
    /// `bytes`.
    pub fn parse(bytes: &'a [u8], length: &FrameHeaderLength) -> (r: Result<
        (&'a [u8], Self),
        DecodeError,
    >)
        ensures
            decoded(r, Self::spec_parse(bytes@, *length)),
            consumed(bytes@, r, length.spec_length() as nat),
    {
        let (payload, tail) = match split_payload(bytes, length, 0) {
            Ok(x) => x,
            Err(e) => return Err(e),
        };
        Ok((tail, ContinuationFrame { header_block_fragment: payload }))
    }
}

/// The parameter-value pair in the `i`-th six-byte unit of `p`.
pub open spec fn settings_entry(p: Seq<u8>, i: int) -> SettingsParameterFrame {
    SettingsParameterFrame {
        identifier: settings_parameter_of(be16(p.subrange(6 * i, 6 * i + 2))),
        value: be32(p.subrange(6 * i + 2, 6 * i + 6)),
    }
}

impl SettingsFrame {
    /// What a SETTINGS payload `p` decodes to under `flags`: nothing on an
    /// acknowledgement, else one pair per six bytes.
    pub open spec fn spec_body(p: Seq<u8>, flags: Flags) -> Result<SpecSettingsFrame, DecodeError> {
        if flags.has(Flags::ACK) {
            Ok(SpecSettingsFrame { parameters: None })
        } else if p.len() % 6 != 0 {
            Err(DecodeError::Malformed)
        } else {
            Ok(
                SpecSettingsFrame {
                    parameters: Some(Seq::new(p.len() / 6, |i: int| settings_entry(p, i))),
                },
            )
        }
    }

    pub open spec fn spec_parse(b: Seq<u8>, length: FrameHeaderLength, flags: Flags) -> Result<
        (SpecSettingsFrame, Seq<u8>),
        DecodeError,
    > {
        let n = length.spec_length();
        framed_min(b, n as nat, 0, Self::spec_body(b.take(n as int), flags))
    }

    /// Decodes a SETTINGS body of `length` bytes from the front of `bytes`.
    pub fn parse<'a>(bytes: &'a [u8], length: &FrameHeaderLength, flags: &Flags) -> (r: Result<
        (&'a [u8], Self),
        DecodeError,
    >)
        ensures
            decoded(r, Self::spec_parse(bytes@, *length, *flags)),
            consumed(bytes@, r, length.spec_length() as nat),
    {
        let (payload, tail) = match split_payload(bytes, length, 0) {
            Ok(x) => x,
            Err(e) => return Err(e),
        };
        if flags.contains(Flags::ACK) {
            return Ok((tail, SettingsFrame { parameters: None }));
        }
        let n = payload.len();
        if n % 6 != 0 {
            return Err(DecodeError::Malformed);
        }
        let mut parameters: Vec<SettingsParameterFrame> = Vec::new();
        let mut at: usize = 0;
        while at < n
            invariant
                n == payload@.len(),
                n % 6 == 0,
                at <= n,
                at == 6 * parameters@.len(),
                parameters@ =~= Seq::new(parameters@.len(), |i: int| settings_entry(payload@, i)),
            decreases n - at,
        {
            let identifier = SettingsParameter::from(read_u16(payload, at));
            let value = read_u32(payload, at + 2);
            let ghost i = parameters@.len() as int;
            parameters.push(SettingsParameterFrame { identifier, value });
            assert(settings_entry(payload@, i) == SettingsParameterFrame { identifier, value });
            at = at + 6;
        }
        assert(parameters@.len() == n / 6);
        Ok((tail, SettingsFrame { parameters: Some(parameters) }))
    }
}

impl<'a> GoAwayFrame<'a> {
    /// What a GOAWAY payload `p` decodes to: eight fixed bytes, then debug
    /// data when any bytes remain.
    pub open spec fn spec_body(p: Seq<u8>) -> Result<SpecGoAwayFrame, DecodeError> {
        if p.len() < 8 {
            Err(DecodeError::Malformed)
        } else {
            Ok(
                SpecGoAwayFrame {
                    last_stream_identifier: StreamIdentifier(be32(p) % 0x8000_0000),
                    error_code: error_code_of(be32(p.subrange(4, 8))),
                    debug_data: if p.len() > 8 {
                        Some(p.skip(8))
                    } else {
                        None
                    },
                },
            )
        }
    }

    pub open spec fn spec_parse(b: Seq<u8>, length: FrameHeaderLength) -> Result<
        (SpecGoAwayFrame, Seq<u8>),
        DecodeError,
    > {
        let n = length.spec_length();
        framed_min(b, n as nat, 8, Self::spec_body(b.take(n as int)))
    }

    /// Decodes a GOAWAY body of `length` bytes from the front of `bytes`.
    pub fn parse(bytes: &'a [u8], length: &FrameHeaderLength) -> (r: Result<
        (&'a [u8], Self),
        DecodeError,
    >)
        ensures
            decoded(r, Self::spec_parse(bytes@, *length)),
            consumed(bytes@, r, length.spec_length() as nat),
    {
        let (payload, tail) = match split_payload(bytes, length, 8) {
            Ok(x) => x,
            Err(e) => return Err(e),
        };
        if payload.len() < 8 {
            return Err(DecodeError::Malformed);
        }
        let last_stream_identifier = StreamIdentifier::from_bits(read_u31(payload, 0));
        let error_code = ErrorCode::from(read_u32(payload, 4));
        assert(payload@.subrange(0, 4) =~= payload@.take(4));
        let debug_data = if payload.len() > 8 {
            let d = slice_subrange(payload, 8, payload.len());
            assert(d@ =~= payload@.skip(8));
            Some(d)
        } else {
            None
        };
        Ok((tail, GoAwayFrame { last_stream_identifier, error_code, debug_data }))
    }
}

/// Relies on `core::str::from_utf8`: it accepts a byte slice exactly when the
/// bytes are valid UTF-8, and then returns the text they encode, borrowing
/// them.
#[verifier::external_body]
fn utf8_text<'a>(b: &'a [u8]) -> (r: Option<&'a str>)
    ensures
        match r {
            Some(s) => valid_utf8(b@) && s.spec_bytes() == b@,
            None => !valid_utf8(b@),
        },
{
    core::str::from_utf8(b).ok()
}

impl<'a> OriginFrame<'a> {
    /// What an ORIGIN payload `p` decodes to: no entry when it is empty,
    /// else one entry, a two-byte length and that many bytes of UTF-8 text,
    /// that fills the payload.
    pub open spec fn spec_body(p: Seq<u8>) -> Result<SpecOriginFrame, DecodeError> {
        if p.len() == 0 {
            Ok(SpecOriginFrame { origin_entry: None })
        } else if p.len() < 2 || p.len() != 2 + be16(p) {
            Err(DecodeError::Malformed)
        } else if be16(p) == 0 {
            Ok(
                SpecOriginFrame {
                    origin_entry: Some(SpecOriginEntry { origin_length: 0, ascii_origin: None }),
                },
            )
        } else if valid_utf8(p.skip(2)) {
            Ok(
                SpecOriginFrame {
                    origin_entry: Some(
                        SpecOriginEntry {
                            origin_length: be16(p),
                            ascii_origin: Some(decode_utf8(p.skip(2))),
                        },
                    ),
                },
            )
        } else {
            Err(DecodeError::Malformed)
        }
    }

    pub open spec fn spec_parse(b: Seq<u8>, length: FrameHeaderLength) -> Result<
        (SpecOriginFrame, Seq<u8>),
        DecodeError,
    > {
        let n = length.spec_length();
        let min = if n == 0 {
            0nat
        } else {
            2nat
        };
        framed_min(b, n as nat, min, Self::spec_body(b.take(n as int)))
    }

    /// Decodes an ORIGIN body of `length` bytes from the front of `bytes`.
    pub fn parse(bytes: &'a [u8], length: &FrameHeaderLength) -> (r: Result<
        (&'a [u8], Self),
        DecodeError,
    >)
        ensures
            decoded(r, Self::spec_parse(bytes@, *length)),
            consumed(bytes@, r, length.spec_length() as nat),
    {
        let min = if length.length() == 0 {
            0
        } else {
            2
        };
        let (payload, tail) = match split_payload(bytes, length, min) {
            Ok(x) => x,
            Err(e) => return Err(e),
        };
        if payload.len() == 0 {
            return Ok((tail, OriginFrame { origin_entry: None }));
        }
        if payload.len() < 2 {
            return Err(DecodeError::Malformed);
        }
        let origin_length = read_u16(payload, 0);
        assert(payload@.subrange(0, 2) =~= payload@.take(2));
        if payload.len() != 2 + origin_length as usize {
            return Err(DecodeError::Malformed);
        }
        if origin_length == 0 {
            let entry = OriginEntry { origin_length, ascii_origin: None };
            return Ok((tail, OriginFrame { origin_entry: Some(entry) }));
        }
        let text = slice_subrange(payload, 2, payload.len());
        assert(text@ =~= payload@.skip(2));
        match utf8_text(text) {
            Some(s) => {
                proof {
                    encode_utf8_decode_utf8(s@);
                }
                Ok(
                    (
                        tail,
                        OriginFrame {
                            origin_entry: Some(OriginEntry { origin_length, ascii_origin: Some(s) }),
                        },
                    ),
                )
            },
            None => Err(DecodeError::Malformed),
        }
    }
}

/// Wraps the body of a successful decode into a frame.
pub open spec fn lift<V>(
    r: Result<(V, Seq<u8>), DecodeError>,
    f: spec_fn(V) -> SpecFrame,
) -> Result<(SpecFrame, Seq<u8>), DecodeError> {
    match r {
        Ok((v, t)) => Ok((f(v), t)),
        Err(e) => Err(e),
    }
}

impl<'a> Frame<'a> {
    /// What the body that `h` announces decodes to from the front of `b`.
    /// A type with no body decoder gives `UnsupportedType`, whatever the
    /// bytes.
    pub open spec fn spec_parse_body(h: FrameHeader, b: Seq<u8>) -> Result<
        (SpecFrame, Seq<u8>),
        DecodeError,
    > {
        match h.frame_type {
            FrameType::DATA => lift(
                DataFrame::spec_parse(b, h.length, h.flags),
                |v| SpecFrame::Data(h, v),
            ),
            FrameType::HEADERS => lift(
                HeadersFrame::spec_parse(b, h.length, h.flags),
                |v| SpecFrame::Headers(h, v),
            ),
            FrameType::PRIORITY => lift(
                PriorityFrame::spec_parse(b, h.length),
                |v| SpecFrame::Priority(h, v),
            ),
            FrameType::RST_STREAM => lift(
                RstStreamFrame::spec_parse(b, h.length),
                |v| SpecFrame::RstStream(h, v),
            ),
            FrameType::SETTINGS => lift(
                SettingsFrame::spec_parse(b, h.length, h.flags),
                |v| SpecFrame::Settings(h, v),
            ),
            FrameType::PUSH_PROMISE => lift(
                PushPromiseFrame::spec_parse(b, h.length, h.flags),
                |v| SpecFrame::PushPromise(h, v),
            ),
            FrameType::PING => lift(PingFrame::spec_parse(b, h.length), |v| SpecFrame::Ping(h, v)),
            FrameType::GOAWAY => lift(
                GoAwayFrame::spec_parse(b, h.length),
                |v| SpecFrame::GoAway(h, v),
            ),
            FrameType::WINDOW_UPDATE => lift(
                WindowUpdateFrame::spec_parse(b, h.length),
                |v| SpecFrame::WindowUpdate(h, v),
            ),
            FrameType::CONTINUATION => lift(
                ContinuationFrame::spec_parse(b, h.length),
                |v| SpecFrame::Continuation(h, v),
            ),
            FrameType::ORIGIN => lift(
                OriginFrame::spec_parse(b, h.length),
                |v| SpecFrame::Origin(h, v),
            ),
            FrameType::ALTSVC => Err(DecodeError::UnsupportedType(h, h.frame_type.spec_code())),
            FrameType::UNKNOWN(_) => Err(
                DecodeError::UnsupportedType(h, h.frame_type.spec_code()),
            ),
        }
    }

    /// What decoding one whole frame from the front of `b` gives.
    pub open spec fn spec_parse(b: Seq<u8>) -> Result<(SpecFrame, Seq<u8>), DecodeError> {
        match FrameHeader::spec_parse(b) {
            Ok((h, rest)) => Self::spec_parse_body(h, rest),
            Err(e) => Err(e),
        }
    }

    /// Decodes the body that `header` announces from the front of `bytes`,
    /// the payload that follows the header.
    pub fn parse_body(header: FrameHeader, bytes: &'a [u8]) -> (r: Result<
        (&'a [u8], Frame<'a>),
        DecodeError,
    >)
        ensures
            decoded(r, Self::spec_parse_body(header, bytes@)),
            consumed(bytes@, r, header.length.spec_length() as nat),
    {
        let length = &header.length;
        let flags = &header.flags;
        match header.frame_type {
            FrameType::DATA => match DataFrame::parse(bytes, length, flags) {
                Ok((t, v)) => Ok((t, Frame::Data(header, v))),
                Err(e) => Err(e),
            },
            FrameType::HEADERS => match HeadersFrame::parse(bytes, length, flags) {
                Ok((t, v)) => Ok((t, Frame::Headers(header, v))),
                Err(e) => Err(e),
            },
            FrameType::PRIORITY => match PriorityFrame::parse(bytes, length) {
                Ok((t, v)) => Ok((t, Frame::Priority(header, v))),
                Err(e) => Err(e),
            },
            FrameType::RST_STREAM => match RstStreamFrame::parse(bytes, length) {
                Ok((t, v)) => Ok((t, Frame::RstStream(header, v))),
                Err(e) => Err(e),
            },
            FrameType::SETTINGS => match SettingsFrame::parse(bytes, length, flags) {
                Ok((t, v)) => Ok((t, Frame::Settings(header, v))),
                Err(e) => Err(e),
            },
            FrameType::PUSH_PROMISE => match PushPromiseFrame::parse(bytes, length, flags) {
                Ok((t, v)) => Ok((t, Frame::PushPromise(header, v))),
                Err(e) => Err(e),
            },
            FrameType::PING => match PingFrame::parse(bytes, length) {
                Ok((t, v)) => Ok((t, Frame::Ping(header, v))),
                Err(e) => Err(e),
            },
            FrameType::GOAWAY => match GoAwayFrame::parse(bytes, length) {
                Ok((t, v)) => Ok((t, Frame::GoAway(header, v))),
                Err(e) => Err(e),
            },
            FrameType::WINDOW_UPDATE => match WindowUpdateFrame::parse(bytes, length) {
                Ok((t, v)) => Ok((t, Frame::WindowUpdate(header, v))),
                Err(e) => Err(e),
            },
            FrameType::CONTINUATION => match ContinuationFrame::parse(bytes, length) {
                Ok((t, v)) => Ok((t, Frame::Continuation(header, v))),
                Err(e) => Err(e),
            },
            FrameType::ORIGIN => match OriginFrame::parse(bytes, length) {
                Ok((t, v)) => Ok((t, Frame::Origin(header, v))),
                Err(e) => Err(e),
            },
            FrameType::ALTSVC => Err(DecodeError::UnsupportedType(header, header.frame_type.code())),
            FrameType::UNKNOWN(_) => Err(
                DecodeError::UnsupportedType(header, header.frame_type.code()),
            ),
        }
    }

    /// Decodes one whole frame, header and body, from the front of `bytes`
    /// and returns the bytes after it with it.
    pub fn parse(bytes: &'a [u8]) -> (r: Result<(&'a [u8], Frame<'a>), DecodeError>)
        ensures
            decoded(r, Self::spec_parse(bytes@)),
            r matches Ok((tail, f)) ==> tail@ == bytes@.skip(
                9 + f@.header().length.spec_length(),
            ),
    {
        let (rest, header) = match FrameHeader::parse(bytes) {
            Ok(x) => x,
            Err(e) => return Err(e),
        };
        let r = Self::parse_body(header, rest);
        proof {
            if let Ok((tail, f)) = &r {
                assert(f@.header() == header);
                assert(tail@ =~= bytes@.skip(9 + header.length.spec_length()));
            }
        }
        r
    }
}

} // verus!
