//! What holds across calls: decoding undoes encoding, a header decodes the
//! same way every time, and decoders consume exactly what they announce.
use vstd::prelude::*;
use vstd::utf8::{encode_utf8, encode_utf8_decode_utf8, encode_utf8_valid_utf8};

use crate::codes::{
    lemma_error_code_round_trip, lemma_frame_type_round_trip,
    lemma_settings_parameter_round_trip, FrameType, SettingsParameter,
};
use crate::encoders::{header_bytes, opt_seq, settings_bytes, settings_entry_bytes};
use crate::flags::Flags;
use crate::frames::{
    ContinuationFrame, DataFrame, DecodeError, Frame, FrameHeader, GoAwayFrame, HeadersFrame,
    OriginFrame, PingFrame, PriorityFrame, PushPromiseFrame, RstStreamFrame, SettingsFrame,
    SettingsParameterFrame, SpecContinuationFrame, SpecDataFrame, SpecFrame, SpecGoAwayFrame,
    SpecHeadersFrame, SpecOriginFrame, SpecPushPromiseFrame, SpecSettingsFrame, WindowUpdateFrame,
};
use crate::parsers::{framed, header_of, settings_entry, split_padding};
use crate::wire::{
    be16, be16_bytes, be32_bytes, lemma_be16_round_trip, lemma_be24_round_trip,
    lemma_be32_round_trip, lemma_be64_round_trip,
};

verus! {

/// A body followed by `rest` is read whole, and `rest` is left.
proof fn lemma_framed<V>(body: Seq<u8>, rest: Seq<u8>, v: Result<V, DecodeError>)
    ensures
        (body + rest).take(body.len() as int) == body,
        (body + rest).skip(body.len() as int) == rest,
        v matches Ok(x) ==> framed(body + rest, body.len(), v) == Ok::<(V, Seq<u8>), DecodeError>((x, rest)),
{
    assert((body + rest).take(body.len() as int) =~= body);
    assert((body + rest).skip(body.len() as int) =~= rest);
}

/// Padding written after a region is split off again.
proof fn lemma_split_padding(region: Seq<u8>, pad: Option<u8>, padding: Option<Seq<u8>>)
    requires
        padding is Some <==> pad is Some,
        padding matches Some(p) ==> p.len() == pad->0,
    ensures
        split_padding(region + opt_seq(padding), pad) == Some((region, padding)),
{
    if let Some(p) = padding {
        let all = region + p;
        assert(all.take(all.len() - pad->0) =~= region);
        assert(all.skip(all.len() - pad->0) =~= p);
    } else {
        assert(region + Seq::<u8>::empty() =~= region);
    }
}

/// Decoding an encoded DATA body under flags that fit it gives it back.
pub proof fn lemma_data_round_trip(v: SpecDataFrame, flags: Flags)
    requires
        v.wf(flags),
    ensures
        DataFrame::spec_body(v.serialized(), flags) == Ok::<SpecDataFrame, DecodeError>(v),
{
    let p = v.serialized();
    let k: int = if flags.has(Flags::PADDED) { 1 } else { 0 };
    assert(p.skip(k) =~= v.data + opt_seq(v.padding));
    lemma_split_padding(v.data, v.pad_length, v.padding);
}

/// Decoding an encoded HEADERS body under flags that fit it gives it back.
pub proof fn lemma_headers_round_trip(v: SpecHeadersFrame, flags: Flags)
    requires
        v.wf(flags),
    ensures
        HeadersFrame::spec_body(v.serialized(), flags) == Ok::<SpecHeadersFrame, DecodeError>(v),
{
    let p = v.serialized();
    let k: int = if flags.has(Flags::PADDED) { 1 } else { 0 };
    let m: int = if flags.has(Flags::PRIORITY) { k + 5 } else { k };
    if let Some(d) = v.stream_dependency {
        lemma_be32_round_trip(d.0);
        assert(p.subrange(k, k + 4) =~= be32_bytes(d.0));
        assert(p[k + 4] == v.weight->0);
    }
    assert(p.skip(m) =~= v.header_block_fragment + opt_seq(v.padding));
    lemma_split_padding(v.header_block_fragment, v.pad_length, v.padding);
}

/// Decoding an encoded PUSH_PROMISE body under flags that fit it gives it
/// back.
pub proof fn lemma_push_promise_round_trip(v: SpecPushPromiseFrame, flags: Flags)
    requires
        v.wf(flags),
    ensures
        PushPromiseFrame::spec_body(v.serialized(), flags) == Ok::<
            SpecPushPromiseFrame,
            DecodeError,
        >(v),
{
    let p = v.serialized();
    let k: int = if flags.has(Flags::PADDED) { 1 } else { 0 };
    lemma_be32_round_trip(v.promised_stream_identifier.0);
    assert(p.subrange(k, k + 4) =~= be32_bytes(v.promised_stream_identifier.0));
    assert(p.skip(k + 4) =~= v.header_block_fragment + opt_seq(v.padding));
    lemma_split_padding(v.header_block_fragment, v.pad_length, v.padding);
}

/// Decoding an encoded PRIORITY body gives it back.
pub proof fn lemma_priority_round_trip(v: PriorityFrame)
    ensures
        PriorityFrame::spec_body(v.serialized()) == Ok::<PriorityFrame, DecodeError>(v),
{
    lemma_be32_round_trip(v.stream_dependency.0);
    assert(v.serialized().subrange(0, 4) =~= be32_bytes(v.stream_dependency.0));
}

/// Decoding an encoded RST_STREAM body gives it back when its code is
/// well-formed.
pub proof fn lemma_rst_stream_round_trip(v: RstStreamFrame)
    requires
        v.error_code.wf(),
    ensures
        RstStreamFrame::spec_body(v.serialized()) == Ok::<RstStreamFrame, DecodeError>(v),
{
    lemma_be32_round_trip(v.error_code.spec_code());
    lemma_error_code_round_trip(v.error_code);
}

/// Decoding an encoded PING body gives it back.
pub proof fn lemma_ping_round_trip(v: PingFrame)
    ensures
        PingFrame::spec_body(v.serialized()) == Ok::<PingFrame, DecodeError>(v),
{
    lemma_be64_round_trip(v.opaque_data);
}

/// Decoding an encoded WINDOW_UPDATE body gives it back when its reserved
/// bit is clear.
pub proof fn lemma_window_update_round_trip(v: WindowUpdateFrame)
    requires
        v.wf(),
    ensures
        WindowUpdateFrame::spec_body(v.serialized()) == Ok::<WindowUpdateFrame, DecodeError>(v),
{
    lemma_be32_round_trip(v.window_size_increment.0);
}

/// Decoding an encoded GOAWAY body gives it back when it is well-formed.
pub proof fn lemma_go_away_round_trip(v: SpecGoAwayFrame)
    requires
        v.wf(),
    ensures
        GoAwayFrame::spec_body(v.serialized()) == Ok::<SpecGoAwayFrame, DecodeError>(v),
{
    let p = v.serialized();
    lemma_be32_round_trip(v.last_stream_identifier.0);
    lemma_be32_round_trip(v.error_code.spec_code());
    lemma_error_code_round_trip(v.error_code);
    assert(p.subrange(4, 8) =~= be32_bytes(v.error_code.spec_code()));
    assert(p.skip(8) =~= opt_seq(v.debug_data));
    assert(p.subrange(0, 4) =~= be32_bytes(v.last_stream_identifier.0));
}

/// Decoding an encoded CONTINUATION body gives it back.
pub proof fn lemma_continuation_round_trip(v: SpecContinuationFrame)
    ensures
        ContinuationFrame::spec_body(v.serialized()) == Ok::<SpecContinuationFrame, DecodeError>(
            v,
        ),
{
}

/// Each pair takes six bytes, and the `i`-th six bytes are the `i`-th pair.
proof fn lemma_settings_bytes(ps: Seq<SettingsParameterFrame>)
    ensures
        settings_bytes(ps).len() == 6 * ps.len(),
        forall|i: int|
            0 <= i < ps.len() ==> settings_bytes(ps).subrange(6 * i, 6 * i + 6)
                == settings_entry_bytes(#[trigger] ps[i]),
    decreases ps.len(),
{
    if ps.len() > 0 {
        let init = ps.drop_last();
        lemma_settings_bytes(init);
        let e = ps.last();
        lemma_be16_round_trip(e.identifier.spec_code());
        lemma_be32_round_trip(e.value);
        let a = settings_bytes(init);
        let b = settings_entry_bytes(e);
        assert forall|i: int| 0 <= i < ps.len() implies settings_bytes(ps).subrange(6 * i, 6 * i + 6)
            == settings_entry_bytes(#[trigger] ps[i]) by {
            if i < ps.len() - 1 {
                assert(init[i] == ps[i]);
                assert((a + b).subrange(6 * i, 6 * i + 6) =~= a.subrange(6 * i, 6 * i + 6));
            } else {
                assert((a + b).subrange(6 * i, 6 * i + 6) =~= b);
            }
        }
    }
}

/// Decoding an encoded SETTINGS body under flags that fit it gives it back.
pub proof fn lemma_settings_round_trip(v: SpecSettingsFrame, flags: Flags)
    requires
        v.wf(flags),
    ensures
        SettingsFrame::spec_body(v.serialized(), flags) == Ok::<SpecSettingsFrame, DecodeError>(v),
{
    if let Some(ps) = v.parameters {
        let p = settings_bytes(ps);
        lemma_settings_bytes(ps);
        assert(p.len() / 6 == ps.len());
        assert forall|i: int| 0 <= i < ps.len() implies settings_entry(p, i) == ps[i] by {
            let e = ps[i];
            let unit = p.subrange(6 * i, 6 * i + 6);
            lemma_be16_round_trip(e.identifier.spec_code());
            lemma_be32_round_trip(e.value);
            lemma_settings_parameter_round_trip(e.identifier);
            assert(p.subrange(6 * i, 6 * i + 2) =~= unit.subrange(0, 2));
            assert(unit.subrange(0, 2) =~= be16_bytes(e.identifier.spec_code()));
            assert(p.subrange(6 * i + 2, 6 * i + 6) =~= unit.subrange(2, 6));
            assert(unit.subrange(2, 6) =~= be32_bytes(e.value));
        }
        assert(Seq::new(p.len() / 6, |i: int| settings_entry(p, i)) =~= ps);
    }
}

/// Decoding an encoded ORIGIN body gives it back when its entry is
/// well-formed.
pub proof fn lemma_origin_round_trip(v: SpecOriginFrame)
    requires
        v.origin_entry matches Some(e) ==> e.wf(),
    ensures
        OriginFrame::spec_body(v.serialized()) == Ok::<SpecOriginFrame, DecodeError>(v),
{
    if let Some(e) = v.origin_entry {
        let p = v.serialized();
        lemma_be16_round_trip(e.origin_length);
        assert(p.subrange(0, 2) =~= be16_bytes(e.origin_length));
        assert(be16(p) == be16(be16_bytes(e.origin_length)));
        if let Some(cs) = e.ascii_origin {
            assert(p.skip(2) =~= encode_utf8(cs));
            encode_utf8_valid_utf8(cs);
            encode_utf8_decode_utf8(cs);
        }
    }
}

/// Decoding an encoded header gives it back, with the bytes after it, when
/// its length fits in 24 bits, its reserved stream bit is clear and its type
/// is well-formed.
pub proof fn lemma_header_round_trip(h: FrameHeader, rest: Seq<u8>)
    requires
        h.length.0 < 0x100_0000,
        h.stream_identifier.0 < 0x8000_0000,
        h.frame_type.wf(),
    ensures
        FrameHeader::spec_parse(header_bytes(h) + rest) == Ok::<(FrameHeader, Seq<u8>), DecodeError>(
            (h, rest),
        ),
{
    let b = header_bytes(h) + rest;
    lemma_be24_round_trip(h.length.0);
    lemma_be32_round_trip(h.stream_identifier.0);
    lemma_frame_type_round_trip(h.frame_type);
    assert(b.subrange(5, 9) =~= be32_bytes(h.stream_identifier.0));
    assert(b.skip(9) =~= rest);
    assert(header_of(b) == h);
}

/// The body of a well-formed frame, followed by anything, decodes under the
/// frame's own header to the frame and leaves what follows.
#[verifier::spinoff_prover]
#[verifier::rlimit(50)]
proof fn lemma_body_round_trip(f: SpecFrame, rest: Seq<u8>)
    requires
        f.wf(),
    ensures
        Frame::spec_parse_body(f.header(), f.body_bytes() + rest) == Ok::<
            (SpecFrame, Seq<u8>),
            DecodeError,
        >((f, rest)),
{
    let body = f.body_bytes();
    match f {
        SpecFrame::Data(h, v) => {
            lemma_data_round_trip(v, h.flags);
            lemma_framed(body, rest, DataFrame::spec_body(body, h.flags));
        },
        SpecFrame::Headers(h, v) => {
            lemma_headers_round_trip(v, h.flags);
            lemma_framed(body, rest, HeadersFrame::spec_body(body, h.flags));
        },
        SpecFrame::Priority(h, v) => {
            lemma_priority_round_trip(v);
            lemma_framed(body, rest, PriorityFrame::spec_body(body));
        },
        SpecFrame::RstStream(h, v) => {
            lemma_rst_stream_round_trip(v);
            lemma_framed(body, rest, RstStreamFrame::spec_body(body));
        },
        SpecFrame::Settings(h, v) => {
            lemma_settings_round_trip(v, h.flags);
            lemma_framed(body, rest, SettingsFrame::spec_body(body, h.flags));
        },
        SpecFrame::PushPromise(h, v) => {
            lemma_push_promise_round_trip(v, h.flags);
            lemma_framed(body, rest, PushPromiseFrame::spec_body(body, h.flags));
        },
        SpecFrame::Ping(h, v) => {
            lemma_ping_round_trip(v);
            lemma_framed(body, rest, PingFrame::spec_body(body));
        },
        SpecFrame::GoAway(h, v) => {
            lemma_go_away_round_trip(v);
            lemma_framed(body, rest, GoAwayFrame::spec_body(body));
        },
        SpecFrame::WindowUpdate(h, v) => {
            lemma_window_update_round_trip(v);
            lemma_framed(body, rest, WindowUpdateFrame::spec_body(body));
        },
        SpecFrame::Continuation(h, v) => {
            lemma_continuation_round_trip(v);
            lemma_framed(body, rest, ContinuationFrame::spec_body(body));
        },
        SpecFrame::Origin(h, v) => {
            lemma_origin_round_trip(v);
            lemma_framed(body, rest, OriginFrame::spec_body(body));
        },
    }
}

/// Round trip: decoding the bytes of a well-formed frame, whatever follows
/// them, gives the frame back and leaves exactly the bytes that follow.
pub proof fn lemma_frame_round_trip(f: SpecFrame, rest: Seq<u8>)
    requires
        f.wf(),
    ensures
        Frame::spec_parse(f.serialized() + rest) == Ok::<(SpecFrame, Seq<u8>), DecodeError>(
            (f, rest),
        ),
{
    let h = f.header();
    let body = f.body_bytes();
    assert(f.serialized() + rest =~= header_bytes(h) + (body + rest));
    lemma_header_round_trip(h, body + rest);
    lemma_body_round_trip(f, rest);
}

/// Header decoding is a function of the nine header bytes alone: two
/// buffers that start with the same nine bytes decode to the same header,
/// and each decode consumes exactly those nine bytes.
pub proof fn lemma_header_decode_idempotent(b1: Seq<u8>, b2: Seq<u8>)
    requires
        b1.len() >= 9,
        b2.len() >= 9,
        b1.take(9) == b2.take(9),
    ensures
        FrameHeader::spec_parse(b1) == Ok::<(FrameHeader, Seq<u8>), DecodeError>(
            (header_of(b2), b1.skip(9)),
        ),
        FrameHeader::spec_parse(b2) == Ok::<(FrameHeader, Seq<u8>), DecodeError>(
            (header_of(b2), b2.skip(9)),
        ),
{
    assert forall|k: int| 0 <= k < 9 implies b1[k] == b2[k] by {
        assert(b1.take(9)[k] == b1[k]);
        assert(b2.take(9)[k] == b2[k]);
    }
    assert(b1.subrange(5, 9) =~= b2.subrange(5, 9));
}

/// The payload size of the frame kinds whose body has a fixed layout.
pub open spec fn fixed_payload_size(t: FrameType) -> Option<nat> {
    match t {
        FrameType::PRIORITY => Some(5),
        FrameType::RST_STREAM => Some(4),
        FrameType::PING => Some(8),
        FrameType::WINDOW_UPDATE => Some(4),
        _ => None,
    }
}

/// Length conservation: a body that decodes has consumed exactly the length
/// its header declares. A fixed-layout body declared shorter than its size
/// is `Malformed`, whatever bytes are at hand, and one declared with any
/// other length does not decode.
pub proof fn lemma_length_conservation(h: FrameHeader, b: Seq<u8>)
    ensures
        Frame::spec_parse_body(h, b) matches Ok((_, tail)) ==> tail == b.skip(
            h.length.spec_length() as int,
        ) && b.len() - tail.len() == h.length.spec_length(),
        fixed_payload_size(h.frame_type) matches Some(n) ==> (h.length.spec_length() < n
            ==> Frame::spec_parse_body(h, b) == Err::<(SpecFrame, Seq<u8>), DecodeError>(
            DecodeError::Malformed,
        )),
        fixed_payload_size(h.frame_type) matches Some(n) ==> (h.length.spec_length() != n
            ==> Frame::spec_parse_body(h, b) is Err),
{
}

/// The reserved top bit of the stream word is ignored, never rejected: two
/// buffers that differ only in that bit decode to the same header and leave
/// tails of the same length.
pub proof fn lemma_reserved_stream_bit_ignored(b1: Seq<u8>, b2: Seq<u8>)
    requires
        b1.len() >= 9,
        b2.len() == b1.len(),
        b1[5] % 0x80 == b2[5] % 0x80,
        forall|k: int| 0 <= k < b1.len() && k != 5 ==> b1[k] == b2[k],
    ensures
        FrameHeader::spec_parse(b1) is Ok,
        FrameHeader::spec_parse(b2) is Ok,
        header_of(b1) == header_of(b2),
        b1.skip(9).len() == b2.skip(9).len(),
{
    assert(b1[3] == b2[3] && b1[4] == b2[4]);
    assert(b1[0] == b2[0] && b1[1] == b2[1] && b1[2] == b2[2]);
    assert(b1[6] == b2[6] && b1[7] == b2[7] && b1[8] == b2[8]);
    let r = b1[6] as int * 0x1_0000 + b1[7] as int * 0x100 + b1[8] as int;
    lemma_stream_word_low_bits(b1[5], r);
    lemma_stream_word_low_bits(b2[5], r);
}

/// Of a stream word whose top byte is `top` and whose lower three bytes
/// make `r`, the low 31 bits depend on `top` only through its low 7 bits.
proof fn lemma_stream_word_low_bits(top: u8, r: int)
    requires
        0 <= r < 0x100_0000,
    ensures
        (top as int * 0x100_0000 + r) % 0x8000_0000 == (top % 0x80) as int * 0x100_0000 + r,
{
    let q = top as int / 0x80;
    let m = (top % 0x80) as int;
    assert(top as int == q * 0x80 + m);
    assert(top as int * 0x100_0000 + r == q * 0x8000_0000 + (m * 0x100_0000 + r)) by (
    nonlinear_arith)
        requires
            top as int == q * 0x80 + m,
    ;
    assert(0 <= m * 0x100_0000 + r < 0x8000_0000) by (nonlinear_arith)
        requires
            0 <= m < 0x80,
            0 <= r < 0x100_0000,
    ;
    vstd::arithmetic::div_mod::lemma_mod_multiples_vanish(q, m * 0x100_0000 + r, 0x8000_0000);
    vstd::arithmetic::div_mod::lemma_small_mod((m * 0x100_0000 + r) as nat, 0x8000_0000);
}

/// Values without a name decode: a header whose type byte has no name
/// decodes with the catch-all type, and the dispatcher answers
/// `UnsupportedType` with that header and byte.
pub proof fn lemma_unknown_frame_type(b: Seq<u8>)
    requires
        b.len() >= 9,
        b[3] > 0xa && b[3] != 0xc,
    ensures
        FrameHeader::spec_parse(b) == Ok::<(FrameHeader, Seq<u8>), DecodeError>(
            (header_of(b), b.skip(9)),
        ),
        header_of(b).frame_type == FrameType::UNKNOWN(b[3]),
        Frame::spec_parse(b) == Err::<(SpecFrame, Seq<u8>), DecodeError>(
            DecodeError::UnsupportedType(header_of(b), b[3]),
        ),
{
}

/// A SETTINGS pair whose identifier has no name decodes to the reserved
/// parameter with that identifier, and the frame still decodes.
pub proof fn lemma_unknown_settings_parameter(p: Seq<u8>, flags: Flags, i: int)
    requires
        !flags.has(Flags::ACK),
        p.len() % 6 == 0,
        0 <= i < p.len() / 6,
        ({
            let id = be16(p.subrange(6 * i, 6 * i + 2));
            id == 0 || id > 6
        }),
    ensures
        SettingsFrame::spec_body(p, flags) matches Ok(v) && v.parameters matches Some(ps)
            && ps[i].identifier == SettingsParameter::RESERVED(
            be16(p.subrange(6 * i, 6 * i + 2)),
        ),
{
}

/// Boundaries: fewer than nine bytes are `Incomplete`; a header consumes
/// exactly nine bytes, so nine bytes leave nothing; and a DATA header that
/// announces no payload, without PADDED, leaves every byte after it.
pub proof fn lemma_header_boundaries(b: Seq<u8>)
    ensures
        b.len() < 9 ==> FrameHeader::spec_parse(b) == Err::<(FrameHeader, Seq<u8>), DecodeError>(
            DecodeError::Incomplete,
        ),
        b.len() < 9 ==> Frame::spec_parse(b) == Err::<(SpecFrame, Seq<u8>), DecodeError>(
            DecodeError::Incomplete,
        ),
        b.len() >= 9 ==> (FrameHeader::spec_parse(b) matches Ok((_, t)) && t.len() == b.len()
            - 9),
        b.len() == 9 ==> (FrameHeader::spec_parse(b) matches Ok((_, t)) && t.len() == 0),
        b.len() >= 9 && header_of(b).frame_type == FrameType::DATA
            && header_of(b).length.spec_length() == 0 && !header_of(b).flags.has(Flags::PADDED)
            ==> (Frame::spec_parse(b) matches Ok((_, t)) && t == b.skip(9)),
{
    if b.len() >= 9 {
        let rest = b.skip(9);
        assert(rest.skip(0) =~= rest);
        assert(rest.take(0).skip(0) =~= Seq::<u8>::empty());
        assert(rest.take(0) =~= Seq::<u8>::empty());
    }
}

} // verus!
