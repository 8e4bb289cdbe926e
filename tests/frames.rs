use h2_codec::codes::{ErrorCode, FrameType, SettingsParameter};
use h2_codec::flags::Flags;
use h2_codec::frames::{
    ContinuationFrame, DataFrame, DecodeError, Frame, FrameHeader, GoAwayFrame, HeadersFrame,
    OriginEntry, OriginFrame, PingFrame, PriorityFrame, PushPromiseFrame, RstStreamFrame,
    SettingsFrame, SettingsParameterFrame, WindowUpdateFrame,
};
use h2_codec::wire::{
    FrameHeaderLength, StreamDependency, StreamIdentifier, WindowSizeIncrement,
};

fn header(length: u32, frame_type: FrameType, flags: u8, stream: u32) -> FrameHeader {
    FrameHeader {
        length: FrameHeaderLength::from_bits(length),
        frame_type,
        flags: Flags(flags),
        stream_identifier: StreamIdentifier::from_bits(stream),
    }
}

fn round_trip(frame: &Frame) {
    let mut bytes = frame.encode();
    bytes.extend_from_slice(&[0xde, 0xad]);
    let (tail, decoded) = Frame::parse(&bytes).unwrap();
    assert_eq!(&decoded, frame);
    assert_eq!(tail, &[0xde, 0xad]);
}

#[test]
fn nine_byte_header_with_no_payload_leaves_nothing() {
    let bytes = [0x00, 0x00, 0x00, 0x00, 0x00, 0x00, 0x00, 0x00, 0x03];
    let (tail, h) = FrameHeader::parse(&bytes).unwrap();
    assert_eq!(h, header(0, FrameType::DATA, 0, 3));
    assert!(tail.is_empty());
}

#[test]
fn zero_length_data_frame_leaves_one_tail_byte() {
    let bytes = [0x00, 0x00, 0x00, 0x00, 0x00, 0x00, 0x00, 0x00, 0x01, 0x7f];
    let (tail, frame) = Frame::parse(&bytes).unwrap();
    assert_eq!(tail, &[0x7f]);
    let expected_body = DataFrame { pad_length: None, data: &[], padding: None };
    assert_eq!(frame, Frame::Data(header(0, FrameType::DATA, 0, 1), expected_body));
}

#[test]
fn eight_bytes_are_incomplete() {
    let bytes = [0x00, 0x00, 0x10, 0x00, 0x00, 0x00, 0x00, 0x00];
    assert_eq!(FrameHeader::parse(&bytes), Err(DecodeError::Incomplete));
    assert_eq!(Frame::parse(&bytes), Err(DecodeError::Incomplete));
    assert_eq!(FrameHeader::parse(&[]), Err(DecodeError::Incomplete));
}

#[test]
fn header_decodes_the_same_twice() {
    let bytes = [0x00, 0x00, 0x05, 0x02, 0x00, 0x80, 0x00, 0x00, 0x07, 0x01, 0x02];
    let first = FrameHeader::parse(&bytes).unwrap();
    let second = FrameHeader::parse(&bytes).unwrap();
    assert_eq!(first, second);
    assert_eq!(first.0.len(), bytes.len() - 9);
    assert_eq!(first.1.stream_identifier.stream_identifier(), 7);
    assert!(!first.1.stream_identifier.reserved());
    assert_eq!(first.1.stream_identifier.into_bits(), 7);
}

#[test]
fn unknown_frame_type_decodes_and_is_unsupported() {
    let bytes = [0x00, 0x00, 0x02, 0xff, 0x00, 0x00, 0x00, 0x00, 0x01, 0xaa, 0xbb];
    let (tail, h) = FrameHeader::parse(&bytes).unwrap();
    assert_eq!(h.frame_type, FrameType::UNKNOWN(0xff));
    assert_eq!(tail, &[0xaa, 0xbb]);
    assert_eq!(Frame::parse(&bytes), Err(DecodeError::UnsupportedType(h, 0xff)));
}

#[test]
fn altsvc_is_unsupported() {
    let bytes = [0x00, 0x00, 0x00, 0x0a, 0x00, 0x00, 0x00, 0x00, 0x00];
    let h = header(0, FrameType::ALTSVC, 0, 0);
    assert_eq!(Frame::parse(&bytes), Err(DecodeError::UnsupportedType(h, 0x0a)));
}

#[test]
fn unknown_settings_identifier_is_reserved() {
    let payload = [0x00, 0x99, 0x00, 0x00, 0x00, 0x2a, 0x00, 0x04, 0x00, 0x01, 0x00, 0x00];
    let (tail, s) =
        SettingsFrame::parse(&payload, &FrameHeaderLength::from_bits(12), &Flags(0)).unwrap();
    assert!(tail.is_empty());
    let expected = vec![
        SettingsParameterFrame { identifier: SettingsParameter::RESERVED(0x99), value: 42 },
        SettingsParameterFrame {
            identifier: SettingsParameter::SETTINGS_INITIAL_WINDOW_SIZE,
            value: 0x10000,
        },
    ];
    assert_eq!(s.parameters, Some(expected));
}

#[test]
fn settings_ack_has_no_parameters() {
    let payload = [0x00, 0x01, 0x00, 0x00, 0x10, 0x00, 0x00, 0x02, 0x00, 0x00, 0x00, 0x01, 0x33];
    let (tail, s) =
        SettingsFrame::parse(&payload, &FrameHeaderLength::from_bits(12), &Flags(Flags::ACK))
            .unwrap();
    assert_eq!(s.parameters, None);
    assert_eq!(tail, &[0x33]);
    let (_, empty) =
        SettingsFrame::parse(&[], &FrameHeaderLength::from_bits(0), &Flags(Flags::ACK)).unwrap();
    assert_eq!(empty.parameters, None);
}

#[test]
fn settings_of_seven_bytes_are_malformed() {
    let payload = [0x00, 0x01, 0x00, 0x00, 0x10, 0x00, 0x00];
    let r = SettingsFrame::parse(&payload, &FrameHeaderLength::from_bits(7), &Flags(0));
    assert_eq!(r, Err(DecodeError::Malformed));
}

#[test]
fn body_consumes_exactly_the_declared_length() {
    let bytes = [0x61, 0x62, 0x63, 0x64, 0x65];
    let (tail, d) = DataFrame::parse(&bytes, &FrameHeaderLength::from_bits(3), &Flags(0)).unwrap();
    assert_eq!(d.data, &[0x61, 0x62, 0x63]);
    assert_eq!(tail, &[0x64, 0x65]);
    let (tail, c) = ContinuationFrame::parse(&bytes, &FrameHeaderLength::from_bits(5)).unwrap();
    assert_eq!(c.header_block_fragment, &bytes[..]);
    assert!(tail.is_empty());
}

#[test]
fn short_buffer_is_incomplete() {
    let bytes = [0x61, 0x62, 0x63];
    let r = DataFrame::parse(&bytes, &FrameHeaderLength::from_bits(5), &Flags(0));
    assert_eq!(r, Err(DecodeError::Incomplete));
    let r = PingFrame::parse(&bytes, &FrameHeaderLength::from_bits(8));
    assert_eq!(r, Err(DecodeError::Incomplete));
}

#[test]
fn padded_data_subtracts_the_pad_length_byte() {
    let bytes = [0x02, 0x61, 0x62, 0x63, 0x00, 0x00, 0x99];
    let (tail, d) =
        DataFrame::parse(&bytes, &FrameHeaderLength::from_bits(6), &Flags(Flags::PADDED)).unwrap();
    assert_eq!(d.pad_length, Some(2));
    assert_eq!(d.data, &[0x61, 0x62, 0x63]);
    assert_eq!(d.padding, Some(&[0x00u8, 0x00][..]));
    assert_eq!(tail, &[0x99]);
}

#[test]
fn padding_longer_than_the_frame_is_malformed() {
    let bytes = [0x06, 0x61, 0x62, 0x63, 0x00, 0x00];
    let r = DataFrame::parse(&bytes, &FrameHeaderLength::from_bits(6), &Flags(Flags::PADDED));
    assert_eq!(r, Err(DecodeError::Malformed));
    let r = DataFrame::parse(&[], &FrameHeaderLength::from_bits(0), &Flags(Flags::PADDED));
    assert_eq!(r, Err(DecodeError::Malformed));
    let r = HeadersFrame::parse(&bytes, &FrameHeaderLength::from_bits(6), &Flags(Flags::PADDED));
    assert_eq!(r, Err(DecodeError::Malformed));
}

#[test]
fn headers_with_priority_and_padding() {
    let bytes = [0x01, 0x80, 0x00, 0x00, 0x03, 0x0f, 0x82, 0x86, 0x00];
    let flags = Flags(Flags::PADDED | Flags::PRIORITY | Flags::END_HEADERS);
    let (tail, h) = HeadersFrame::parse(&bytes, &FrameHeaderLength::from_bits(9), &flags).unwrap();
    assert!(tail.is_empty());
    assert_eq!(h.pad_length, Some(1));
    let dep = h.stream_dependency.unwrap();
    assert!(dep.exclusive());
    assert_eq!(dep.stream_identifier(), 3);
    assert_eq!(h.weight, Some(0x0f));
    assert_eq!(h.header_block_fragment, &[0x82, 0x86]);
    assert_eq!(h.padding, Some(&[0x00u8][..]));
}

#[test]
fn headers_too_short_for_priority_are_malformed() {
    let bytes = [0x00, 0x00, 0x00, 0x03];
    let r = HeadersFrame::parse(&bytes, &FrameHeaderLength::from_bits(4), &Flags(Flags::PRIORITY));
    assert_eq!(r, Err(DecodeError::Malformed));
}

#[test]
fn push_promise_with_padding() {
    let bytes = [0x02, 0x80, 0x00, 0x00, 0x04, 0x41, 0x00, 0x00];
    let (tail, p) =
        PushPromiseFrame::parse(&bytes, &FrameHeaderLength::from_bits(8), &Flags(Flags::PADDED))
            .unwrap();
    assert!(tail.is_empty());
    assert_eq!(p.pad_length, Some(2));
    assert_eq!(p.promised_stream_identifier.stream_identifier(), 4);
    assert_eq!(p.promised_stream_identifier.into_bits(), 4);
    assert_eq!(p.header_block_fragment, &[0x41]);
    assert_eq!(p.padding, Some(&[0x00u8, 0x00][..]));
    let r = PushPromiseFrame::parse(&bytes, &FrameHeaderLength::from_bits(3), &Flags(0));
    assert_eq!(r, Err(DecodeError::Malformed));
}

#[test]
fn fixed_size_bodies_reject_other_lengths() {
    let bytes = [0u8; 12];
    assert_eq!(
        PriorityFrame::parse(&bytes, &FrameHeaderLength::from_bits(4)),
        Err(DecodeError::Malformed)
    );
    assert_eq!(
        RstStreamFrame::parse(&bytes, &FrameHeaderLength::from_bits(5)),
        Err(DecodeError::Malformed)
    );
    assert_eq!(PingFrame::parse(&bytes, &FrameHeaderLength::from_bits(7)), Err(DecodeError::Malformed));
    assert_eq!(PingFrame::parse(&bytes, &FrameHeaderLength::from_bits(9)), Err(DecodeError::Malformed));
    assert_eq!(
        WindowUpdateFrame::parse(&bytes, &FrameHeaderLength::from_bits(3)),
        Err(DecodeError::Malformed)
    );
    assert_eq!(GoAwayFrame::parse(&bytes, &FrameHeaderLength::from_bits(7)), Err(DecodeError::Malformed));
}

#[test]
fn fixed_size_bodies_decode_their_fields() {
    let (_, p) = PriorityFrame::parse(&[0x00, 0x00, 0x00, 0x05, 0xff], &FrameHeaderLength::from_bits(5)).unwrap();
    assert!(!p.stream_dependency.exclusive());
    assert_eq!(p.stream_dependency.stream_identifier(), 5);
    assert_eq!(p.weight, 0xff);
    let (_, r) = RstStreamFrame::parse(&[0x00, 0x00, 0x00, 0x08], &FrameHeaderLength::from_bits(4)).unwrap();
    assert_eq!(r.error_code, ErrorCode::CANCEL);
    let (_, r) = RstStreamFrame::parse(&[0x00, 0x00, 0x01, 0x00], &FrameHeaderLength::from_bits(4)).unwrap();
    assert_eq!(r.error_code, ErrorCode::UNKNOWN(0x100));
    let ping = [0x01, 0x02, 0x03, 0x04, 0x05, 0x06, 0x07, 0x08];
    let (_, p) = PingFrame::parse(&ping, &FrameHeaderLength::from_bits(8)).unwrap();
    assert_eq!(p.opaque_data, 0x0102030405060708);
    let (_, w) = WindowUpdateFrame::parse(&[0xff, 0xff, 0xff, 0xff], &FrameHeaderLength::from_bits(4)).unwrap();
    assert_eq!(w.window_size_increment.window_size(), 0x7fff_ffff);
    assert!(!w.window_size_increment.reserved());
}

#[test]
fn go_away_with_and_without_debug_data() {
    let bytes = [0x80, 0x00, 0x00, 0x09, 0x00, 0x00, 0x00, 0x0b, 0x68, 0x69];
    let (tail, g) = GoAwayFrame::parse(&bytes, &FrameHeaderLength::from_bits(10)).unwrap();
    assert!(tail.is_empty());
    assert_eq!(g.last_stream_identifier.stream_identifier(), 9);
    assert_eq!(g.last_stream_identifier.into_bits(), 9);
    assert_eq!(g.error_code, ErrorCode::ENHANCE_YOUR_CALM);
    assert_eq!(g.debug_data, Some(&[0x68u8, 0x69][..]));
    let (tail, g) = GoAwayFrame::parse(&bytes, &FrameHeaderLength::from_bits(8)).unwrap();
    assert_eq!(g.debug_data, None);
    assert_eq!(tail, &[0x68, 0x69]);
}

#[test]
fn origin_entry_decodes_its_text() {
    let bytes = [0x00, 0x03, 0x61, 0x2e, 0x62];
    let (tail, o) = OriginFrame::parse(&bytes, &FrameHeaderLength::from_bits(5)).unwrap();
    assert!(tail.is_empty());
    let e = o.origin_entry.unwrap();
    assert_eq!(e.origin_length, 3);
    assert_eq!(e.ascii_origin, Some("a.b"));
    let (_, o) = OriginFrame::parse(&[], &FrameHeaderLength::from_bits(0)).unwrap();
    assert_eq!(o.origin_entry, None);
    let (_, o) = OriginFrame::parse(&[0x00, 0x00], &FrameHeaderLength::from_bits(2)).unwrap();
    assert_eq!(o.origin_entry, Some(OriginEntry { origin_length: 0, ascii_origin: None }));
}

#[test]
fn origin_entry_rejects_bad_text_and_lengths() {
    let bad_utf8 = [0x00, 0x02, 0xc3, 0x28];
    assert_eq!(
        OriginFrame::parse(&bad_utf8, &FrameHeaderLength::from_bits(4)),
        Err(DecodeError::Malformed)
    );
    let short = [0x00, 0x05, 0x61];
    assert_eq!(
        OriginFrame::parse(&short, &FrameHeaderLength::from_bits(3)),
        Err(DecodeError::Malformed)
    );
    assert_eq!(
        OriginFrame::parse(&[0x00], &FrameHeaderLength::from_bits(1)),
        Err(DecodeError::Malformed)
    );
}

#[test]
fn header_encodes_to_nine_bytes() {
    let h = header(256, FrameType::HEADERS, 0xff, 2);
    let mut out = Vec::new();
    h.encode(&mut out);
    assert_eq!(out, vec![0x00, 0x01, 0x00, 0x01, 0xff, 0x00, 0x00, 0x00, 0x02]);
}

#[test]
fn every_frame_kind_round_trips() {
    let data = [0x61u8, 0x62, 0x63];
    let pad = [0x00u8, 0x00];
    round_trip(&Frame::Data(
        header(6, FrameType::DATA, Flags::PADDED | Flags::END_STREAM, 1),
        DataFrame { pad_length: Some(2), data: &data, padding: Some(&pad) },
    ));
    round_trip(&Frame::Headers(
        header(9, FrameType::HEADERS, Flags::PRIORITY | Flags::END_HEADERS, 3),
        HeadersFrame {
            pad_length: None,
            stream_dependency: Some(StreamDependency::new(true, 1)),
            weight: Some(16),
            header_block_fragment: &[0x82, 0x86, 0x84, 0x41],
            padding: None,
        },
    ));
    round_trip(&Frame::Priority(
        header(5, FrameType::PRIORITY, 0, 3),
        PriorityFrame { stream_dependency: StreamDependency::from_bits(7), weight: 200 },
    ));
    round_trip(&Frame::RstStream(
        header(4, FrameType::RST_STREAM, 0, 3),
        RstStreamFrame { error_code: ErrorCode::REFUSED_STREAM },
    ));
    round_trip(&Frame::Settings(
        header(12, FrameType::SETTINGS, 0, 0),
        SettingsFrame {
            parameters: Some(vec![
                SettingsParameterFrame {
                    identifier: SettingsParameter::SETTINGS_MAX_FRAME_SIZE,
                    value: 16384,
                },
                SettingsParameterFrame { identifier: SettingsParameter::RESERVED(0x99), value: 1 },
            ]),
        },
    ));
    round_trip(&Frame::Settings(
        header(0, FrameType::SETTINGS, Flags::ACK, 0),
        SettingsFrame { parameters: None },
    ));
    round_trip(&Frame::PushPromise(
        header(7, FrameType::PUSH_PROMISE, Flags::PADDED, 1),
        PushPromiseFrame {
            pad_length: Some(1),
            promised_stream_identifier: StreamIdentifier::from_bits(2),
            header_block_fragment: &[0x41],
            padding: Some(&[0x00]),
        },
    ));
    round_trip(&Frame::Ping(
        header(8, FrameType::PING, Flags::ACK, 0),
        PingFrame { opaque_data: 0x1122334455667788 },
    ));
    round_trip(&Frame::GoAway(
        header(10, FrameType::GOAWAY, 0, 0),
        GoAwayFrame {
            last_stream_identifier: StreamIdentifier::from_bits(5),
            error_code: ErrorCode::UNKNOWN(0x42),
            debug_data: Some(&[0x68, 0x69]),
        },
    ));
    round_trip(&Frame::WindowUpdate(
        header(4, FrameType::WINDOW_UPDATE, 0, 1),
        WindowUpdateFrame { window_size_increment: WindowSizeIncrement::from_bits(65535) },
    ));
    round_trip(&Frame::Continuation(
        header(2, FrameType::CONTINUATION, Flags::END_HEADERS, 1),
        ContinuationFrame { header_block_fragment: &[0x01, 0x02] },
    ));
    round_trip(&Frame::Origin(
        header(21, FrameType::ORIGIN, 0, 0),
        OriginFrame {
            origin_entry: Some(OriginEntry {
                origin_length: 19,
                ascii_origin: Some("https://example.com"),
            }),
        },
    ));
}

#[test]
fn codes_convert_both_ways() {
    assert_eq!(ErrorCode::from(0x0), ErrorCode::NO_ERROR);
    assert_eq!(ErrorCode::from(0xd), ErrorCode::HTTP_1_1_REQUIRED);
    assert_eq!(ErrorCode::from(0xe), ErrorCode::UNKNOWN(0xe));
    assert_eq!(ErrorCode::FRAME_SIZE_ERROR.code(), 0x6);
    assert_eq!(FrameType::from(0x9), FrameType::CONTINUATION);
    assert_eq!(FrameType::from(0xb), FrameType::UNKNOWN(0xb));
    assert_eq!(FrameType::from(0xc), FrameType::ORIGIN);
    assert_eq!(FrameType::ORIGIN.code(), 0xc);
    assert_eq!(FrameType::default(), FrameType::DATA);
    assert_eq!(SettingsParameter::from(0x3), SettingsParameter::SETTINGS_MAX_CONCURRENT_STREAMS);
    assert_eq!(SettingsParameter::from(0x7), SettingsParameter::RESERVED(0x7));
    assert_eq!(SettingsParameter::default(), SettingsParameter::RESERVED(0));
    assert_eq!(SettingsParameter::SETTINGS_MAX_HEADER_LIST_SIZE.code(), 0x6);
}

#[test]
fn words_mask_their_reserved_bits() {
    assert_eq!(FrameHeaderLength::from_bits(0xff00_0010).length(), 16);
    assert_eq!(FrameHeaderLength::from_bits(0xff00_0010).into_bits(), 0xff00_0010);
    let s = StreamIdentifier::from_bits(0x8000_0001);
    assert_eq!(s.stream_identifier(), 1);
    assert!(s.reserved());
    let d = StreamDependency::new(false, 0x7fff_ffff);
    assert!(!d.exclusive());
    assert_eq!(d.into_bits(), 0x7fff_ffff);
    assert_eq!(StreamDependency::new(true, 0).into_bits(), 0x8000_0000);
    assert_eq!(WindowSizeIncrement::from_bits(0x8000_0010).window_size(), 16);
}

#[test]
fn reserved_stream_bit_is_ignored() {
    let clear = [0x00, 0x00, 0x00, 0x04, 0x01, 0x00, 0x00, 0x00, 0x05];
    let set = [0x00, 0x00, 0x00, 0x04, 0x01, 0x80, 0x00, 0x00, 0x05];
    let (t1, h1) = FrameHeader::parse(&clear).unwrap();
    let (t2, h2) = FrameHeader::parse(&set).unwrap();
    assert_eq!(h1, h2);
    assert_eq!(t1.len(), t2.len());
    assert_eq!(h2.stream_identifier, StreamIdentifier::from_bits(5));
}

#[test]
fn declared_length_under_the_minimum_is_malformed_before_incomplete() {
    let two = [0x00, 0x00];
    assert_eq!(
        PriorityFrame::parse(&two, &FrameHeaderLength::from_bits(4)),
        Err(DecodeError::Malformed)
    );
    assert_eq!(
        RstStreamFrame::parse(&two, &FrameHeaderLength::from_bits(3)),
        Err(DecodeError::Malformed)
    );
    assert_eq!(PingFrame::parse(&two, &FrameHeaderLength::from_bits(7)), Err(DecodeError::Malformed));
    assert_eq!(
        WindowUpdateFrame::parse(&two, &FrameHeaderLength::from_bits(3)),
        Err(DecodeError::Malformed)
    );
    assert_eq!(GoAwayFrame::parse(&two, &FrameHeaderLength::from_bits(7)), Err(DecodeError::Malformed));
    assert_eq!(
        HeadersFrame::parse(&two, &FrameHeaderLength::from_bits(4), &Flags(Flags::PRIORITY)),
        Err(DecodeError::Malformed)
    );
    assert_eq!(
        PushPromiseFrame::parse(&two, &FrameHeaderLength::from_bits(3), &Flags(0)),
        Err(DecodeError::Malformed)
    );
    assert_eq!(OriginFrame::parse(&[], &FrameHeaderLength::from_bits(1)), Err(DecodeError::Malformed));
    assert_eq!(
        PriorityFrame::parse(&two, &FrameHeaderLength::from_bits(5)),
        Err(DecodeError::Incomplete)
    );
    assert_eq!(
        PriorityFrame::parse(&two, &FrameHeaderLength::from_bits(6)),
        Err(DecodeError::Incomplete)
    );
}
