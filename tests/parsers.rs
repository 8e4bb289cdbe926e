use h2_codec::codes::FrameType;
use h2_codec::flags::Flags;
use h2_codec::frames::FrameHeader;
use h2_codec::wire::{FrameHeaderLength, StreamIdentifier};

#[test]
fn test_parse_frame_header_from_bytes() {
    let header_0: [u8; 9] = [0x00, 0x00, 0x10, 0x00, 0x00, 0x00, 0x00, 0x00, 0x01];
    let header_1: [u8; 9] = [0x00, 0x01, 0x00, 0x01, 0xFF, 0x00, 0x00, 0x00, 0x02];
    let header_2: [u8; 10] = [0x00, 0x00, 0x10, 0x00, 0x00, 0x00, 0x00, 0x00, 0x01, 0x00];
    let header_3: [u8; 8] = [0x00, 0x00, 0x10, 0x00, 0x00, 0x00, 0x00, 0x00];

    let parsed_header_0 = FrameHeader::parse(&header_0).unwrap_or_default();
    let parsed_header_1 = FrameHeader::parse(&header_1).unwrap_or_default();
    let parsed_header_2 = FrameHeader::parse(&header_2).unwrap_or_default();
    let parsed_header_3 = FrameHeader::parse(&header_3);

    assert_eq!(
        FrameHeader {
            length: FrameHeaderLength::from_bits(16),
            frame_type: FrameType::DATA,
            flags: Flags(Flags::NONE),
            stream_identifier: StreamIdentifier::from_bits(1)
        },
        parsed_header_0.1
    );
    assert_eq!(true, parsed_header_0.0.is_empty());

    assert_eq!(
        FrameHeader {
            length: FrameHeaderLength::from_bits(256),
            frame_type: FrameType::HEADERS,
            flags: Flags(255),
            stream_identifier: StreamIdentifier::from_bits(2)
        },
        parsed_header_1.1
    );
    assert_eq!(true, parsed_header_1.0.is_empty());

    assert_eq!(
        FrameHeader {
            length: FrameHeaderLength::from_bits(16),
            frame_type: FrameType::DATA,
            flags: Flags(Flags::NONE),
            stream_identifier: StreamIdentifier::from_bits(1)
        },
        parsed_header_2.1
    );
    assert_eq!(false, parsed_header_2.0.is_empty());
    assert_eq!(true, parsed_header_3.is_err())
}
