use h2_codec::flags::Flags;

#[test]
fn test_bitflags() {
    let bytes: &[u8] = &[0x01u8, 0x08, 0x00, 0x01];
    let flag = Flags::read_from_prefix(bytes);
    let (flag, bytes) = flag.unwrap();

    let flag2 = Flags::read_from_prefix(bytes);
    let (flag2, bytes) = flag2.unwrap();

    let flag3 = Flags::read_from_prefix(bytes);
    let (flag3, bytes) = flag3.unwrap();

    let flag4 = Flags::read_from_prefix(bytes);
    let (flag4, _bytes) = flag4.unwrap();

    assert_eq!(Flags(Flags::END_STREAM), flag);
    assert_eq!(Flags(Flags::PADDED), flag2);
    assert_eq!(Flags(Flags::NONE), flag3);
    assert_eq!(Flags(Flags::END_STREAM), flag4);
    assert_eq!(Flags(Flags::ACK), flag4);
}

#[test]
fn flags_read_from_empty_prefix_is_none() {
    let bytes: &[u8] = &[];
    assert!(Flags::read_from_prefix(bytes).is_none());
}

#[test]
fn flags_contains_checks_every_bit() {
    let f = Flags::from(0x2d);
    assert!(f.contains(Flags::END_STREAM));
    assert!(f.contains(Flags::END_HEADERS));
    assert!(f.contains(Flags::PADDED));
    assert!(f.contains(Flags::PRIORITY));
    assert!(f.contains(Flags::PADDED | Flags::PRIORITY));
    assert!(!Flags(Flags::PADDED).contains(Flags::PRIORITY));
    assert!(Flags(Flags::NONE).contains(Flags::NONE));
}

#[test]
fn flags_keep_unassigned_bits() {
    let f = Flags::from_bits_retain(0xd2);
    assert_eq!(f.bits(), 0xd2);
    assert_eq!(Flags::from(0xffu8), Flags(0xff));
}
