use smog::header::{ConnectionId, HeaderError, LongHeader, LongPacketType, ShortHeader, Version};

#[test]
fn round_trip_long() {
    let hdr = LongHeader {
        packet_type: LongPacketType::Initial,
        version: Version(0x00000001),
        dst_cid: ConnectionId { cid: vec![1, 2, 3, 4] },
        src_cid: ConnectionId { cid: vec![5, 6] },
        packet_number: 0x12345678,
        payload: b"hello".to_vec(),
    };
    let mut buf = Vec::new();
    hdr.write(&mut buf);
    let parsed = LongHeader::try_from(&buf[..]).unwrap();
    assert_eq!(hdr, parsed);
}

#[test]
fn round_trip_short() {
    let hdr = ShortHeader {
        key_phase: true,
        dst_cid: ConnectionId { cid: vec![9, 8, 7] },
        packet_number: 42,
        payload: b"world".to_vec(),
    };
    let mut buf = Vec::new();
    hdr.write(&mut buf);
    let parsed = ShortHeader::try_from(&buf[..]).unwrap();
    assert_eq!(hdr, parsed);
}

#[test]
fn long_header_bytes() {
    let hdr = LongHeader {
        packet_type: LongPacketType::Handshake,
        version: Version(0xf0f0f2f0),
        dst_cid: ConnectionId { cid: vec![0xaa] },
        src_cid: ConnectionId::empty(),
        packet_number: 7,
        payload: vec![],
    };
    let mut buf = Vec::new();
    hdr.write(&mut buf);
    assert_eq!(buf, vec![0x82, 0xf0, 0xf0, 0xf2, 0xf0, 1, 0xaa, 0, 0, 0, 0, 7]);
}

#[test]
fn short_header_packet_number_widths() {
    for (pn, width, bits) in [(0xffu64, 1, 0x00u8), (0x1234, 2, 0x10), (0x12345678, 4, 0x30)] {
        let hdr = ShortHeader {
            key_phase: false,
            dst_cid: ConnectionId::empty(),
            packet_number: pn,
            payload: vec![1],
        };
        let mut buf = Vec::new();
        hdr.write(&mut buf);
        assert_eq!(buf[0], bits);
        assert_eq!(buf.len(), 2 + width + 1);
        assert_eq!(ShortHeader::try_from(&buf[..]).unwrap(), hdr);
    }
}

#[test]
fn header_errors() {
    assert!(matches!(LongHeader::try_from(&[][..]), Err(HeaderError::BufferTooShort)));
    assert!(matches!(LongHeader::try_from(&[0x00][..]), Err(HeaderError::InvalidPacketType)));
    assert!(matches!(LongHeader::try_from(&[0x84, 0, 0, 0, 1, 0][..]), Err(HeaderError::InvalidPacketType)));
    assert!(matches!(LongHeader::try_from(&[0x80, 0, 0, 0, 1][..]), Err(HeaderError::BufferTooShort)));
    assert!(matches!(LongHeader::try_from(&[0x80, 0, 0, 0, 1, 3, 1][..]), Err(HeaderError::BufferTooShort)));
    assert!(matches!(ShortHeader::try_from(&[0x80][..]), Err(HeaderError::InvalidPacketType)));
    assert!(matches!(ShortHeader::try_from(&[0x00][..]), Err(HeaderError::BufferTooShort)));
    assert!(matches!(ShortHeader::try_from(&[0x20, 0, 1, 2, 3][..]), Err(HeaderError::InvalidPacketType)));
    assert!(matches!(ShortHeader::try_from(&[0x10, 0, 1][..]), Err(HeaderError::BufferTooShort)));
    assert_eq!(LongPacketType::try_from(0x83u8).ok(), Some(LongPacketType::Retry));
    assert!(LongPacketType::try_from(0x05u8).is_err());
    assert_eq!(ConnectionId { cid: vec![1, 2] }.len(), 2);
}
