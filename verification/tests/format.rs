use uwb_network::mac::format::frame::{
    self, BuilderError, Content, ContentError, FlattenContent, FrameType, FrameV2Builder, Header, HeaderField,
    ParseError,
};
use uwb_network::mac::format::nested_ie::rd_ie::{self, RangingDescriptor, RangingDescriptorBuilder, RmSubPeriodUsage};
use uwb_network::mac::format::payload_ie::MlmeIeBuilder;
use uwb_network::mac::format::serializer::{ReadBuffer, WriteBuffer};
use uwb_network::mac::format::Address;
use uwb_network::phy::{ExtendedAddress, PanId, ShortAddress, MAX_PSDU_LENGTH};
use uwb_network::psdu::{PsduContainer, StaticPsdu};

fn beacon_header() -> Header {
    Header {
        frame_type: FrameType::Beacon,
        frame_pending: false,
        ack_request: false,
        sequence_number: Some(1),
        destination_pan_id: Some(PanId::new(2)),
        destination_address: Some(Address::Short(ShortAddress::new(3))),
        source_pan_id: Some(PanId::new(4)),
        source_address: Some(Address::Short(ShortAddress::new(5))),
    }
}

#[test]
fn beacon() {
    let header = beacon_header();

    let ranging_descriptor = RangingDescriptor { rbs_duration: 500, beacon_interval: 50_000, first_rcm_slot: None };

    let mut psdu = StaticPsdu::<{ MAX_PSDU_LENGTH as usize }>::new();

    {
        let mut frame_builder = FrameV2Builder::new(psdu.write_buffer(), header).unwrap();
        let mut mlme_builder = MlmeIeBuilder::new(frame_builder.add_payload_ie().unwrap()).unwrap();

        let mut rd_builder =
            RangingDescriptorBuilder::new(mlme_builder.add_nested_ie().unwrap(), ranging_descriptor, false).unwrap();
        rd_builder.add_management_sub_period(RmSubPeriodUsage::Rcap, 16).unwrap();
        rd_builder.add_management_sub_period(RmSubPeriodUsage::Rcfp, 8).unwrap();
        mlme_builder.commit(rd_builder.finish());
        frame_builder.commit(mlme_builder.finish());
        psdu.commit(frame_builder.finish());
    }

    let golden_output = [
        0x00, 0xaa, 0x01, 0x02, 0x00, 0x03, 0x00, 0x04, 0x00, 0x05, 0x00, // MAC Header
        0x00, 0x3f, // HT1 IE
        0x0f, 0x88, // MLME IE Start
        0x0d, 0x5b, // Ranging Descriptor IE Start
        0xe8, 0x03, 0x50, 0xc3, 0x00, 0x00, 0x02, // Ranging Descriptor
        0x01, 0x80, 0x00, // RM Table entry 1
        0x11, 0xc0, 0x40, // RM Table entry 0
    ];

    assert_eq!(psdu.as_slice(), &golden_output);

    let (test_header, mut contents) = frame::parse_frame_flatten(psdu.read_buffer()).unwrap();
    assert_eq!(test_header, header);

    match contents.next().unwrap().unwrap() {
        FlattenContent::ShortNestedIe { sub_id: rd_ie::SUB_ID, payload } => {
            let (test_rd, mut elements) = rd_ie::parse(payload).unwrap();
            assert_eq!(test_rd.rbs_duration, ranging_descriptor.rbs_duration);
            assert_eq!(test_rd.beacon_interval, ranging_descriptor.beacon_interval);
            let element = elements.next().unwrap();
            assert_eq!((element.start(), element.end(), element.usage()), (1, 16, RmSubPeriodUsage::Rcap));
            let element = elements.next().unwrap();
            assert_eq!((element.start(), element.end(), element.usage()), (17, 24, RmSubPeriodUsage::Rcfp));
            assert!(elements.next().is_none());
        }
        _ => {
            panic!("Unexpected content");
        }
    }

    assert!(contents.next().is_none());
}

#[test]
fn header_only_frame_reads_back() {
    let header = Header {
        frame_type: FrameType::Data,
        frame_pending: true,
        ack_request: true,
        sequence_number: None,
        destination_pan_id: Some(PanId::new(0x1234)),
        destination_address: Some(Address::Extended(ExtendedAddress::new(0x0102_0304_0506_0708))),
        source_pan_id: None,
        source_address: Some(Address::Extended(ExtendedAddress::new(0x1112_1314_1516_1718))),
    };
    let builder = FrameV2Builder::new(WriteBuffer::new(127), header).unwrap();
    let buffer = builder.finish();
    let bytes = buffer.as_slice().to_vec();
    let (parsed, mut contents) = frame::parse_frame(ReadBuffer::new(&bytes)).unwrap();
    assert_eq!(parsed, header);
    assert!(contents.next().is_none());
}

#[test]
fn header_ie_and_payload_read_back() {
    let header = Header {
        frame_type: FrameType::Data,
        frame_pending: false,
        ack_request: false,
        sequence_number: Some(7),
        destination_pan_id: Some(PanId::new(0xabcd)),
        destination_address: Some(Address::Short(ShortAddress::new(0x0001))),
        source_pan_id: Some(PanId::new(0xabcd)),
        source_address: Some(Address::Short(ShortAddress::new(0x0002))),
    };
    let mut builder = FrameV2Builder::new(WriteBuffer::new(127), header).unwrap();
    let mut ie = builder.add_header_ie().unwrap();
    let mut descriptor = uwb_network::mac::format::header_ie::Header::default();
    descriptor.set_element_id(0x1a);
    descriptor.set_length(2);
    ie.append_field(descriptor).unwrap();
    ie.append_field(0xbeefu16).unwrap();
    builder.commit(ie);
    let mut payload = builder.add_payload().unwrap();
    // header termination 2 opens the payload after header IEs
    assert_eq!(payload.as_slice(), &[0x80, 0x3f]);
    payload.append_field(0x55u8).unwrap();
    payload.append_field(0x66u8).unwrap();
    builder.commit(payload);
    let bytes = builder.finish().as_slice().to_vec();
    // equal PAN IDs: the source PAN ID is compressed away
    assert_eq!(bytes.len(), 2 + 1 + 2 + 2 + 2 + 4 + 2 + 2);

    let (parsed, mut contents) = frame::parse_frame(ReadBuffer::new(&bytes)).unwrap();
    assert_eq!(parsed, header);
    match contents.next().unwrap().unwrap() {
        Content::HeaderIe { element_id, payload } => {
            assert_eq!(element_id, 0x1a);
            assert_eq!(payload.as_slice(), &[0xef, 0xbe]);
        }
        _ => panic!("expected a header IE"),
    }
    match contents.next().unwrap().unwrap() {
        Content::Payload(payload) => assert_eq!(payload.as_slice(), &[0x55, 0x66]),
        _ => panic!("expected the payload"),
    }
    assert!(contents.next().is_none());
}

#[test]
fn every_kind_of_element_reads_back_in_order() {
    let mut builder = FrameV2Builder::new(WriteBuffer::new(127), beacon_header()).unwrap();
    let mut ie = builder.add_header_ie().unwrap();
    let mut descriptor = uwb_network::mac::format::header_ie::Header::default();
    descriptor.set_element_id(0x1a);
    descriptor.set_length(1);
    ie.append_field(descriptor).unwrap();
    ie.append_field(0x11u8).unwrap();
    builder.commit(ie);
    let mut ie = builder.add_payload_ie().unwrap();
    // header termination 1 opens the payload IEs
    assert_eq!(ie.as_slice(), &[0x00, 0x3f]);
    let mut descriptor = uwb_network::mac::format::payload_ie::Header::default();
    descriptor.set_group_id(0x2);
    descriptor.set_length(2);
    ie.append_field(descriptor).unwrap();
    ie.append_field(0x2233u16).unwrap();
    builder.commit(ie);
    let mut payload = builder.add_payload().unwrap();
    payload.append_field(0x44u8).unwrap();
    builder.commit(payload);
    let bytes = builder.finish().as_slice().to_vec();

    let (parsed, mut contents) = frame::parse_frame(ReadBuffer::new(&bytes)).unwrap();
    assert_eq!(parsed, beacon_header());
    match contents.next().unwrap().unwrap() {
        Content::HeaderIe { element_id, payload } => {
            assert_eq!(element_id, 0x1a);
            assert_eq!(payload.as_slice(), &[0x11]);
        }
        _ => panic!("expected a header IE"),
    }
    match contents.next().unwrap().unwrap() {
        Content::PayloadIe { group_id, payload } => {
            assert_eq!(group_id, 0x2);
            assert_eq!(payload.as_slice(), &[0x33, 0x22]);
        }
        _ => panic!("expected a payload IE"),
    }
    match contents.next().unwrap().unwrap() {
        Content::Payload(payload) => assert_eq!(payload.as_slice(), &[0x44]),
        _ => panic!("expected the payload"),
    }
    assert!(contents.next().is_none());
    assert!(contents.next().is_none());
}

#[test]
fn payload_ie_after_payload_is_refused() {
    let mut builder = FrameV2Builder::new(WriteBuffer::new(127), beacon_header()).unwrap();
    let payload = builder.add_payload().unwrap();
    assert!(payload.as_slice().is_empty());
    let mut payload = payload;
    payload.append_field(1u8).unwrap();
    builder.commit(payload);
    assert_eq!(builder.add_payload_ie().err(), Some(BuilderError::IncorrectElementOrder));
    assert_eq!(builder.add_header_ie().err(), Some(BuilderError::IncorrectElementOrder));
    assert_eq!(builder.add_payload().err(), Some(BuilderError::IncorrectElementOrder));
}

#[test]
fn payload_after_payload_ies_gets_termination() {
    let mut builder = FrameV2Builder::new(WriteBuffer::new(127), beacon_header()).unwrap();
    let mut ie = builder.add_payload_ie().unwrap();
    assert_eq!(ie.as_slice(), &[0x00, 0x3f]);
    let mut descriptor = uwb_network::mac::format::payload_ie::Header::default();
    descriptor.set_group_id(0x2);
    descriptor.set_length(0);
    ie.append_field(descriptor).unwrap();
    builder.commit(ie);
    let payload = builder.add_payload().unwrap();
    assert_eq!(payload.as_slice(), &[0x00, 0xf8]);
}

#[test]
fn multipurpose_frame_is_refused() {
    let mut header = beacon_header();
    header.frame_type = FrameType::Multipurpose;
    assert_eq!(
        FrameV2Builder::new(WriteBuffer::new(127), header).err(),
        Some(BuilderError::IllegalValue(HeaderField::FrameType))
    );
}

#[test]
fn unlisted_addressing_is_refused() {
    let mut header = beacon_header();
    header.destination_address = None;
    header.destination_pan_id = None;
    header.source_pan_id = Some(PanId::new(1));
    header.source_address = None;
    assert_eq!(
        FrameV2Builder::new(WriteBuffer::new(127), header).err(),
        Some(BuilderError::IllegalValue(HeaderField::Addressing))
    );
}

#[test]
fn no_room_for_header() {
    assert_eq!(FrameV2Builder::new(WriteBuffer::new(10), beacon_header()).err(), Some(BuilderError::NoSpaceLeft));
}

#[test]
fn short_frame_is_unexpected_termination() {
    assert_eq!(frame::parse_frame(ReadBuffer::new(&[0x00])).err(), Some(ParseError::UnexpectedTermination));
    assert_eq!(
        frame::parse_frame(ReadBuffer::new(&[0x00, 0xaa, 0x01])).err(),
        Some(ParseError::UnexpectedTermination)
    );
}

#[test]
fn security_is_unsupported() {
    assert_eq!(
        frame::parse_frame(ReadBuffer::new(&[0x08, 0x20])).err(),
        Some(ParseError::UnsupportedValue(HeaderField::SecurityEnable))
    );
}

#[test]
fn reserved_frame_type_is_unsupported() {
    assert_eq!(
        frame::parse_frame(ReadBuffer::new(&[0x05, 0x20])).err(),
        Some(ParseError::UnsupportedValue(HeaderField::FrameType))
    );
}

#[test]
fn reserved_version_is_unsupported() {
    assert_eq!(
        frame::parse_frame(ReadBuffer::new(&[0x00, 0x30])).err(),
        Some(ParseError::UnsupportedValue(HeaderField::FrameVersion))
    );
}

#[test]
fn legacy_frame_without_sequence_number_is_unsupported() {
    // version 1, no addresses, no PAN ID compression, sequence number suppressed
    assert_eq!(
        frame::parse_frame(ReadBuffer::new(&[0x00, 0x11])).err(),
        Some(ParseError::UnsupportedValue(HeaderField::SeqNumSuppression))
    );
}

#[test]
fn legacy_frame_with_ies_is_unsupported() {
    assert_eq!(
        frame::parse_frame(ReadBuffer::new(&[0x00, 0x12, 0x01])).err(),
        Some(ParseError::UnsupportedValue(HeaderField::IePreset))
    );
}

#[test]
fn legacy_compression_without_addresses_is_unsupported() {
    assert_eq!(
        frame::parse_frame(ReadBuffer::new(&[0x40, 0x10, 0x01])).err(),
        Some(ParseError::UnsupportedValue(HeaderField::Addressing))
    );
}

#[test]
fn header_ie_with_type_bit_is_invalid() {
    // version 2, IE present, sequence number suppressed, no addressing
    let bytes = [0x00, 0x23, 0x00, 0x80];
    let (_, mut contents) = frame::parse_frame(ReadBuffer::new(&bytes)).unwrap();
    assert_eq!(contents.next().unwrap().err(), Some(ContentError::InvalidHeaderIe));
    assert!(contents.next().is_none());
}

#[test]
fn cut_header_ie_is_unexpected_termination() {
    let bytes = [0x00, 0x23, 0x05, 0x0d, 0x01];
    let (_, mut contents) = frame::parse_frame(ReadBuffer::new(&bytes)).unwrap();
    assert_eq!(contents.next().unwrap().err(), Some(ContentError::UnexpectedTermination));
    assert!(contents.next().is_none());
}

#[test]
fn slot_duration_takes_all_fifteen_bits() {
    let desc = |rbs_duration: u16| RangingDescriptor { rbs_duration, beacon_interval: 0x1_0000, first_rcm_slot: None };
    let mut buffer = WriteBuffer::new(64);
    let nested = buffer.nested_buffer(64);
    match RangingDescriptorBuilder::new(nested, desc(0x7fff), false) {
        Ok(b) => {
            let bytes = b.finish().as_slice().to_vec();
            // after the nested IE descriptor: the slot duration shifted left by
            // one, over the flag of a beacon interval longer than 16 bits
            assert_eq!(&bytes[2..4], &[0xff, 0xff]);
            let (parsed, _) = rd_ie::parse(ReadBuffer::new(&bytes[2..])).unwrap();
            assert_eq!(parsed.rbs_duration, 0x7fff);
        }
        Err(_) => panic!("a 15-bit slot duration is valid"),
    }
    let nested = buffer.nested_buffer(64);
    assert_eq!(
        RangingDescriptorBuilder::new(nested, desc(0x8000), false).err(),
        Some(rd_ie::BuilderError::InvalidRbsDuration)
    );
    let nested = buffer.nested_buffer(64);
    assert_eq!(
        RangingDescriptorBuilder::new(nested, desc(0), false).err(),
        Some(rd_ie::BuilderError::InvalidRbsDuration)
    );
}

#[test]
fn nested_buffer_commits_into_its_parent() {
    let mut parent = WriteBuffer::new(10);
    assert!(parent.append_field(0x0201u16).is_ok());
    let mut nested = parent.nested_buffer(20);
    assert_eq!(nested.len(), 0);
    assert_eq!(nested.capacity(), 8);
    assert!(nested.append_field(0x0605_0403u32).is_ok());
    // an uncommitted nested buffer leaves its parent as it was
    let untouched = parent.nested_buffer(3);
    assert_eq!(untouched.capacity(), 3);
    drop(untouched);
    assert_eq!(parent.as_slice(), &[0x01, 0x02]);
    nested.commit(&mut parent);
    assert_eq!(parent.len(), 6);
    assert_eq!(parent.as_slice(), &[0x01, 0x02, 0x03, 0x04, 0x05, 0x06]);
}

#[test]
fn field_read_back_after_write() {
    let mut w = WriteBuffer::new(16);
    assert!(w.append_field(0xbeefu16).is_ok());
    assert!(w.append_field(ShortAddress::new(0x1234)).is_ok());
    assert!(w.append_field(0xaau8).is_ok());
    let bytes = w.as_slice().to_vec();
    let mut r = ReadBuffer::new(&bytes);
    assert_eq!(r.pop_field::<u16>().ok(), Some(0xbeef));
    assert_eq!(r.pop_field::<ShortAddress>().ok(), Some(ShortAddress::new(0x1234)));
    assert_eq!(r.len(), 1);
    assert!(r.pop_field::<u16>().is_err());
    assert_eq!(r.len(), 1);
    assert_eq!(r.pop_field::<u8>().ok(), Some(0xaa));
}
