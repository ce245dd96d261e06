use bytes::BytesMut;
use s7client::client::{Area as ClientArea, BitAddr, ConnectMode, ConnectionType, DataSizeType,
    Error as ClientError};
use s7client::copt::{CoptDecoder, CoptEncoder, CoptFrame, Error as CoptError, TpduSize};
use s7client::s7_comm::{
    Address, Area, DataItemVal, Error as S7Error, Frame, ItemRequest, ReturnCode, S7CommDecoder,
    S7CommEncoder, TransportType,
};
use s7client::session::{
    build_copt_connect_request, build_framed_copt_connect_request, build_framed_s7_read,
    build_framed_s7_setup, build_framed_s7_write_bit, build_framed_s7_write_bytes, build_s7_read,
    build_s7_setup, build_s7_write, can_operate, handle_connect_confirm, handle_read_response,
    handle_setup_ack, handle_write_response, transition, Builder, SessionEvent, SessionState,
};
use s7client::tpkt::{TpktDecoder, TpktFrame};

/// The address packing round-trips over the full bit range and hits
/// the documented example exactly.
#[test]
fn address_round_trip_samples() {
    for byte_addr in [0u16, 1, 2, 255, 256, 300, 4095, 30000, 65535] {
        for bit_addr in 0u8..8 {
            let a = Address { byte_addr, bit_addr };
            let b = a.to_bytes();
            let back = Address::from_bytes(b[0], b[1], b[2]);
            assert_eq!(back, a);
        }
    }
    let addr = Address { byte_addr: 300, bit_addr: 0 };
    assert_eq!(addr.to_bytes(), [0, 9, 0x60]);
}

/// The setup Job encodes to the documented byte string.
#[test]
fn setup_job_exact_bytes() {
    let expected: [u8; 18] = [
        0x32, 0x01, 0x00, 0x00, 0x04, 0x00, 0x00, 0x08, 0x00, 0x00, 0xf0, 0x00, 0x00, 0x01, 0x00,
        0x01, 0x01, 0xe0,
    ];
    let frame = Frame::job_setup(1024)
        .max_amq_calling(1)
        .max_amq_called(1)
        .pdu_length(480)
        .build();
    let mut dst = BytesMut::new();
    assert!(S7CommEncoder.encode(frame, &mut dst).is_ok());
    assert_eq!(dst.as_ref(), expected.as_ref());
}

/// The framed setup exchange of the session produces the same bytes
/// with TPKT and COTP wrapping (scenario of the Data Transfer wrap).
#[test]
fn framed_setup_exact_bytes() {
    let expected: [u8; 25] = [
        0x03, 0x00, 0x00, 0x19, 0x02, 0xf0, 0x80, 0x32, 0x01, 0x00, 0x00, 0x04, 0x00, 0x00, 0x08,
        0x00, 0x00, 0xf0, 0x00, 0x00, 0x01, 0x00, 0x01, 0x01, 0xe0,
    ];
    let framed = build_framed_s7_setup(1024, 480).unwrap();
    assert_eq!(framed.as_ref(), expected.as_ref());
    let framed2 = build_s7_setup()
        .pdu_ref(1024)
        .max_amq_calling(1)
        .max_amq_called(1)
        .pdu_length(480)
        .build_to_request()
        .unwrap();
    assert_eq!(framed2.as_ref(), expected.as_ref());
    let framed3 = Builder::build_copt_setup()
        .pdu_ref(1024)
        .max_amq_calling(1)
        .max_amq_called(1)
        .pdu_length(480)
        .build_to_request()
        .unwrap();
    assert_eq!(framed3.as_ref(), expected.as_ref());
}

/// The framed Connect Request from TSAP mode matches the documented
/// byte string.
#[test]
fn framed_connect_request_exact_bytes() {
    let expected: [u8; 22] = [
        0x03, 0x00, 0x00, 0x16, 0x11, 0xe0, 0x00, 0x00, 0x00, 0x01, 0x00, 0xc0, 0x01, 0x0a, 0xc1,
        0x02, 0x01, 0x00, 0xc2, 0x02, 0x02, 0x01,
    ];
    let mode = ConnectMode::init_tsap(ConnectionType::PG, 0x0100, 0x0201);
    let framed = build_framed_copt_connect_request(&mode).unwrap();
    assert_eq!(framed.as_ref(), expected.as_ref());

    let framed2 = build_copt_connect_request()
        .source_ref([0, 1])
        .destination_ref([0, 0])
        .class_and_others(0, false, false)
        .pdu_size(TpduSize::L1024)
        .src_tsap(mode.local_tsap())
        .dst_tsap(mode.remote_tsap())
        .build_to_request()
        .unwrap();
    assert_eq!(framed2.as_ref(), expected.as_ref());
}

/// The single-item ReadVar Job for DB1 at byte 300 encodes exactly.
#[test]
fn read_var_job_exact_bytes() {
    let expected: [u8; 24] = [
        0x32, 0x01, 0x00, 0x00, 0x05, 0x00, 0x00, 0x0e, 0x00, 0x00, 0x04, 0x01, 0x12, 0x0a, 0x10,
        0x02, 0x00, 0x04, 0x00, 0x01, 0x84, 0x00, 0x09, 0x60,
    ];
    let frame = Frame::job_read_var(1280).read_db_bytes(1, 300, 4).build();
    let mut dst = BytesMut::new();
    assert!(S7CommEncoder.encode(frame, &mut dst).is_ok());
    assert_eq!(dst.as_ref(), expected.as_ref());
}

/// The decoded setup acknowledgement carries the granted PDU length.
#[test]
fn setup_ack_decode_values() {
    let bytes: [u8; 20] = [
        0x32, 0x03, 0x00, 0x00, 0x04, 0x00, 0x00, 0x08, 0x00, 0x00, 0x00, 0x00, 0xf0, 0x00, 0x00,
        0x01, 0x00, 0x01, 0x00, 0xf0,
    ];
    let mut src = BytesMut::from(bytes.as_ref());
    let frame = S7CommDecoder.decode(&mut src).unwrap().unwrap();
    let Frame::AckData { header, ack_data } = frame else {
        unreachable!()
    };
    assert_eq!(header.pdu_ref, 1024);
    assert_eq!(header.parameter_len, 8);
    assert_eq!(header.data_len, 0);
    assert_eq!(header.error_class, 0);
    assert_eq!(header.error_code, 0);
    let s7client::s7_comm::AckData::SetupCommunication(setup) = ack_data else {
        unreachable!()
    };
    assert_eq!(setup.pdu_length(), 240);
    assert_eq!(setup.max_amq_calling, 1);
    assert_eq!(setup.max_amq_called, 1);
}

/// A decoded ReadVar acknowledgement carries the read value with its
/// bit-count length field.
#[test]
fn read_var_ack_decode_values() {
    let bytes: [u8; 22] = [
        0x32, 0x03, 0x00, 0x00, 0x05, 0x00, 0x00, 0x02, 0x00, 0x08, 0x00, 0x00, 0x04, 0x01, 0xff,
        0x04, 0x00, 0x20, 0x00, 0x00, 0x00, 0x79,
    ];
    let mut src = BytesMut::from(bytes.as_ref());
    let frame = S7CommDecoder.decode(&mut src).unwrap().unwrap();
    let Frame::AckData { ack_data, .. } = frame else {
        unreachable!()
    };
    let s7client::s7_comm::AckData::ReadVar(rv) = ack_data else {
        unreachable!()
    };
    let items = rv.data_item();
    assert_eq!(items.len(), 1);
    assert!(items[0].return_code.is_ok());
    assert_eq!(items[0].length, 0x20);
    assert_eq!(items[0].data, vec![0x00u8, 0x00, 0x00, 0x79]);
}

/// Splitting a framed byte stream at every boundary and feeding the
/// halves decodes the same frame the whole stream yields, and every
/// partial feed reports "not yet" without consuming anything.
#[test]
fn resumable_decoding_at_every_split() {
    let whole = build_framed_s7_setup(1024, 480).unwrap();
    let mut reference = BytesMut::new();
    reference.extend_from_slice(whole.as_ref());
    let expected = TpktDecoder(CoptDecoder(S7CommDecoder))
        .decode(&mut reference)
        .unwrap()
        .unwrap();

    for cut in 0..whole.len() {
        let mut decoder = TpktDecoder(CoptDecoder(S7CommDecoder));
        let mut buf = BytesMut::new();
        buf.extend_from_slice(&whole.as_ref()[..cut]);
        let first = decoder.decode(&mut buf).unwrap();
        assert!(first.is_none());
        assert_eq!(buf.len(), cut, "a partial feed must not consume bytes");
        buf.extend_from_slice(&whole.as_ref()[cut..]);
        let second = decoder.decode(&mut buf).unwrap().unwrap();
        assert_eq!(second, expected);
        assert_eq!(buf.len(), 0);
    }
}

/// An encoded item request is always twelve bytes wide.
#[test]
fn item_request_width() {
    for (db, area, byte_addr, len) in [
        (None, Area::Merker, 0u16, 1u16),
        (Some(7), Area::DataBlocks, 65535, 200),
        (None, Area::ProcessInput, 300, 4),
    ] {
        let item = ItemRequest::init_byte(db, area, byte_addr, len);
        assert_eq!(item.bytes_len(), 12);
        let frame = Frame::job_read_var(1).add_item(item).build();
        let mut dst = BytesMut::new();
        assert!(S7CommEncoder.encode(frame, &mut dst).is_ok());
        // header 10, function + count 2, then the single item
        assert_eq!(dst.len(), 10 + 2 + 12);
    }
}

/// Class-0 restriction: all seven size codes decode, and the validator
/// flags exactly the two sizes class 0 forbids.
#[test]
fn tpdu_size_class0_validation() {
    let all = [
        (0x07u8, TpduSize::L128, true),
        (0x08, TpduSize::L256, true),
        (0x09, TpduSize::L512, true),
        (0x0a, TpduSize::L1024, true),
        (0x0b, TpduSize::L2048, true),
        (0x0c, TpduSize::L4096, false),
        (0x0d, TpduSize::L8192, false),
    ];
    for (code, size, legal) in all {
        let decoded = TpduSize::try_from_code(code).unwrap();
        assert_eq!(decoded, size);
        assert_eq!(decoded.valid_in_class0(), legal);
        assert_eq!(size.code(), code);
    }
    assert_eq!(
        TpduSize::try_from_code(0x06),
        Err(CoptError::UnsupportedTpduSize(0x06))
    );
}

/// Unknown tag bytes survive a decode and re-encode byte-identically
/// through the catch-all variants.
#[test]
fn unknown_tags_round_trip() {
    // an item request with unknown syntax, transport size and area
    let bytes: [u8; 24] = [
        0x32, 0x01, 0x00, 0x00, 0x05, 0x00, 0x00, 0x0e, 0x00, 0x00, 0x04, 0x01, 0x12, 0x0a, 0x77,
        0x55, 0x00, 0x04, 0x00, 0x01, 0x66, 0x00, 0x09, 0x60,
    ];
    let mut src = BytesMut::from(bytes.as_ref());
    let frame = S7CommDecoder.decode(&mut src).unwrap().unwrap();
    let mut dst = BytesMut::new();
    assert!(S7CommEncoder.encode(frame, &mut dst).is_ok());
    assert_eq!(dst.as_ref(), bytes.as_ref());
}

/// Each decoder error names the offending byte.
#[test]
fn decoder_error_variants() {
    // unknown ROSCTR
    let bytes: [u8; 10] = [0x32, 0x07, 0, 0, 0, 0, 0, 0, 0, 0];
    let mut src = BytesMut::from(bytes.as_ref());
    assert_eq!(
        S7CommDecoder.decode(&mut src),
        Err(S7Error::UnsupportedRosctr(7))
    );

    // unknown function code inside a Job
    let bytes: [u8; 11] = [0x32, 0x01, 0, 0, 0, 0, 0, 1, 0, 0, 0x99];
    let mut src = BytesMut::from(bytes.as_ref());
    assert_eq!(
        S7CommDecoder.decode(&mut src),
        Err(S7Error::UnsupportedFunction(0x99))
    );

    // unknown return code in a WriteVar AckData response
    let bytes: [u8; 15] = [
        0x32, 0x03, 0, 0, 0, 0, 0, 2, 0, 1, 0, 0, 0x05, 0x01, 0x42,
    ];
    let mut src = BytesMut::from(bytes.as_ref());
    assert_eq!(
        S7CommDecoder.decode(&mut src),
        Err(S7Error::UnsupportedReturnCode(0x42))
    );

    // unknown COTP PDU code
    let bytes: [u8; 3] = [0x02, 0xaa, 0x00];
    let mut src = BytesMut::from(bytes.as_ref());
    assert_eq!(
        CoptDecoder(S7CommDecoder).decode(&mut src),
        Err(CoptError::UnsupportedPduType(0xaa))
    );

    // a frame followed by the first byte of the next one: the decoder
    // takes exactly the advertised frame and leaves the rest buffered
    let bytes: [u8; 21] = [
        0x32, 0x03, 0x00, 0x00, 0x04, 0x00, 0x00, 0x08, 0x00, 0x00, 0x00, 0x00, 0xf0, 0x00, 0x00,
        0x01, 0x00, 0x01, 0x00, 0xf0, 0xee,
    ];
    let mut src = BytesMut::from(bytes.as_ref());
    assert!(S7CommDecoder.decode(&mut src).unwrap().is_some());
    assert_eq!(src.as_ref(), &[0xee]);

    // a TPKT length field wider than the frames inside it is fatal
    let bytes: [u8; 28] = [
        0x03, 0x00, 0x00, 0x1c, 0x02, 0xf0, 0x80, 0x32, 0x03, 0x00, 0x00, 0x04, 0x00, 0x00, 0x08,
        0x00, 0x00, 0x00, 0x00, 0xf0, 0x00, 0x00, 0x01, 0x00, 0x01, 0x00, 0xf0, 0xee,
    ];
    let mut src = BytesMut::from(bytes.as_ref());
    assert_eq!(
        TpktDecoder(CoptDecoder(S7CommDecoder)).decode(&mut src),
        Err(s7client::tpkt::Error::Payload(CoptError::Payload(
            S7Error::LengthMismatch
        )))
    );
}

/// Pad bytes: in a multi-item write the odd-length non-final item is
/// padded, the final one is not, and the decode consumes the pads.
#[test]
fn write_var_padding_round_trip() {
    let frame = Frame::job_write_var(9)
        .write_bytes(Some(2), Area::DataBlocks, 0, &[0xaa, 0xbb, 0xcc])
        .write_bytes(None, Area::Merker, 4, &[0x11])
        .build();
    let mut dst = BytesMut::new();
    assert!(S7CommEncoder.encode(frame, &mut dst).is_ok());
    // data section: (4 + 3 + 1 pad) + (4 + 1, unpadded) = 13 bytes
    let header_data_len = u16::from_be_bytes([dst.as_ref()[8], dst.as_ref()[9]]);
    assert_eq!(header_data_len, 13);
    assert_eq!(dst.len(), 10 + 2 + 24 + 13);

    let mut src = BytesMut::from(dst.as_ref());
    let decoded = S7CommDecoder.decode(&mut src).unwrap().unwrap();
    let Frame::Job { header, job } = decoded else {
        unreachable!()
    };
    assert_eq!(header.data_len, 13);
    let s7client::s7_comm::Job::WriteVar(w) = job else {
        unreachable!()
    };
    assert_eq!(w.data_item[0].data, vec![0xaa, 0xbb, 0xcc]);
    assert_eq!(w.data_item[1].data, vec![0x11]);
}

/// TSAP derivation from both connect modes.
#[test]
fn connect_mode_tsaps() {
    let tsap = ConnectMode::init_tsap(ConnectionType::Basic, 0x1234, 0xabcd);
    assert_eq!(tsap.local_tsap(), [0x12, 0x34]);
    assert_eq!(tsap.remote_tsap(), [0xab, 0xcd]);
    assert_eq!(tsap.conn_type().code(), 3);

    let rack_slot = ConnectMode::init_rack_slot(ConnectionType::OP, 0, 2);
    assert_eq!(rack_slot.local_tsap(), [0x01, 0x00]);
    assert_eq!(rack_slot.remote_tsap(), [0x02, 0x02]);

    let rack_slot = ConnectMode::init_rack_slot(ConnectionType::PG, 1, 3);
    assert_eq!(rack_slot.remote_tsap(), [0x01, (1 << 5) | 3]);
}

/// The client area selectors project onto the documented S7 triples.
#[test]
fn area_projection() {
    let ds = DataSizeType::Byte { addr: 300, len: 4 };
    let item: ItemRequest = ClientArea::DataBausteine(5, ds).into();
    assert_eq!(item, ItemRequest::init_byte(Some(5), Area::DataBlocks, 300, 4));

    let item: ItemRequest = ClientArea::V(ds).into();
    assert_eq!(item, ItemRequest::init_byte(Some(1), Area::DataBlocks, 300, 4));

    let item: ItemRequest = ClientArea::Merker(ds).into();
    assert_eq!(item, ItemRequest::init_byte(None, Area::Merker, 300, 4));

    let bit = DataSizeType::Bit { addr: 10, bit_addr: BitAddr::Addr5 };
    let item: ItemRequest = ClientArea::ProcessInput(bit).into();
    assert_eq!(item, ItemRequest::init_bit(None, Area::ProcessInput, 10, 5));
    assert_eq!(bit.len(), 1);

    let item: ItemRequest = ClientArea::ProcessOutput(bit).into();
    assert_eq!(item.bytes_len(), 12);
    assert_eq!(ClientArea::ProcessOutput(bit).area_data(), Area::ProcessOutput);
    assert_eq!(ClientArea::ProcessOutput(bit).db_number(), 0);
}

/// Bit addresses outside 0..=7 are rejected with their value.
#[test]
fn bit_addr_validation() {
    assert_eq!(BitAddr::try_from(5).unwrap().code(), 5);
    assert_eq!(BitAddr::try_from(8), Err(ClientError::InvalidBitAddr(8)));
    assert_eq!(
        BitAddr::try_from(300),
        Err(ClientError::InvalidBitAddr(300))
    );
    match build_framed_s7_write_bit(1, Some(1), Area::DataBlocks, 0, 9, true) {
        Err(ClientError::InvalidBitAddr(9)) => {},
        _ => unreachable!(),
    }
}

/// A bit write produces the bit-transport data item with length one.
#[test]
fn write_bit_exact_bytes() {
    let framed = build_framed_s7_write_bit(1, Some(1), Area::DataBlocks, 2, 3, true).unwrap();
    let body = &framed.as_ref()[7..];
    // data section starts after header(10) + function/count(2) + item(12)
    let data = &body[24..];
    assert_eq!(data, &[0x00, 0x03, 0x00, 0x01, 0x01]);

    let builder = build_s7_write()
        .pdu_ref(1)
        .write_bit(Some(1), Area::DataBlocks, 2, 3, true);
    let framed2 = builder.build().unwrap();
    assert_eq!(framed.as_ref(), framed2.as_ref());
}

/// The framed read of the session serializes the selector list.
#[test]
fn framed_read_bytes() {
    let areas = vec![ClientArea::DataBausteine(
        1,
        DataSizeType::Byte { addr: 300, len: 4 },
    )];
    let framed = build_framed_s7_read(1280, &areas).unwrap();
    let expected_s7: [u8; 24] = [
        0x32, 0x01, 0x00, 0x00, 0x05, 0x00, 0x00, 0x0e, 0x00, 0x00, 0x04, 0x01, 0x12, 0x0a, 0x10,
        0x02, 0x00, 0x04, 0x00, 0x01, 0x84, 0x00, 0x09, 0x60,
    ];
    assert_eq!(&framed.as_ref()[7..], expected_s7.as_ref());

    let framed2 = build_s7_read()
        .pdu_ref(1280)
        .read_db_bytes(1, 300, 4)
        .build()
        .unwrap();
    assert_eq!(framed.as_ref(), framed2.as_ref());
}

/// The connect-confirm handler records the last TPDU size parameter
/// and rejects any other PDU kind.
#[test]
fn connect_confirm_handling() {
    let confirm = CoptFrame::builder_of_connect()
        .class_and_others(0, false, false)
        .push_parameter(s7client::copt::Parameter::new_tpdu_size(TpduSize::L2048))
        .push_parameter(s7client::copt::Parameter::new_tpdu_size(TpduSize::L512))
        .build_to_confirm();
    assert_eq!(handle_connect_confirm(&confirm), Ok(Some(TpduSize::L512)));

    let request = CoptFrame::builder_of_connect()
        .class_and_others(0, false, false)
        .build_to_request();
    assert_eq!(
        handle_connect_confirm(&request),
        Err(ClientError::ConnectError)
    );
}

/// The response handlers accept only the kind each operation expects.
#[test]
fn response_handlers() {
    let bytes: [u8; 23] = [
        0x02, 0xf0, 0x80, 0x32, 0x03, 0x00, 0x00, 0x04, 0x00, 0x00, 0x08, 0x00, 0x00, 0x00, 0x00,
        0xf0, 0x00, 0x00, 0x01, 0x00, 0x01, 0x00, 0xf0,
    ];
    let mut src = BytesMut::from(bytes.as_ref());
    let setup_ack = CoptDecoder(S7CommDecoder).decode(&mut src).unwrap().unwrap();
    assert_eq!(handle_setup_ack(setup_ack), Ok(Some(240)));

    let read_bytes: [u8; 25] = [
        0x02, 0xf0, 0x80, 0x32, 0x03, 0x00, 0x00, 0x05, 0x00, 0x00, 0x02, 0x00, 0x08, 0x00, 0x00,
        0x04, 0x01, 0xff, 0x04, 0x00, 0x20, 0x00, 0x00, 0x00, 0x79,
    ];
    let mut src = BytesMut::from(read_bytes.as_ref());
    let read_ack = CoptDecoder(S7CommDecoder).decode(&mut src).unwrap().unwrap();
    let items = handle_read_response(read_ack).unwrap();
    assert_eq!(items.len(), 1);
    assert_eq!(items[0].data, vec![0x00u8, 0x00, 0x00, 0x79]);

    let mut src = BytesMut::from(read_bytes.as_ref());
    let read_ack = CoptDecoder(S7CommDecoder).decode(&mut src).unwrap().unwrap();
    assert_eq!(
        handle_write_response(read_ack),
        Err(ClientError::ProtocolError)
    );

    let write_bytes: [u8; 18] = [
        0x02, 0xf0, 0x80, 0x32, 0x03, 0x00, 0x00, 0x05, 0x00, 0x00, 0x02, 0x00, 0x01, 0x00, 0x00,
        0x05, 0x01, 0xff,
    ];
    let mut src = BytesMut::from(write_bytes.as_ref());
    let write_ack = CoptDecoder(S7CommDecoder).decode(&mut src).unwrap().unwrap();
    let responses = handle_write_response(write_ack).unwrap();
    assert_eq!(responses.len(), 1);
    assert!(responses[0].return_code.is_ok());
}

/// The session lifecycle only reaches Ready through the ordered
/// handshake, and a failed session stays failed.
#[test]
fn session_lifecycle() {
    let s = SessionState::New;
    let s = transition(s, SessionEvent::ConnectConfirmed);
    assert_eq!(s, SessionState::CoptConnected);
    let s = transition(s, SessionEvent::SetupSent);
    assert_eq!(s, SessionState::S7Setup);
    let s = transition(s, SessionEvent::SetupAcknowledged);
    assert_eq!(s, SessionState::Ready);
    assert!(can_operate(&s));

    let failed = transition(s, SessionEvent::Fault);
    assert_eq!(failed, SessionState::Failed);
    assert!(!can_operate(&failed));
    for e in [
        SessionEvent::ConnectConfirmed,
        SessionEvent::SetupSent,
        SessionEvent::SetupAcknowledged,
        SessionEvent::Fault,
    ] {
        assert_eq!(transition(failed, e), SessionState::Failed);
    }

    // out of order: a setup acknowledgement before the connect fails
    assert_eq!(
        transition(SessionState::New, SessionEvent::SetupAcknowledged),
        SessionState::Failed
    );
}

/// A framed byte write round-trips through the full decoder stack.
#[test]
fn framed_write_round_trip() {
    let framed = build_framed_s7_write_bytes(7, Some(2), Area::DataBlocks, 16, &[1, 2, 3, 4])
        .unwrap();
    let mut src = BytesMut::from(framed.as_ref());
    let frame: TpktFrame = TpktDecoder(CoptDecoder(S7CommDecoder))
        .decode(&mut src)
        .unwrap()
        .unwrap();
    let copt = frame.payload();
    let s7client::copt::PduType::DtData(dt) = copt.pdu_type else {
        unreachable!()
    };
    assert_eq!(dt.tpdu_number(), 0);
    assert!(dt.last_data_unit());
    let Frame::Job { header, job } = dt.payload() else {
        unreachable!()
    };
    assert_eq!(header.pdu_ref, 7);
    assert_eq!(header.parameter_len, 14);
    assert_eq!(header.data_len, 8);
    let s7client::s7_comm::Job::WriteVar(w) = job else {
        unreachable!()
    };
    assert_eq!(w.count, 1);
    assert_eq!(w.data_item[0].data, vec![1, 2, 3, 4]);
    assert_eq!(w.data_item[0].length, 32);
}

/// Miscellaneous tag helpers keep their codes.
#[test]
fn tag_helpers() {
    assert_eq!(TransportType::from_code(4), TransportType::Float);
    assert_eq!(TransportType::from_code(9), TransportType::NotSupport(9));
    assert_eq!(TransportType::Word.code(), 2);
    assert!(ReturnCode::Success.is_ok());
    assert!(!ReturnCode::Reserved.is_ok());
    assert_eq!(ReturnCode::try_from_code(0x0a).unwrap().code(), 0x0a);
    assert_eq!(TpduSize::L1024.pdu_ref(), 1024);
    assert_eq!(ConnectionType::default(), ConnectionType::OP);
    let v = DataItemVal::init_with_bit(ReturnCode::Reserved, false);
    assert_eq!(v.data, vec![0u8]);
    assert_eq!(v.length, 1);
    let v = DataItemVal::init_with_bytes(ReturnCode::Reserved, &[9, 9]);
    assert_eq!(v.length, 16);
    assert_eq!(v.bytes_len(), 6);
}

/// The remaining decoder error variants, one crafted input each.
#[test]
fn decoder_error_variants_more() {
    // COTP connect body shorter than its five fixed bytes
    let bytes: [u8; 4] = [0x03, 0xe0, 0x00, 0x00];
    let mut src = BytesMut::from(bytes.as_ref());
    assert_eq!(
        CoptDecoder(S7CommDecoder).decode(&mut src),
        Err(CoptError::DataNotEnough)
    );

    // a Data Transfer whose header length is not the two bytes of class 0
    let bytes: [u8; 3] = [0x03, 0xf0, 0x80];
    let mut src = BytesMut::from(bytes.as_ref());
    assert_eq!(
        CoptDecoder(S7CommDecoder).decode(&mut src),
        Err(CoptError::LengthMismatch)
    );

    // an unknown parameter tag inside a Connect Request
    let bytes: [u8; 9] = [0x08, 0xe0, 0, 0, 0, 1, 0, 0xc5, 0x00];
    let mut src = BytesMut::from(bytes.as_ref());
    assert_eq!(
        CoptDecoder(S7CommDecoder).decode(&mut src),
        Err(CoptError::UnsupportedParameter(0xc5))
    );

    // a TPDU size parameter that is not exactly one byte wide
    let bytes: [u8; 11] = [0x0a, 0xe0, 0, 0, 0, 1, 0, 0xc0, 0x02, 0x0a, 0x0a];
    let mut src = BytesMut::from(bytes.as_ref());
    assert_eq!(
        CoptDecoder(S7CommDecoder).decode(&mut src),
        Err(CoptError::InvalidParameterLength(2))
    );

    // a TPDU size byte outside the defined codes
    let bytes: [u8; 10] = [0x09, 0xe0, 0, 0, 0, 1, 0, 0xc0, 0x01, 0x05];
    let mut src = BytesMut::from(bytes.as_ref());
    assert_eq!(
        CoptDecoder(S7CommDecoder).decode(&mut src),
        Err(CoptError::UnsupportedTpduSize(0x05))
    );

    // a TPKT length field smaller than its own header
    let bytes: [u8; 4] = [0x03, 0x00, 0x00, 0x03];
    let mut src = BytesMut::from(bytes.as_ref());
    assert_eq!(
        TpktDecoder(CoptDecoder(S7CommDecoder)).decode(&mut src),
        Err(s7client::tpkt::Error::InvalidLength)
    );

    // a TPKT frame that cuts its S7 payload short: fatal inside the body
    let bytes: [u8; 17] = [
        0x03, 0x00, 0x00, 0x11, 0x02, 0xf0, 0x80, 0x32, 0x03, 0x00, 0x00, 0x04, 0x00, 0x00, 0x08,
        0x00, 0x00,
    ];
    let mut src = BytesMut::from(bytes.as_ref());
    assert_eq!(
        TpktDecoder(CoptDecoder(S7CommDecoder)).decode(&mut src),
        Err(s7client::tpkt::Error::Payload(CoptError::Payload(
            S7Error::DataNotEnough
        )))
    );
}

/// A setup acknowledgement handler lets an unrelated Data Transfer
/// payload pass without an update, and rejects other PDU kinds.
#[test]
fn setup_ack_other_payloads() {
    let read_bytes: [u8; 25] = [
        0x02, 0xf0, 0x80, 0x32, 0x03, 0x00, 0x00, 0x05, 0x00, 0x00, 0x02, 0x00, 0x08, 0x00, 0x00,
        0x04, 0x01, 0xff, 0x04, 0x00, 0x20, 0x00, 0x00, 0x00, 0x79,
    ];
    let mut src = BytesMut::from(read_bytes.as_ref());
    let frame = CoptDecoder(S7CommDecoder).decode(&mut src).unwrap().unwrap();
    assert_eq!(handle_setup_ack(frame), Ok(None));

    let request = CoptFrame::builder_of_connect()
        .class_and_others(0, false, false)
        .build_to_request();
    assert_eq!(handle_setup_ack(request), Err(ClientError::ConnectError));
}
