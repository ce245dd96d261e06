use bytes::BytesMut;
use s7client::copt::{CoptDecoder, CoptEncoder, CoptFrame, Parameter, TpduSize};
use s7client::s7_comm::{S7CommDecoder, S7CommEncoder};
use s7client::tpkt::{TpktDecoder, TpktEncoder, TpktFrame};

fn init_copt_connect_request_frame() -> CoptFrame {
    CoptFrame::builder_of_connect()
        .source_ref([0, 1])
        .destination_ref([0, 0])
        .class_and_others(0, false, false)
        .push_parameter(Parameter::new_tpdu_size(TpduSize::L1024))
        .push_parameter(Parameter::new_src_tsap([1u8, 0].to_vec()))
        .push_parameter(Parameter::new_dst_tsap([2u8, 1].to_vec()))
        .build_to_request()
}

fn init_tpkt_frame() -> TpktFrame {
    TpktFrame::new(init_copt_connect_request_frame())
}

fn init_tpkt_frame_bytes() -> &'static [u8] {
    [
        3u8, 0, 0, 0x16, 0x11, 0xe0, 0x00, 0x00, 0x00, 0x01, 0x00, 0xc0, 0x01, 0x0a, 0xc1, 0x02,
        0x01, 0x00, 0xc2, 0x02, 0x02, 0x01,
    ]
    .as_ref()
}

#[test]
fn test_decode() {
    let mut decoder = TpktDecoder(CoptDecoder(S7CommDecoder));
    let mut src = BytesMut::new();
    src.extend_from_slice(init_tpkt_frame_bytes());
    let rs = decoder.decode(&mut src);
    assert!(rs.is_ok());
    if let Ok(Some(frame)) = rs {
        let dst_frame = init_tpkt_frame();
        assert_eq!(dst_frame, frame);
    } else {
        unreachable!()
    }
}

#[test]
fn test_encode() {
    let mut edcoder = TpktEncoder(CoptEncoder(S7CommEncoder));
    let src_frame = init_tpkt_frame();
    let mut dst = BytesMut::new();
    let rs = edcoder.encode(src_frame, &mut dst);
    assert!(rs.is_ok());
    assert_eq!(init_tpkt_frame_bytes(), dst.as_ref())
}

#[test]
fn test_to_bytes() {
    let framed = init_tpkt_frame().to_bytes().unwrap();
    assert_eq!(init_tpkt_frame_bytes(), framed.as_ref());
}

#[test]
fn test_version_mut() {
    let mut frame = init_tpkt_frame();
    frame.version_mut(4);
    let framed = frame.to_bytes().unwrap();
    assert_eq!(framed.as_ref()[0], 4);
}
