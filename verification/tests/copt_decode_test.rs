use bytes::BytesMut;
use s7client::copt::{CoptDecoder, CoptFrame, Parameter, TpduSize};
use s7client::copt_builder::DtDataBuilder;
use s7client::s7_comm::{Frame, S7CommDecoder};

fn init_job_setup_frame() -> Frame {
    Frame::job_setup(1024)
        .max_amq_called(1)
        .max_amq_calling(1)
        .pdu_length(480)
        .build()
}

fn init_copt_dt_data_frame() -> CoptFrame {
    let s7_frame = init_job_setup_frame();
    CoptFrame::builder_of_dt_data(s7_frame).build(0, true)
}

fn init_copt_dt_data_frame_bytes() -> &'static [u8] {
    [
        0x02, 0xf0, 0x80, 0x32, 0x01, 0x00, 0x00, 0x04, 0x00, 0x00, 0x08, 0x00, 0x00, 0xf0, 0x00,
        0x00, 0x01, 0x00, 0x01, 0x01, 0xe0,
    ]
    .as_ref()
}

fn init_copt_connect_request_frame() -> CoptFrame {
    CoptFrame::builder_of_connect()
        .source_ref([0, 1])
        .destination_ref([0, 0])
        .class_and_others(0, false, false)
        .push_parameter(Parameter::new_tpdu_size(TpduSize::L1024))
        .push_parameter(Parameter::new_src_tsap([1u8, 0].to_vec()))
        .push_parameter(Parameter::new_dst_tsap([2u8, 1].to_vec()))
        .build_to_request()
}

fn init_copt_connect_request_frame_bytes() -> &'static [u8] {
    [
        0x11, 0xe0, 0x00, 0x00, 0x00, 0x01, 0x00, 0xc0, 0x01, 0x0a, 0xc1, 0x02, 0x01, 0x00, 0xc2,
        0x02, 0x02, 0x01,
    ]
    .as_ref()
}

fn init_copt_connect_confirm_frame() -> CoptFrame {
    CoptFrame::builder_of_connect()
        .source_ref([0, 8])
        .destination_ref([0, 1])
        .class_and_others(0, false, false)
        .push_parameter(Parameter::new_tpdu_size(TpduSize::L1024))
        .push_parameter(Parameter::new_src_tsap([1u8, 0].to_vec()))
        .push_parameter(Parameter::new_dst_tsap([2u8, 1].to_vec()))
        .build_to_confirm()
}

fn init_copt_connect_confirm_frame_bytes() -> &'static [u8] {
    [
        0x11, 0xd0, 0x00, 0x01, 0x00, 0x08, 0x00, 0xc0, 0x01, 0x0a, 0xc1, 0x02, 0x01, 0x00, 0xc2,
        0x02, 0x02, 0x01,
    ]
    .as_ref()
}

#[test]
fn test_dt_data_decode() {
    let mut decoder = CoptDecoder(S7CommDecoder);
    let mut src = BytesMut::new();
    src.extend_from_slice(init_copt_dt_data_frame_bytes());
    let rs = decoder.decode(&mut src);
    assert!(rs.is_ok());
    if let Ok(Some(frame)) = rs {
        let dst_frame = init_copt_dt_data_frame();
        assert_eq!(dst_frame, frame);
    } else {
        unreachable!()
    }
}

#[test]
fn test_connect_request_decode() {
    let mut decoder = CoptDecoder(S7CommDecoder);
    let mut src = BytesMut::new();
    src.extend_from_slice(init_copt_connect_request_frame_bytes());
    let rs = decoder.decode(&mut src);
    assert!(rs.is_ok());
    if let Ok(Some(frame)) = rs {
        let dst_frame = init_copt_connect_request_frame();
        assert_eq!(dst_frame, frame);
    } else {
        unreachable!()
    }
}

#[test]
fn test_connect_confirm_decode() {
    let mut decoder = CoptDecoder(S7CommDecoder);
    let mut src = BytesMut::new();
    src.extend_from_slice(init_copt_connect_confirm_frame_bytes());
    let rs = decoder.decode(&mut src);
    assert!(rs.is_ok());
    if let Ok(Some(frame)) = rs {
        let dst_frame = init_copt_connect_confirm_frame();
        assert_eq!(dst_frame, frame);
    } else {
        unreachable!()
    }
}

#[test]
fn test_dt_data_builder_new() {
    let builder = DtDataBuilder::new(init_job_setup_frame());
    let frame = builder.build(0, true);
    assert_eq!(frame, init_copt_dt_data_frame());
}
