use bytes::BytesMut;
use s7client::s7_comm::{Frame, S7CommEncoder};

#[test]
fn frame_job_setup_test_encode() {
    let bytes: [u8; 18] = [
        0x32, 0x01, 0x00, 0x00, 0x04, 0x00, 0x00, 0x08, 0x00, 0x00, 0xf0, 0x00, 0x00, 0x01, 0x00,
        0x01, 0x01, 0xe0,
    ];
    let frame = Frame::job_setup(1024)
        .max_amq_called(1)
        .max_amq_calling(1)
        .pdu_length(480)
        .build();
    let mut dst = BytesMut::new();
    let mut encoder = S7CommEncoder;
    assert!(encoder.encode(frame, &mut dst).is_ok());
    assert_eq!(dst.as_ref(), bytes.as_ref())
}

#[test]
fn frame_job_write_var_test_encode() {
    let bytes: [u8; 32] = [
        0x32, 0x01, 0x00, 0x00, 0x05, 0x00, 0x00, 0x0e, 0x00, 0x08, 0x05, 0x01, 0x12, 0x0a, 0x10,
        0x02, 0x00, 0x04, 0x00, 0x01, 0x84, 0x00, 0x09, 0x60, 0x00, 0x04, 0x00, 0x20, 0x00, 0x00,
        0x00, 0x79,
    ];
    let frame_builder = Frame::job_write_var(1280);
    let frame = frame_builder
        .write_db_bytes(1, 300, 0, [0u8, 0, 0, 0x79].as_ref())
        .build();
    let mut dst = BytesMut::new();
    let mut encoder = S7CommEncoder;
    assert!(encoder.encode(frame, &mut dst).is_ok());
    assert_eq!(dst.as_ref(), bytes.as_ref())
}

#[test]
fn frame_job_read_var_test_encode() {
    let bytes: [u8; 24] = [
        0x32, 0x01, 0x00, 0x00, 0x05, 0x00, 0x00, 0x0e, 0x00, 0x00, 0x04, 0x01, 0x12, 0x0a, 0x10,
        0x02, 0x00, 0x04, 0x00, 0x01, 0x84, 0x00, 0x09, 0x60,
    ];
    let frame_builder = Frame::job_read_var(1280);
    let frame = frame_builder.read_db_bytes(1, 300, 4).build();
    let mut dst = BytesMut::new();
    let mut encoder = S7CommEncoder;
    assert!(encoder.encode(frame, &mut dst).is_ok());
    assert_eq!(dst.as_ref(), bytes.as_ref())
}
