use biubin::grpc::{
    bidi_sequence, grpc_code, requested_error, server_stream_count, service_index, stream_interval, GrpcCode,
    StreamSummary,
};
use biubin::sockets::{drop_datagram, FrameStep, Framing, TcpSession};
use biubin::thrift::{
    dispatch, field_action, raised_error, sum_list_check, sum_values, ArgumentStruct, FieldAction, FieldType,
    FrameReader, ReadStep, ThriftMethod,
};

#[test]
fn tcp_line_and_length_prefixed_frames() {
    let mut session = TcpSession::new(1024, 0);
    assert!(session.receive(b"line smoke\n\x00\x00"));
    match session.next_frame() {
        FrameStep::Frame(frame, framing) => {
            assert_eq!(frame, b"line smoke\n".to_vec());
            assert_eq!(framing, Framing::Line);
        },
        other => panic!("unexpected {other:?}"),
    }
    assert!(matches!(session.next_frame(), FrameStep::Wait));
    assert!(session.receive(b"\x00\x03abcX"));
    match session.next_frame() {
        FrameStep::Frame(frame, framing) => {
            assert_eq!(frame, b"\x00\x00\x00\x03abc".to_vec());
            assert_eq!(framing, Framing::LengthPrefixed);
        },
        other => panic!("unexpected {other:?}"),
    }
    assert!(!session.frame_echoed());
}

#[test]
fn tcp_limits_close_the_connection() {
    let mut session = TcpSession::new(8, 1);
    assert!(!session.receive(b"0123456789"));
    let mut session = TcpSession::new(1024, 1);
    assert!(session.receive(b"\xff\xff\xff\xffno newline"));
    assert!(matches!(session.next_frame(), FrameStep::Abort));
    let mut session = TcpSession::new(1024, 1);
    assert!(session.receive(b"x\n"));
    assert!(matches!(session.next_frame(), FrameStep::Frame(_, Framing::Line)));
    assert!(session.frame_echoed());
}

#[test]
fn udp_drops_a_fixed_share() {
    let dropped: Vec<bool> = (1..=200u64).map(|s| drop_datagram(s, 25)).collect();
    assert_eq!(dropped.iter().filter(|d| **d).count(), 50);
    assert!(dropped[0] && dropped[24] && !dropped[25] && dropped[100]);
    assert!(!drop_datagram(1, 0));
    assert!(drop_datagram(99, 100));
}

#[test]
fn thrift_dispatch_and_fields() {
    assert_eq!(dispatch(true, "sum"), Ok(ThriftMethod::Sum));
    assert_eq!(dispatch(true, "nope").unwrap_err(), "unknown Thrift method: nope");
    assert_eq!(dispatch(false, "echo").unwrap_err(), "unexpected Thrift message type for echo");
    assert_eq!(field_action(ArgumentStruct::EchoRequest, Some(2), FieldType::Str), FieldAction::Read(2));
    assert_eq!(field_action(ArgumentStruct::EchoRequest, Some(3), FieldType::Str), FieldAction::Skip);
    assert_eq!(field_action(ArgumentStruct::SumArgs, None, FieldType::Stop), FieldAction::End);
    assert_eq!(sum_list_check(1001, FieldType::I64).unwrap_err(), "sum list exceeds the Thrift input limit");
    assert_eq!(sum_list_check(3, FieldType::I32).unwrap_err(), "sum values must be i64");
    assert!(sum_list_check(3, FieldType::I64).is_ok());
    assert_eq!(sum_values(&vec![1, 2, 3]), Some(6));
    assert_eq!(sum_values(&vec![i64::MAX, 1]), None);
    assert_eq!(sum_values(&vec![i64::MAX, 1, -2]), Some(i64::MAX - 1));
    assert_eq!(raised_error(-5), "biubin requested Thrift error kind=-5");
}

#[test]
fn thrift_frames_over_the_limit_are_refused() {
    let mut reader = FrameReader::new();
    assert!(matches!(reader.step(0), ReadStep::Empty));
    assert!(matches!(reader.step(16), ReadStep::ReadHeader(4)));
    reader.header_read(&[0, 0]);
    assert!(matches!(reader.step(16), ReadStep::ReadHeader(2)));
    reader.header_read(&[0, 3]);
    match reader.step(2) {
        ReadStep::SendHeader(bytes) => assert_eq!(bytes, vec![0, 0]),
        other => panic!("unexpected {other:?}"),
    }
    match reader.step(16) {
        ReadStep::SendHeader(bytes) => assert_eq!(bytes, vec![0, 3]),
        other => panic!("unexpected {other:?}"),
    }
    assert!(matches!(reader.step(2), ReadStep::ReadBody(2)));
    reader.body_read(2);
    assert!(matches!(reader.step(16), ReadStep::ReadBody(1)));
    reader.body_read(1);
    assert!(matches!(reader.step(16), ReadStep::ReadHeader(4)));
    let mut big = FrameReader::new();
    big.header_read(&[0, 0x40, 0, 1]);
    assert!(matches!(big.step(16), ReadStep::TooLarge));
}

#[test]
fn grpc_codes_and_streams() {
    assert_eq!(grpc_code(5), GrpcCode::NotFound);
    assert_eq!(grpc_code(99), GrpcCode::InvalidArgument);
    assert!(requested_error(0, "x", true).is_none());
    let e = requested_error(13, "", true).unwrap();
    assert_eq!(e.code, GrpcCode::Internal);
    assert_eq!(e.message, "biubin requested error");
    assert!(e.trailer);
    assert_eq!(server_stream_count(0), 1);
    assert_eq!(server_stream_count(5000), 1000);
    assert_eq!(stream_interval(100000), 60000);
    let mut summary = StreamSummary::new();
    assert!(summary.accept("a".to_owned(), vec![1]).is_ok());
    assert_eq!(summary.count, 1);
    assert_eq!(summary.last_message, "a");
    assert_eq!(bidi_sequence(1000).unwrap_err(), "stream message limit exceeded");
    assert_eq!(bidi_sequence(4), Ok(5));
    assert_eq!(service_index().methods.len(), 6);
}
