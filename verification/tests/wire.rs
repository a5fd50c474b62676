
use gluon_ipc::{DataBuilder, DataReader, ReadError, WriteError};
use strong_ipc::FdVec;

/// The descriptor type strong-ipc hands a handler.
type OwnedFd = <FdVec as IntoIterator>::Item;

#[test]
fn code_and_payload_round_trip() {
    let mut builder = DataBuilder::<OwnedFd>::new();
    builder.write_u32(7).unwrap();
    builder.write_str("hello").unwrap();
    let message = builder.finish(12);

    let (code, mut reader) =
        DataReader::from_wire(message.data(), FdVec::new().into_vec()).unwrap();
    assert_eq!(code, 12);
    assert_eq!(reader.read_u32().unwrap(), 7);
    assert_eq!(reader.read_string().unwrap(), "hello");
}

#[test]
fn short_message_has_no_code() {
    assert!(matches!(
        DataReader::from_wire(&[0, 1], FdVec::new().into_vec()),
        Err(ReadError::NotEnoughBytes)
    ));
}

#[test]
fn missing_descriptor_is_an_error() {
    let message = DataBuilder::<OwnedFd>::new().finish(0);
    let (_, mut reader) =
        DataReader::from_wire(message.data(), FdVec::new().into_vec()).unwrap();
    assert!(matches!(
        reader.read_fd(),
        Err(ReadError::MissingDescriptor)
    ));
}

#[test]
fn frame_is_code_then_payload() {
    let mut builder = DataBuilder::<u8>::new();
    builder.write_u16(0x0201).unwrap();
    let frame = builder.finish(0x0a0b0c0d);
    assert_eq!(frame.data(), &[0x0d, 0x0c, 0x0b, 0x0a, 0x01, 0x02]);
}

#[test]
fn integers_are_little_endian_twos_complement() {
    let mut builder = DataBuilder::<u8>::new();
    builder.write_i8(-1).unwrap();
    builder.write_i16(-2).unwrap();
    builder.write_i32(-3).unwrap();
    builder.write_i64(i64::MIN).unwrap();
    builder.write_u64(0x0102030405060708).unwrap();
    builder.write_bool(true).unwrap();
    let frame = builder.finish(1);
    let expected: Vec<u8> = vec![
        1, 0, 0, 0, // code
        0xff, // i8 -1
        0xfe, 0xff, // i16 -2
        0xfd, 0xff, 0xff, 0xff, // i32 -3
        0, 0, 0, 0, 0, 0, 0, 0x80, // i64::MIN
        8, 7, 6, 5, 4, 3, 2, 1, // u64
        1, // true
    ];
    assert_eq!(frame.data(), expected.as_slice());
}

#[test]
fn every_type_reads_back() {
    let mut builder = DataBuilder::<u8>::new();
    builder.write_u8(200).unwrap();
    builder.write_i8(-100).unwrap();
    builder.write_u16(60000).unwrap();
    builder.write_i16(-30000).unwrap();
    builder.write_u32(4_000_000_000).unwrap();
    builder.write_i32(i32::MIN).unwrap();
    builder.write_u64(u64::MAX).unwrap();
    builder.write_i64(-5).unwrap();
    builder.write_bool(false).unwrap();
    builder.write_bool(true).unwrap();
    builder.write_str("héllo wörld").unwrap();
    builder.write_str("").unwrap();
    let frame = builder.finish(9);
    let (code, mut r) = DataReader::from_wire(frame.data(), Vec::<u8>::new()).unwrap();
    assert_eq!(code, 9);
    assert_eq!(r.read_u8().unwrap(), 200);
    assert_eq!(r.read_i8().unwrap(), -100);
    assert_eq!(r.read_u16().unwrap(), 60000);
    assert_eq!(r.read_i16().unwrap(), -30000);
    assert_eq!(r.read_u32().unwrap(), 4_000_000_000);
    assert_eq!(r.read_i32().unwrap(), i32::MIN);
    assert_eq!(r.read_u64().unwrap(), u64::MAX);
    assert_eq!(r.read_i64().unwrap(), -5);
    assert!(!r.read_bool().unwrap());
    assert!(r.read_bool().unwrap());
    assert_eq!(r.read_string().unwrap(), "héllo wörld");
    assert_eq!(r.read_string().unwrap(), "");
    assert!(matches!(r.read_u8(), Err(ReadError::NotEnoughBytes)));
}

#[test]
fn any_nonzero_byte_is_true() {
    let (_, mut r) = DataReader::from_wire(&[0, 0, 0, 0, 7], Vec::<u8>::new()).unwrap();
    assert!(r.read_bool().unwrap());
}

#[test]
fn short_read_moves_nowhere() {
    let (_, mut r) = DataReader::from_wire(&[0, 0, 0, 0, 1, 2, 3], Vec::<u8>::new()).unwrap();
    assert!(matches!(r.read_u32(), Err(ReadError::NotEnoughBytes)));
    assert_eq!(r.read_u16().unwrap(), 0x0201);
    assert_eq!(r.read_u8().unwrap(), 3);
}

#[test]
fn string_longer_than_its_bytes_is_short() {
    // length 10, but only two bytes follow
    let (_, mut r) =
        DataReader::from_wire(&[0, 0, 0, 0, 10, 0, 0, 0, b'h', b'i'], Vec::<u8>::new()).unwrap();
    assert!(matches!(r.read_string(), Err(ReadError::NotEnoughBytes)));
    // the length stays read
    assert_eq!(r.read_u8().unwrap(), b'h');
}

#[test]
fn string_not_utf8_is_refused() {
    let (_, mut r) =
        DataReader::from_wire(&[0, 0, 0, 0, 2, 0, 0, 0, 0xff, 0xfe, 5], Vec::<u8>::new()).unwrap();
    assert!(matches!(r.read_string(), Err(ReadError::StringNotUtf8(_))));
    // the bad bytes stay read
    assert_eq!(r.read_u8().unwrap(), 5);
}

#[test]
fn descriptors_come_out_in_write_order() {
    let mut builder = DataBuilder::<u32>::new();
    builder.write_owned_fd(10).unwrap();
    builder.write_u8(1).unwrap();
    builder.write_owned_fd(20).unwrap();
    builder.write_owned_fd(30).unwrap();
    let frame = builder.finish(3);
    let fds: Vec<u32> = frame
        .attachments
        .into_iter()
        .map(|a| match a {
            gluon_ipc::Attachment::Fd(fd) => fd,
            gluon_ipc::Attachment::Ref(_) => unreachable!(),
        })
        .collect();
    assert_eq!(fds, vec![10, 20, 30]);
    let (_, mut r) = DataReader::from_wire(&frame.data, fds).unwrap();
    assert_eq!(r.read_fd().unwrap(), 10);
    assert_eq!(r.read_fd().unwrap(), 20);
    assert_eq!(r.read_fd().unwrap(), 30);
    assert!(matches!(r.read_fd(), Err(ReadError::MissingDescriptor)));
}

#[test]
fn empty_builder_seals_to_bare_code() {
    let frame = DataBuilder::<u8>::default().finish(0xffff_ffff);
    assert_eq!(frame.data(), &[0xff, 0xff, 0xff, 0xff]);
    assert!(frame.attachments.is_empty());
}

#[test]
fn write_error_variants_exist() {
    let e = WriteError::StringToLong;
    assert!(matches!(e, WriteError::StringToLong));
    assert!(matches!(WriteError::ListToLong, WriteError::ListToLong));
}
