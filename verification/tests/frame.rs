use penpal::frame::{compose_frame, decode_header, encode_header, open_payload, HEADER_LEN};
use penpal::{DeliveryError, ReceiveError};

#[test]
fn header_is_little_endian() {
    assert_eq!(encode_header(0x1234_5678), [0x78, 0x56, 0x34, 0x12]);
    assert_eq!(encode_header(0), [0, 0, 0, 0]);
    assert_eq!(encode_header(u32::MAX), [0xff, 0xff, 0xff, 0xff]);
}

#[test]
fn header_decodes_to_announced_length() {
    assert_eq!(decode_header([1, 0, 0, 0]), 1);
    assert_eq!(decode_header([0, 1, 0, 0]), 256);
    assert_eq!(decode_header([0x78, 0x56, 0x34, 0x12]), 0x1234_5678);
    assert_eq!(decode_header([0xff, 0xff, 0xff, 0xff]), u32::MAX);
}

#[test]
fn header_round_trip() {
    for n in [0u32, 1, 255, 256, 65_535, 65_536, 16_777_216, 0xdead_beef, u32::MAX] {
        assert_eq!(decode_header(encode_header(n)), n);
    }
}

#[test]
fn message_frame_matches_postcard_option_encoding() {
    let message = String::from("Hi!");
    let mut buffer = Vec::new();
    let encoded = postcard::to_allocvec(&message);
    assert!(compose_frame(&mut buffer, Some(encoded)).is_ok());
    assert_eq!(buffer, vec![5, 0, 0, 0, 1, 3, b'H', b'i', b'!']);
    let whole = postcard::to_allocvec(&Some(&message)).unwrap();
    assert_eq!(&buffer[HEADER_LEN..], whole.as_slice());
}

#[test]
fn farewell_frame_is_a_lone_zero() {
    let mut buffer = Vec::new();
    assert!(compose_frame(&mut buffer, None).is_ok());
    assert_eq!(buffer, vec![1, 0, 0, 0, 0]);
    let whole = postcard::to_allocvec(&None::<u32>).unwrap();
    assert_eq!(&buffer[HEADER_LEN..], whole.as_slice());
}

#[test]
fn frame_overwrites_an_old_buffer() {
    let mut buffer = vec![9u8; 12];
    let encoded = postcard::to_allocvec(&7u32);
    assert!(compose_frame(&mut buffer, Some(encoded)).is_ok());
    assert_eq!(buffer, vec![2, 0, 0, 0, 1, 7]);
}

#[test]
fn encoding_error_is_a_serialize_error() {
    let mut buffer = vec![4u8, 2];
    let res = compose_frame(&mut buffer, Some(Err(postcard::Error::SerdeSerCustom)));
    assert!(matches!(
        res,
        Err(DeliveryError::SerializeError(postcard::Error::SerdeSerCustom))
    ));
    assert_eq!(buffer, vec![4u8, 2]);
}

#[test]
fn payload_with_message() {
    let payload = [1u8, 3, b'a', b'b', b'c'];
    match open_payload(&payload) {
        Ok(Some(rest)) => assert_eq!(rest, &[3u8, b'a', b'b', b'c']),
        _ => panic!("expected a message"),
    }
}

#[test]
fn payload_with_farewell() {
    assert!(matches!(open_payload(&[0u8]), Ok(None)));
    assert!(matches!(open_payload(&[0u8, 5, 6]), Ok(None)));
}

#[test]
fn empty_payload_is_unexpected_end() {
    assert!(matches!(
        open_payload(&[]),
        Err(ReceiveError::DeserializeError(postcard::Error::DeserializeUnexpectedEnd))
    ));
}

#[test]
fn bad_presence_byte_is_bad_option() {
    assert!(matches!(
        open_payload(&[2u8, 1]),
        Err(ReceiveError::DeserializeError(postcard::Error::DeserializeBadOption))
    ));
    assert!(matches!(
        open_payload(&[0xffu8]),
        Err(ReceiveError::DeserializeError(postcard::Error::DeserializeBadOption))
    ));
}

#[test]
fn a_read_gives_back_what_a_write_wrote() {
    let message = (42u32, String::from("penpal"));
    let mut frame = Vec::new();
    compose_frame(&mut frame, Some(postcard::to_allocvec(&message))).unwrap();
    let header = [frame[0], frame[1], frame[2], frame[3]];
    let len = decode_header(header) as usize;
    assert_eq!(len, frame.len() - HEADER_LEN);
    let inner = open_payload(&frame[HEADER_LEN..]).unwrap().unwrap();
    let back: (u32, String) = postcard::from_bytes(inner).unwrap();
    assert_eq!(back, message);
    let decoded_whole: Option<(u32, String)> = postcard::from_bytes(&frame[HEADER_LEN..]).unwrap();
    assert_eq!(decoded_whole, Some(message));
}

#[test]
fn a_farewell_reads_back_as_no_message() {
    let mut frame = Vec::new();
    compose_frame(&mut frame, None).unwrap();
    let len = decode_header([frame[0], frame[1], frame[2], frame[3]]) as usize;
    assert_eq!(len, 1);
    assert!(matches!(open_payload(&frame[HEADER_LEN..]), Ok(None)));
}
