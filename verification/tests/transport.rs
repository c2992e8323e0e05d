use penpal::error::{CollectionBoxError, CorrespondenceError, DeliveryError, ReceiveError};
use penpal::Transport;

#[test]
fn transport_keeps_both_ends() {
    let transport = Transport::new(1u8, String::from("out"));
    let (incoming, outgoing) = transport.into_parts();
    assert_eq!(incoming, 1u8);
    assert_eq!(outgoing, "out");
}

#[test]
fn bidirectional_transport_uses_a_clone_for_incoming() {
    let transport = Transport::from_bidirectional(vec![1u8, 2, 3]);
    let (incoming, outgoing) = transport.into_parts();
    assert_eq!(incoming, vec![1u8, 2, 3]);
    assert_eq!(outgoing, vec![1u8, 2, 3]);
}

#[test]
fn io_errors_convert() {
    let err = ReceiveError::from(std::io::Error::new(std::io::ErrorKind::UnexpectedEof, "eof"));
    match err {
        ReceiveError::ReadError(e) => assert_eq!(e.kind(), std::io::ErrorKind::UnexpectedEof),
        _ => panic!("expected a read error"),
    }
    let err = DeliveryError::from(std::io::Error::new(std::io::ErrorKind::WriteZero, "zero"));
    match err {
        DeliveryError::WriteError(e) => assert_eq!(e.kind(), std::io::ErrorKind::WriteZero),
        _ => panic!("expected a write error"),
    }
}

#[test]
fn postcard_errors_convert() {
    assert!(matches!(
        ReceiveError::from(postcard::Error::DeserializeBadUtf8),
        ReceiveError::DeserializeError(postcard::Error::DeserializeBadUtf8)
    ));
    assert!(matches!(
        DeliveryError::from(postcard::Error::SerializeSeqLengthUnknown),
        DeliveryError::SerializeError(postcard::Error::SerializeSeqLengthUnknown)
    ));
}

#[test]
fn nested_errors_convert() {
    let delivery = DeliveryError::SerializeError(postcard::Error::SerdeSerCustom);
    assert!(matches!(
        CollectionBoxError::from(delivery),
        CollectionBoxError::DeliveryError(DeliveryError::SerializeError(_))
    ));
    assert!(matches!(
        CorrespondenceError::from(CollectionBoxError::FarewellAlreadySent),
        CorrespondenceError::CollectionBoxError(CollectionBoxError::FarewellAlreadySent)
    ));
    assert!(matches!(
        CorrespondenceError::from(ReceiveError::DeserializeError(postcard::Error::SerdeDeCustom)),
        CorrespondenceError::ReceiveError(ReceiveError::DeserializeError(_))
    ));
}
