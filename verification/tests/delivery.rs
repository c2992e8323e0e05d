use penpal::delivery::{
    correspondence_outcome, mailbox_item, refused_send, Mailman, MailmanTask, PostOffice,
};
use penpal::{CollectionBoxError, CorrespondenceError, DeliveryError, ReceiveError};

fn write_error() -> DeliveryError {
    DeliveryError::from(std::io::Error::new(std::io::ErrorKind::BrokenPipe, "gone"))
}

#[test]
fn delivered_message_keeps_post_office_open() {
    let mut office = PostOffice::new();
    assert!(office.is_open());
    assert!(office.record(false, Ok(())).is_none());
    assert!(office.record(false, Ok(())).is_none());
    assert!(office.is_open());
}

#[test]
fn delivered_farewell_closes_post_office() {
    let mut office = PostOffice::new();
    assert!(office.record(false, Ok(())).is_none());
    assert!(matches!(office.record(true, Ok(())), Some(Ok(()))));
    assert!(!office.is_open());
}

#[test]
fn failed_delivery_closes_post_office() {
    let mut office = PostOffice::new();
    assert!(matches!(
        office.record(false, Err(write_error())),
        Some(Err(DeliveryError::WriteError(_)))
    ));
    assert!(!office.is_open());
    let mut office = PostOffice::new();
    assert!(matches!(
        office.record(true, Err(DeliveryError::SerializeError(postcard::Error::SerdeSerCustom))),
        Some(Err(DeliveryError::SerializeError(postcard::Error::SerdeSerCustom)))
    ));
    assert!(!office.is_open());
}

#[test]
fn mailman_hands_on_messages_until_they_end() {
    let mut mailman = Mailman::new();
    assert!(matches!(mailman.take(Some(Ok(1u8))), MailmanTask::Handle(1u8)));
    assert!(mailman.handled(Ok(())).is_none());
    assert!(mailman.is_running());
    assert!(matches!(mailman.take::<u8>(None), MailmanTask::SayFarewell(Ok(()))));
    assert!(!mailman.is_running());
}

#[test]
fn mailman_stops_at_failing_callback() {
    let mut mailman = Mailman::new();
    assert!(matches!(mailman.take(Some(Ok(2u8))), MailmanTask::Handle(2u8)));
    let failure = Err(CorrespondenceError::CollectionBoxError(CollectionBoxError::FarewellAlreadySent));
    assert!(matches!(
        mailman.handled(failure),
        Some(Err(CorrespondenceError::CollectionBoxError(CollectionBoxError::FarewellAlreadySent)))
    ));
    assert!(!mailman.is_running());
}

#[test]
fn mailman_stops_at_receive_failure() {
    let mut mailman = Mailman::new();
    let item: Option<Result<u8, ReceiveError>> =
        Some(Err(ReceiveError::DeserializeError(postcard::Error::DeserializeBadVarint)));
    assert!(matches!(
        mailman.take(item),
        MailmanTask::SayFarewell(Err(CorrespondenceError::ReceiveError(
            ReceiveError::DeserializeError(postcard::Error::DeserializeBadVarint)
        )))
    ));
    assert!(!mailman.is_running());
}

#[test]
fn send_after_farewell_is_refused() {
    assert!(matches!(refused_send(Ok(())), CollectionBoxError::FarewellAlreadySent));
}

#[test]
fn send_after_failure_reports_the_failure() {
    match refused_send(Err(write_error())) {
        CollectionBoxError::DeliveryError(DeliveryError::WriteError(e)) => {
            assert_eq!(e.kind(), std::io::ErrorKind::BrokenPipe)
        }
        _ => panic!("expected the delivery error"),
    }
}

#[test]
fn correspondence_without_errors_ends_well() {
    assert!(correspondence_outcome(Ok(()), Ok(())).is_ok());
    assert!(correspondence_outcome(Ok(()), Err(CollectionBoxError::FarewellAlreadySent)).is_ok());
}

#[test]
fn failed_farewell_fails_correspondence() {
    assert!(matches!(
        correspondence_outcome(Ok(()), Err(CollectionBoxError::DeliveryError(write_error()))),
        Err(CorrespondenceError::CollectionBoxError(CollectionBoxError::DeliveryError(
            DeliveryError::WriteError(_)
        )))
    ));
}

#[test]
fn stopping_error_is_the_outcome() {
    let stopped = Err(CorrespondenceError::ReceiveError(ReceiveError::DeserializeError(
        postcard::Error::DeserializeBadOption,
    )));
    assert!(matches!(
        correspondence_outcome(stopped, Err(CollectionBoxError::DeliveryError(write_error()))),
        Err(CorrespondenceError::ReceiveError(ReceiveError::DeserializeError(
            postcard::Error::DeserializeBadOption
        )))
    ));
}

#[test]
fn mailbox_items() {
    assert_eq!(mailbox_item(Ok(Some(5u8))).map(|r| r.ok()), Some(Some(5u8)));
    assert!(mailbox_item::<u8>(Ok(None)).is_none());
    assert!(matches!(
        mailbox_item::<u8>(Err(ReceiveError::DeserializeError(postcard::Error::DeserializeBadBool))),
        Some(Err(ReceiveError::DeserializeError(postcard::Error::DeserializeBadBool)))
    ));
}
